//! Runs the seed and the queries against real databases.

use mdk_snapshot_bug::key::encode_group_id;
use mdk_snapshot_bug::report::{checks_text, contents_text};
use mdk_snapshot_bug::seed::{seed_test_data, SqlValue, Table};
use mdk_snapshot_bug::snapshot::{
    get_snapshot_tables, group_data_count_query, judge, snapshot_tables_query, Verdict,
};
use mdk_sqlite_storage::MdkSqliteStorage;
use mdk_storage_traits::{GroupId, MdkStorageProvider};
use rusqlite::types::Value;
use rusqlite::{params_from_iter, Connection};
use std::path::Path;

fn value(v: SqlValue) -> Value {
    match v {
        SqlValue::Integer(n) => Value::Integer(n),
        SqlValue::Text(s) => Value::Text(s),
        SqlValue::Blob(b) => Value::Blob(b),
    }
}

fn seed(db_path: &Path, raw_bytes: &[u8], json_key: &[u8]) {
    let conn = Connection::open(db_path).unwrap();
    for row in seed_test_data(raw_bytes, json_key) {
        let sql = row.table.insert_sql();
        let values: Vec<Value> = row.values.into_iter().map(value).collect();
        assert_eq!(conn.execute(&sql, params_from_iter(values)).unwrap(), 1);
    }
}

fn snapshot_tables(db_path: &Path, raw_bytes: &[u8]) -> Vec<(String, i64)> {
    let conn = Connection::open(db_path).unwrap();
    let query = snapshot_tables_query(raw_bytes);
    let mut stmt = conn.prepare(query.sql).unwrap();
    let rows: Vec<rusqlite::Result<(String, i64)>> = stmt
        .query_map([query.key], |row| Ok((row.get(0)?, row.get(1)?)))
        .unwrap()
        .collect();
    get_snapshot_tables(rows)
}

fn group_data_count(conn: &Connection, key: &[u8]) -> i64 {
    let query = group_data_count_query(key);
    conn.query_row(query.sql, [query.key], |row| row.get(0)).unwrap()
}

fn count_under(conn: &Connection, table: &str, column: &str, key: &[u8]) -> i64 {
    let sql = format!("SELECT COUNT(*) FROM {} WHERE {} = ?", table, column);
    conn.query_row(&sql, [key], |row| row.get(0)).unwrap()
}

/// The snapshot holds MDK's table and misses every OpenMLS table.
#[test]
fn sqlite_snapshot_misses_openmls_tables() {
    let tmp = tempfile::NamedTempFile::new().unwrap();
    let db_path = tmp.path().to_path_buf();
    let storage = MdkSqliteStorage::new_unencrypted(&db_path).unwrap();
    let bytes = [82, 64, 138, 27, 85, 184, 25, 110, 23, 239, 172, 120, 237, 167, 242, 87];
    let group_id = GroupId::from_slice(&bytes);
    let keys = encode_group_id(&bytes);

    seed(&db_path, &keys.raw_bytes, &keys.json_key);
    storage.create_group_snapshot(&group_id, "test_snap").unwrap();

    let results = snapshot_tables(&db_path, &keys.raw_bytes);
    let tables: Vec<&str> = results.iter().map(|(t, _)| t.as_str()).collect();
    assert!(tables.contains(&"groups"), "MDK groups table should be captured");
    assert!(
        !tables.contains(&"openmls_group_data"),
        "openmls_group_data MISSING: as_slice() != JsonCodec::serialize()"
    );
    assert!(
        !tables.contains(&"openmls_epoch_key_pairs"),
        "openmls_epoch_key_pairs MISSING: as_slice() != JsonCodec::serialize()"
    );
    assert!(
        !tables.contains(&"openmls_own_leaf_nodes"),
        "openmls_own_leaf_nodes MISSING: as_slice() != JsonCodec::serialize()"
    );
    assert_eq!(judge(&results), Verdict::Confirmed);
    assert_eq!(
        contents_text(&results),
        "5) Snapshot contents:\n   groups                                   1 row(s)\n\n"
    );
    assert!(checks_text(&results).starts_with("   [ OK ] groups "));
}

/// A row written under the JSON key is found under it, and not under raw bytes.
#[test]
fn json_codec_query_finds_openmls_data() {
    let tmp = tempfile::NamedTempFile::new().unwrap();
    let db_path = tmp.path().to_path_buf();
    let _storage = MdkSqliteStorage::new_unencrypted(&db_path).unwrap();
    let keys = encode_group_id(&[1, 2, 3, 4, 5, 6, 7, 8]);

    {
        let conn = Connection::open(&db_path).unwrap();
        conn.execute(
            "INSERT INTO openmls_group_data (provider_version, group_id, data_type, group_data)
                 VALUES (?1, ?2, ?3, ?4)",
            (1i32, &keys.json_key, "group_state", b"real_crypto_state"),
        )
        .unwrap();
    }

    let conn = Connection::open(&db_path).unwrap();
    let raw_count: i64 = group_data_count(&conn, &keys.raw_bytes);
    assert_eq!(raw_count, 0, "as_slice() query misses the data");
    let json_count: i64 = group_data_count(&conn, &keys.json_key);
    assert_eq!(json_count, 1, "JsonCodec query finds the data (this is the fix)");
}

/// The snapshot that a restore goes by never held an OpenMLS row.
#[test]
fn restore_destroys_openmls_state_without_replacing_it() {
    let tmp = tempfile::NamedTempFile::new().unwrap();
    let db_path = tmp.path().to_path_buf();
    let storage = MdkSqliteStorage::new_unencrypted(&db_path).unwrap();
    let bytes = [10, 20, 30, 40, 50, 60, 70, 80];
    let group_id = GroupId::from_slice(&bytes);
    let keys = encode_group_id(&bytes);

    seed(&db_path, &keys.raw_bytes, &keys.json_key);
    storage.create_group_snapshot(&group_id, "before_commit").unwrap();

    let before: i64 = {
        let conn = Connection::open(&db_path).unwrap();
        group_data_count(&conn, &keys.json_key)
    };
    assert_eq!(before, 1, "OpenMLS data exists before restore");

    storage.rollback_group_to_snapshot(&group_id, "before_commit").unwrap();

    let snapshot_had_openmls: bool = {
        let conn = Connection::open(&db_path).unwrap();
        conn.query_row(
            "SELECT COUNT(*) FROM group_state_snapshots
                 WHERE group_id = ?1 AND table_name LIKE 'openmls_%'",
            [&keys.raw_bytes],
            |row| row.get::<_, i64>(0),
        )
        .unwrap()
            > 0
    };
    assert!(
        !snapshot_had_openmls,
        "Snapshot never contained any OpenMLS rows — restore has nothing to work with"
    );
}

/// Deleting and restoring both go by keys that miss the row, so it survives.
#[test]
fn restore_that_misses_rows_leaves_them() {
    let tmp = tempfile::NamedTempFile::new().unwrap();
    let db_path = tmp.path().to_path_buf();
    let storage = MdkSqliteStorage::new_unencrypted(&db_path).unwrap();
    let bytes = [10, 20, 30, 40, 50, 60, 70, 80];
    let group_id = GroupId::from_slice(&bytes);
    let keys = encode_group_id(&bytes);

    seed(&db_path, &keys.raw_bytes, &keys.json_key);
    storage.create_group_snapshot(&group_id, "before_commit").unwrap();
    storage.rollback_group_to_snapshot(&group_id, "before_commit").unwrap();

    let conn = Connection::open(&db_path).unwrap();
    assert_eq!(group_data_count(&conn, &keys.json_key), 1);
    assert_eq!(count_under(&conn, "groups", "mls_group_id", &keys.raw_bytes), 1);
}

/// Each seeded row is found under its table's key alone.
#[test]
fn seeded_rows_are_found_under_their_own_key_only() {
    let tmp = tempfile::NamedTempFile::new().unwrap();
    let db_path = tmp.path().to_path_buf();
    let _storage = MdkSqliteStorage::new_unencrypted(&db_path).unwrap();
    let keys = encode_group_id(&[0, 9, 10, 99, 100, 255]);
    seed(&db_path, &keys.raw_bytes, &keys.json_key);

    let conn = Connection::open(&db_path).unwrap();
    for table in [Table::GroupData, Table::EpochKeyPairs, Table::OwnLeafNodes] {
        assert_eq!(count_under(&conn, table.name(), "group_id", &keys.json_key), 1);
        assert_eq!(count_under(&conn, table.name(), "group_id", &keys.raw_bytes), 0);
    }
    let groups = Table::Groups.name();
    assert_eq!(count_under(&conn, groups, "mls_group_id", &keys.raw_bytes), 1);
    assert_eq!(count_under(&conn, groups, "mls_group_id", &keys.json_key), 0);
}

/// A database without snapshots answers with no table at all.
#[test]
fn no_snapshot_is_inconclusive() {
    let tmp = tempfile::NamedTempFile::new().unwrap();
    let db_path = tmp.path().to_path_buf();
    let _storage = MdkSqliteStorage::new_unencrypted(&db_path).unwrap();
    let keys = encode_group_id(&[7]);
    seed(&db_path, &keys.raw_bytes, &keys.json_key);

    let results = snapshot_tables(&db_path, &keys.raw_bytes);
    assert!(results.is_empty());
    assert_eq!(judge(&results), Verdict::Inconclusive);
}

/// The tables of the seeded rows that a lookup finds when each table goes by the
/// key that `key_of` gives it.
fn tables_found(conn: &Connection, key_of: impl Fn(Table) -> Vec<u8>) -> Vec<(String, i64)> {
    let all = [
        (Table::GroupData, "group_id"),
        (Table::EpochKeyPairs, "group_id"),
        (Table::OwnLeafNodes, "group_id"),
        (Table::Groups, "mls_group_id"),
    ];
    all.iter()
        .map(|(table, column)| {
            let count = count_under(conn, table.name(), column, &key_of(*table));
            (table.name().to_string(), count)
        })
        .filter(|(_, count)| *count > 0)
        .collect()
}

/// Raw bytes throughout confirm the mismatch; each table's own key mends it.
#[test]
fn verdict_follows_the_keys_that_are_looked_up() {
    let tmp = tempfile::NamedTempFile::new().unwrap();
    let db_path = tmp.path().to_path_buf();
    let _storage = MdkSqliteStorage::new_unencrypted(&db_path).unwrap();
    let keys = encode_group_id(&[82, 64, 138, 27]);
    seed(&db_path, &keys.raw_bytes, &keys.json_key);
    let conn = Connection::open(&db_path).unwrap();

    let by_raw = tables_found(&conn, |_| keys.raw_bytes.clone());
    assert_eq!(by_raw, [("groups".to_string(), 1)]);
    assert_eq!(judge(&by_raw), Verdict::Confirmed);

    let by_own = tables_found(&conn, |table| match table {
        Table::Groups => keys.raw_bytes.clone(),
        _ => keys.json_key.clone(),
    });
    assert_eq!(by_own.len(), 4);
    assert_eq!(judge(&by_own), Verdict::Fixed);
}

/// Once the OpenMLS row is deleted under its own key, the snapshot has none to
/// put in its place.
#[test]
fn restore_brings_no_openmls_row_back() {
    let tmp = tempfile::NamedTempFile::new().unwrap();
    let db_path = tmp.path().to_path_buf();
    let storage = MdkSqliteStorage::new_unencrypted(&db_path).unwrap();
    let bytes = [10, 20, 30, 40, 50, 60, 70, 80];
    let group_id = GroupId::from_slice(&bytes);
    let keys = encode_group_id(&bytes);

    seed(&db_path, &keys.raw_bytes, &keys.json_key);
    storage.create_group_snapshot(&group_id, "before_commit").unwrap();
    {
        let conn = Connection::open(&db_path).unwrap();
        let deleted = conn
            .execute("DELETE FROM openmls_group_data WHERE group_id = ?", [&keys.json_key])
            .unwrap();
        assert_eq!(deleted, 1);
    }
    storage.rollback_group_to_snapshot(&group_id, "before_commit").unwrap();

    let conn = Connection::open(&db_path).unwrap();
    assert_eq!(group_data_count(&conn, &keys.json_key), 0);
    assert_eq!(group_data_count(&conn, &keys.raw_bytes), 0);
    assert_eq!(count_under(&conn, "groups", "mls_group_id", &keys.raw_bytes), 1);
}

/// All seven tables of a group go the way of their keys, not the seeded ones alone.
#[test]
fn all_tables_of_a_group_follow_their_keys() {
    let tmp = tempfile::NamedTempFile::new().unwrap();
    let db_path = tmp.path().to_path_buf();
    let storage = MdkSqliteStorage::new_unencrypted(&db_path).unwrap();
    let bytes = [3, 1, 4, 1, 5, 9, 2, 6];
    let group_id = GroupId::from_slice(&bytes);
    let keys = encode_group_id(&bytes);
    seed(&db_path, &keys.raw_bytes, &keys.json_key);

    let conn = Connection::open(&db_path).unwrap();
    conn.execute(
        "INSERT INTO openmls_proposals (provider_version, group_id, proposal_ref, proposal)
             VALUES (?1, ?2, ?3, ?4)",
        (1i32, &keys.json_key, b"ref", b"fake_proposal"),
    )
    .unwrap();
    conn.execute(
        "INSERT INTO group_relays (mls_group_id, relay_url) VALUES (?1, ?2)",
        (&keys.raw_bytes, "wss://relay.example.com"),
    )
    .unwrap();
    conn.execute(
        "INSERT INTO group_exporter_secrets (mls_group_id, epoch, secret) VALUES (?1, ?2, ?3)",
        (&keys.raw_bytes, 5i64, b"fake_secret"),
    )
    .unwrap();

    for table in [
        "openmls_group_data",
        "openmls_proposals",
        "openmls_own_leaf_nodes",
        "openmls_epoch_key_pairs",
    ] {
        assert_eq!(count_under(&conn, table, "group_id", &keys.raw_bytes), 0);
        assert_eq!(count_under(&conn, table, "group_id", &keys.json_key), 1);
    }
    for table in ["groups", "group_relays", "group_exporter_secrets"] {
        assert_eq!(count_under(&conn, table, "mls_group_id", &keys.raw_bytes), 1);
        assert_eq!(count_under(&conn, table, "mls_group_id", &keys.json_key), 0);
    }

    storage.create_group_snapshot(&group_id, "all_tables").unwrap();
    let results = snapshot_tables(&db_path, &keys.raw_bytes);
    let tables: Vec<&str> = results.iter().map(|(t, _)| t.as_str()).collect();
    assert_eq!(tables, ["group_exporter_secrets", "group_relays", "groups"]);
    assert_eq!(judge(&results), Verdict::Confirmed);
}

/// Reading the captured tables twice gives the same, and changes nothing.
#[test]
fn repeated_reads_agree() {
    let tmp = tempfile::NamedTempFile::new().unwrap();
    let db_path = tmp.path().to_path_buf();
    let storage = MdkSqliteStorage::new_unencrypted(&db_path).unwrap();
    let bytes = [42; 16];
    let group_id = GroupId::from_slice(&bytes);
    let keys = encode_group_id(&bytes);
    seed(&db_path, &keys.raw_bytes, &keys.json_key);
    storage.create_group_snapshot(&group_id, "once").unwrap();

    let conn = Connection::open(&db_path).unwrap();
    let counts = |conn: &Connection| {
        (
            group_data_count(conn, &keys.json_key),
            count_under(conn, "groups", "mls_group_id", &keys.raw_bytes),
            count_under(conn, "group_state_snapshots", "group_id", &keys.raw_bytes),
        )
    };
    let before = counts(&conn);
    let first = snapshot_tables(&db_path, &keys.raw_bytes);
    let second = snapshot_tables(&db_path, &keys.raw_bytes);
    assert_eq!(first, second);
    assert_eq!(first, [("groups".to_string(), 1)]);
    assert_eq!(counts(&conn), before);
    assert_eq!(before, (1, 1, 1));
}
