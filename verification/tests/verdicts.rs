//! The seed, the verdict on what was captured, and the report.

use mdk_snapshot_bug::key::encode_group_id;
use mdk_snapshot_bug::report::{
    checks_text, contents_text, counts_text, encodings_text, encodings_text_of, summary_text,
    BACKENDS, SEEDED, SNAPSHOT_TAKEN, TITLE,
};
use mdk_snapshot_bug::seed::{seed_test_data, SqlValue, Table};
use mdk_snapshot_bug::snapshot::{
    get_snapshot_tables, group_data_count_query, is_captured, judge, snapshot_tables_query, Verdict,
};

const ID: [u8; 16] = [82, 64, 138, 27, 85, 184, 25, 110, 23, 239, 172, 120, 237, 167, 242, 87];

fn tables(names: &[&str]) -> Vec<(String, i64)> {
    names.iter().map(|name| (name.to_string(), 1)).collect()
}

fn is_integer(v: &SqlValue, expected: i64) -> bool {
    matches!(v, SqlValue::Integer(n) if *n == expected)
}

fn is_text(v: &SqlValue, expected: &str) -> bool {
    matches!(v, SqlValue::Text(s) if s == expected)
}

fn is_blob(v: &SqlValue, expected: &[u8]) -> bool {
    matches!(v, SqlValue::Blob(b) if b == expected)
}

#[test]
fn seed_holds_one_row_for_each_table() {
    let rows = seed_test_data(b"raw", b"json");
    let order: Vec<Table> = rows.iter().map(|row| row.table).collect();
    assert_eq!(
        order,
        [Table::GroupData, Table::EpochKeyPairs, Table::OwnLeafNodes, Table::Groups]
    );

    let v = &rows[0].values;
    assert_eq!(v.len(), 4);
    assert!(is_integer(&v[0], 1));
    assert!(is_blob(&v[1], b"json"));
    assert!(is_text(&v[2], "group_state"));
    assert!(is_blob(&v[3], b"fake_crypto_state"));

    let v = &rows[1].values;
    assert_eq!(v.len(), 5);
    assert!(is_integer(&v[0], 1));
    assert!(is_blob(&v[1], b"json"));
    assert!(is_blob(&v[2], b"json"));
    assert!(is_integer(&v[3], 0));
    assert!(is_blob(&v[4], b"fake_epoch_keys"));

    let v = &rows[2].values;
    assert_eq!(v.len(), 3);
    assert!(is_integer(&v[0], 1));
    assert!(is_blob(&v[1], b"json"));
    assert!(is_blob(&v[2], b"fake_leaf_node"));

    let v = &rows[3].values;
    assert_eq!(v.len(), 7);
    assert!(is_blob(&v[0], b"raw"));
    assert!(is_blob(&v[1], b"nostr_group_id_placeholder"));
    assert!(is_text(&v[2], "Test Group"));
    assert!(is_text(&v[3], "Bug repro"));
    assert!(is_text(&v[4], "[]"));
    assert!(is_integer(&v[5], 5));
    assert!(is_text(&v[6], "active"));
}

#[test]
fn statements_name_their_tables_and_columns() {
    assert_eq!(
        Table::GroupData.insert_sql(),
        "INSERT INTO openmls_group_data (provider_version, group_id, data_type, group_data)
         VALUES (?1, ?2, ?3, ?4)"
    );
    assert_eq!(
        Table::EpochKeyPairs.insert_sql(),
        "INSERT INTO openmls_epoch_key_pairs (provider_version, group_id, epoch_id, leaf_index, key_pairs)
         VALUES (?1, ?2, ?3, ?4, ?5)"
    );
    assert_eq!(
        Table::OwnLeafNodes.insert_sql(),
        "INSERT INTO openmls_own_leaf_nodes (provider_version, group_id, leaf_node)
         VALUES (?1, ?2, ?3)"
    );
    assert_eq!(
        Table::Groups.insert_sql(),
        "INSERT INTO groups (mls_group_id, nostr_group_id, name, description, admin_pubkeys, epoch, state)
         VALUES (?1, ?2, ?3, ?4, ?5, ?6, ?7)"
    );
}

#[test]
fn seeded_rows_fill_every_column() {
    for row in seed_test_data(&[1], &[2]) {
        let sql = row.table.insert_sql();
        assert_eq!(sql.matches('?').count(), row.values.len());
        let columns = &sql[sql.find('(').unwrap() + 1..sql.find(')').unwrap()];
        let columns: Vec<&str> = columns.split(", ").collect();
        assert_eq!(columns.len(), row.values.len());
        let (name, key): (&str, &[u8]) = match row.table {
            Table::Groups => ("mls_group_id", &[1]),
            _ => ("group_id", &[2]),
        };
        let place = columns.iter().position(|column| *column == name).unwrap();
        assert!(is_blob(&row.values[place], key));
    }
}

#[test]
fn queries_bind_the_key_they_are_given() {
    let query = snapshot_tables_query(&[1, 2]);
    assert_eq!(query.key, [1, 2]);
    assert!(query.sql.ends_with("GROUP BY table_name ORDER BY table_name"));
    let query = group_data_count_query(&[3]);
    assert_eq!(query.key, [3]);
    assert_eq!(query.sql, "SELECT COUNT(*) FROM openmls_group_data WHERE group_id = ?");
}

#[test]
fn rows_that_cannot_be_read_are_left_out() {
    let rows: Vec<Result<(String, i64), &str>> = vec![
        Ok(("groups".to_string(), 1)),
        Err("no such column"),
        Ok(("openmls_group_data".to_string(), 3)),
        Err("not an integer"),
    ];
    assert_eq!(
        get_snapshot_tables(rows),
        [("groups".to_string(), 1), ("openmls_group_data".to_string(), 3)]
    );
    let none: Vec<Result<(String, i64), ()>> = vec![Err(())];
    assert!(get_snapshot_tables(none).is_empty());
}

#[test]
fn readable_rows_are_kept_whole() {
    let rows: Vec<Result<(String, i64), ()>> =
        vec![Ok(("b".to_string(), 2)), Ok(("a".to_string(), -1)), Ok(("b".to_string(), 2))];
    assert_eq!(
        get_snapshot_tables(rows),
        [("b".to_string(), 2), ("a".to_string(), -1), ("b".to_string(), 2)]
    );
}

#[test]
fn answers_that_read_alike_give_equal_tables() {
    let answer = |error: &'static str| -> Vec<Result<(String, i64), &'static str>> {
        vec![Err(error), Ok(("groups".to_string(), 1))]
    };
    assert_eq!(get_snapshot_tables(answer("locked")), get_snapshot_tables(answer("busy")));
}

#[test]
fn table_is_captured_under_its_whole_name() {
    let results = tables(&["group_relays", "groups"]);
    assert!(is_captured(&results, Table::Groups));
    assert!(!is_captured(&results, Table::GroupData));
    assert!(!is_captured(&tables(&["groups_old", "group"]), Table::Groups));
}

#[test]
fn groups_alone_confirm_the_bug() {
    assert_eq!(judge(&tables(&["groups"])), Verdict::Confirmed);
    assert_eq!(judge(&tables(&["group_relays", "groups"])), Verdict::Confirmed);
    assert_eq!(Verdict::Confirmed.exit_code(), 1);
}

#[test]
fn any_openmls_table_counts_as_fixed() {
    for name in ["openmls_group_data", "openmls_epoch_key_pairs", "openmls_own_leaf_nodes"] {
        assert_eq!(judge(&tables(&[name])), Verdict::Fixed);
        assert_eq!(judge(&tables(&["groups", name])), Verdict::Fixed);
    }
    assert_eq!(Verdict::Fixed.exit_code(), 0);
}

#[test]
fn other_tables_decide_nothing() {
    assert_eq!(judge(&[]), Verdict::Inconclusive);
    assert_eq!(judge(&tables(&["group_relays", "openmls_proposals"])), Verdict::Inconclusive);
    assert_eq!(Verdict::Inconclusive.exit_code(), 0);
}

#[test]
fn verdict_ignores_counts_and_order() {
    let a = vec![("groups".to_string(), 1), ("openmls_group_data".to_string(), 2)];
    let b = vec![("openmls_group_data".to_string(), 9), ("groups".to_string(), -4)];
    assert_eq!(judge(&a), judge(&b));
}

#[test]
fn encodings_are_shown_with_their_lengths() {
    let keys = encode_group_id(&ID);
    let expected = "1) The two encodings of the same GroupId:

   as_slice()          = 16 bytes: [82, 64, 138, 27, 85, 184, 25, 110, 23, 239, 172, 120, 237, 167, 242, 87]
   JsonCodec::serialize = 76 bytes: {\"value\":{\"vec\":[82,64,138,27,85,184,25,110,23,239,172,120,237,167,242,87]}}

";
    assert_eq!(encodings_text(&keys.raw_bytes, &keys.json_key), expected);
}

#[test]
fn key_that_is_not_utf8_is_shown_with_replacements() {
    let shown = encodings_text(&[1], &[b'a', 0xff, b'b']);
    assert!(shown.ends_with("= 3 bytes: a\u{fffd}b\n\n"));
}

#[test]
fn key_in_utf8_is_shown_as_its_text() {
    let shown = encodings_text(&[], "dé".as_bytes());
    assert!(shown.ends_with("as_slice()          = 0 bytes: []\n   JsonCodec::serialize = 3 bytes: dé\n\n"));
}

#[test]
fn encodings_are_shown_with_the_text_that_is_given() {
    assert_eq!(
        encodings_text_of(&[1, 20], &[9, 9, 9], "key"),
        "1) The two encodings of the same GroupId:

   as_slice()          = 2 bytes: [1, 20]
   JsonCodec::serialize = 3 bytes: key

"
    );
}

#[test]
fn fixed_pieces_of_the_report() {
    assert_eq!(TITLE, "=== MDK Snapshot group_id Format Mismatch Bug ===\n\n");
    assert_eq!(BACKENDS.lines().count(), 12);
    assert!(BACKENDS.starts_with("2) Backend implementations:\n\n   MdkMemoryStorage (CORRECT):\n"));
    assert!(BACKENDS.ends_with("// <-- wrong for openmls tables\n\n"));
    assert_eq!(SEEDED, "3) Inserted test data (4 tables: 3 openmls + 1 mdk)\n\n");
    assert_eq!(
        SNAPSHOT_TAKEN,
        "4) Called storage.create_group_snapshot() — MDK's actual code path\n\n"
    );
}

#[test]
fn contents_list_each_table_on_a_line() {
    assert_eq!(contents_text(&[]), "5) Snapshot contents:\n   (empty!)\n\n");
    let results = vec![("groups".to_string(), 1), ("openmls_group_data".to_string(), 12)];
    let expected = format!(
        "5) Snapshot contents:\n   {:40} {} row(s)\n   {:40} {} row(s)\n\n",
        "groups", 1, "openmls_group_data", 12
    );
    assert_eq!(contents_text(&results), expected);
}

#[test]
fn checks_mark_what_was_captured() {
    assert_eq!(
        checks_text(&tables(&["groups"])),
        "   [ OK ] groups                  (MDK table, raw bytes — matches)
   [BUG ] openmls_group_data      (OpenMLS, JSON key — MISSING)
   [BUG ] openmls_epoch_key_pairs (OpenMLS, JSON key — MISSING)
   [BUG ] openmls_own_leaf_nodes  (OpenMLS, JSON key — MISSING)
"
    );
    let shown = checks_text(&tables(&["openmls_epoch_key_pairs"]));
    assert_eq!(shown.matches("[ OK ]").count(), 1);
    assert!(shown.contains("[ OK ] openmls_epoch_key_pairs "));
}

#[test]
fn counts_are_shown_for_both_keys() {
    assert_eq!(
        counts_text(1, 0),
        "
6) Proof — querying openmls_group_data directly:
   WHERE group_id = <json_key>  -> 1 row(s)  (data exists)
   WHERE group_id = <raw_bytes> -> 0 row(s)  (snapshot uses this)

"
    );
}

#[test]
fn summary_follows_the_verdict() {
    let keys = encode_group_id(&ID);
    let (raw, json) = (&keys.raw_bytes, &keys.json_key);
    assert_eq!(
        summary_text(Verdict::Confirmed, raw, json),
        "=== BUG CONFIRMED ===
SQLite snapshot queries openmls tables with as_slice() (16 bytes)
but StorageProvider stores group_id via JsonCodec (76 bytes)
Result: snapshots contain ONLY MDK metadata, ZERO cryptographic state.
restore_group_from_snapshot() deletes all crypto state with nothing to restore.

The memory backend already has the fix (with comment explaining why).
The SQLite backend just needs the same treatment.
"
    );
    assert_eq!(
        summary_text(Verdict::Fixed, raw, json),
        "=== BUG FIXED ===\nSnapshots now correctly capture OpenMLS data.\n"
    );
    assert_eq!(summary_text(Verdict::Inconclusive, raw, json), "");
}
