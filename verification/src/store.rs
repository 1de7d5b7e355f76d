//! The rows of a database as a lookup by group sees them, and what snapshots
//! and restores that go by such lookups can do.
//!
//! A snapshot saves the rows that a lookup of each table finds. A restore
//! deletes the rows that a lookup finds and puts the saved ones in their place.

use crate::key;
use crate::seed::Cell;
use vstd::prelude::*;

verus! {

/// Whether this is one of the OpenMLS tables that hold the state of a group.
pub open spec fn is_openmls_table(table: Seq<char>) -> bool {
    ||| table == "openmls_group_data"@
    ||| table == "openmls_proposals"@
    ||| table == "openmls_own_leaf_nodes"@
    ||| table == "openmls_epoch_key_pairs"@
}

/// Whether this is one of MDK's own tables that hold the state of a group.
pub open spec fn is_mdk_table(table: Seq<char>) -> bool {
    ||| table == "groups"@
    ||| table == "group_relays"@
    ||| table == "group_exporter_secrets"@
}

/// A stored row: its table, the key in the column that identifies the group, and
/// the values of its columns.
#[verifier::ext_equal]
pub struct StoredRow {
    pub table: Seq<char>,
    pub group_key: Seq<u8>,
    pub values: Seq<Cell>,
}

/// Whether a row is kept in `table` under the group key `key`.
pub open spec fn kept_under(row: StoredRow, table: Seq<char>, key: Seq<u8>) -> bool {
    row.table == table && row.group_key == key
}

/// How many of the rows a lookup of `key` in `table` finds.
pub open spec fn rows_under(rows: Seq<StoredRow>, table: Seq<char>, key: Seq<u8>) -> nat {
    rows.filter(|row: StoredRow| kept_under(row, table, key)).len()
}

/// The encoding of a group id that the rows of a table are kept under: JSON in
/// an OpenMLS table, else the raw bytes.
pub open spec fn own_key(table: Seq<char>, id: Seq<u8>) -> Seq<u8> {
    if is_openmls_table(table) {
        key::json_key(id)
    } else {
        id
    }
}

/// Whether a row is one of the group's, kept under the key of its table.
pub open spec fn is_row_of(row: StoredRow, id: Seq<u8>) -> bool {
    row.group_key == own_key(row.table, id)
}

/// Whether all rows are the group's.
pub open spec fn are_rows_of(rows: Seq<StoredRow>, id: Seq<u8>) -> bool {
    forall|i: int| 0 <= i < rows.len() ==> is_row_of(#[trigger] rows[i], id)
}

/// Whether a lookup of each table under its key in `keys` finds the row.
pub open spec fn looked_up(row: StoredRow, keys: spec_fn(Seq<char>) -> Seq<u8>) -> bool {
    row.group_key == keys(row.table)
}

/// The rows that a snapshot under these keys saves.
pub open spec fn saved(
    rows: Seq<StoredRow>,
    keys: spec_fn(Seq<char>) -> Seq<u8>,
) -> Seq<StoredRow> {
    rows.filter(|row: StoredRow| looked_up(row, keys))
}

/// The rows after a restore that deletes under these keys.
pub open spec fn restored(
    rows: Seq<StoredRow>,
    saved_rows: Seq<StoredRow>,
    keys: spec_fn(Seq<char>) -> Seq<u8>,
) -> Seq<StoredRow> {
    rows.filter(|row: StoredRow| !looked_up(row, keys)) + saved_rows
}

/// The rows of OpenMLS tables.
pub open spec fn openmls_rows(rows: Seq<StoredRow>) -> Seq<StoredRow> {
    rows.filter(|row: StoredRow| is_openmls_table(row.table))
}

/// The rows of other tables.
pub open spec fn other_rows(rows: Seq<StoredRow>) -> Seq<StoredRow> {
    rows.filter(|row: StoredRow| !is_openmls_table(row.table))
}

/// Every table looked up under the raw bytes of the group id.
pub open spec fn raw_keys(id: Seq<u8>) -> spec_fn(Seq<char>) -> Seq<u8> {
    |table: Seq<char>| id
}

/// Every table looked up under the encoding that its rows are kept under.
pub open spec fn own_keys(id: Seq<u8>) -> spec_fn(Seq<char>) -> Seq<u8> {
    |table: Seq<char>| own_key(table, id)
}

/// Conditions that agree on every row filter alike.
proof fn lemma_filter_alike(
    rows: Seq<StoredRow>,
    p: spec_fn(StoredRow) -> bool,
    q: spec_fn(StoredRow) -> bool,
)
    requires
        forall|i: int| 0 <= i < rows.len() ==> p(#[trigger] rows[i]) == q(rows[i]),
    ensures
        rows.filter(p) == rows.filter(q),
    decreases rows.len(),
{
    reveal(Seq::filter);
    if rows.len() > 0 {
        let rest = rows.drop_last();
        assert forall|i: int| 0 <= i < rest.len() implies p(#[trigger] rest[i]) == q(rest[i]) by {
            assert(rest[i] == rows[i]);
        }
        lemma_filter_alike(rest, p, q);
        assert(p(rows.last()) == q(rows.last())) by {
            assert(rows.last() == rows[rows.len() - 1]);
        }
    }
}

/// A condition that holds of every row keeps them all.
proof fn lemma_filter_all(rows: Seq<StoredRow>, p: spec_fn(StoredRow) -> bool)
    requires
        forall|i: int| 0 <= i < rows.len() ==> p(#[trigger] rows[i]),
    ensures
        rows.filter(p) == rows,
    decreases rows.len(),
{
    reveal(Seq::filter);
    if rows.len() > 0 {
        let rest = rows.drop_last();
        assert forall|i: int| 0 <= i < rest.len() implies p(#[trigger] rest[i]) by {
            assert(rest[i] == rows[i]);
        }
        lemma_filter_all(rest, p);
        assert(rows.last() == rows[rows.len() - 1]);
        assert(rows =~= rest.push(rows.last()));
    } else {
        assert(rows.filter(p) =~= rows);
    }
}

/// A condition that holds of no row keeps none.
proof fn lemma_filter_none(rows: Seq<StoredRow>, p: spec_fn(StoredRow) -> bool)
    requires
        forall|i: int| 0 <= i < rows.len() ==> !p(#[trigger] rows[i]),
    ensures
        rows.filter(p) == Seq::<StoredRow>::empty(),
    decreases rows.len(),
{
    reveal(Seq::filter);
    if rows.len() > 0 {
        let rest = rows.drop_last();
        assert forall|i: int| 0 <= i < rest.len() implies !p(#[trigger] rest[i]) by {
            assert(rest[i] == rows[i]);
        }
        lemma_filter_none(rest, p);
        assert(rows.last() == rows[rows.len() - 1]);
    }
}

/// Two filters keep what both conditions keep.
proof fn lemma_filter_twice(
    rows: Seq<StoredRow>,
    p: spec_fn(StoredRow) -> bool,
    q: spec_fn(StoredRow) -> bool,
)
    ensures
        rows.filter(p).filter(q) == rows.filter(|row: StoredRow| p(row) && q(row)),
    decreases rows.len(),
{
    reveal(Seq::filter);
    if rows.len() > 0 {
        lemma_filter_twice(rows.drop_last(), p, q);
        if p(rows.last()) {
            assert(rows.filter(p).drop_last() =~= rows.drop_last().filter(p));
        }
    }
}

/// Filtering two lists, one behind the other, filters each.
proof fn lemma_filter_concat(
    a: Seq<StoredRow>,
    b: Seq<StoredRow>,
    p: spec_fn(StoredRow) -> bool,
)
    ensures
        (a + b).filter(p) == a.filter(p) + b.filter(p),
    decreases b.len(),
{
    reveal(Seq::filter);
    if b.len() == 0 {
        assert(a + b =~= a);
        assert(a.filter(p) + b.filter(p) =~= a.filter(p));
    } else {
        lemma_filter_concat(a, b.drop_last(), p);
        assert((a + b).drop_last() =~= a + b.drop_last());
        assert((a + b).filter(p) =~= a.filter(p) + b.filter(p));
    }
}

/// No table is both an OpenMLS table and one of MDK's own.
pub proof fn law_tables_apart(table: Seq<char>)
    ensures
        !(is_openmls_table(table) && is_mdk_table(table)),
{
    reveal_strlit("openmls_group_data");
    reveal_strlit("openmls_proposals");
    reveal_strlit("openmls_own_leaf_nodes");
    reveal_strlit("openmls_epoch_key_pairs");
    reveal_strlit("groups");
    reveal_strlit("group_relays");
    reveal_strlit("group_exporter_secrets");
    if is_openmls_table(table) {
        assert(table[0] == 'o');
    }
    if is_mdk_table(table) {
        assert(table[0] == 'g');
    }
}

/// A lookup of the raw bytes finds nothing in an OpenMLS table whose rows are
/// kept under the JSON key of the same id.
pub proof fn law_raw_lookup_misses_openmls_rows(
    id: Seq<u8>,
    rows: Seq<StoredRow>,
    table: Seq<char>,
)
    requires
        is_openmls_table(table),
        forall|i: int|
            0 <= i < rows.len() && (#[trigger] rows[i]).table == table ==> rows[i].group_key
                == key::json_key(id),
    ensures
        rows_under(rows, table, id) == 0,
{
    key::law_encodings_differ(id);
    lemma_filter_none(rows, |row: StoredRow| kept_under(row, table, id));
}

/// A lookup under a table's own key finds every row that the group has there.
pub proof fn law_own_key_lookup_finds_rows(id: Seq<u8>, rows: Seq<StoredRow>, table: Seq<char>)
    requires
        are_rows_of(rows, id),
    ensures
        rows_under(rows, table, own_key(table, id)) == rows.filter(
            |row: StoredRow| row.table == table,
        ).len(),
{
    let key = own_key(table, id);
    let p = |row: StoredRow| kept_under(row, table, key);
    let q = |row: StoredRow| row.table == table;
    assert forall|i: int| 0 <= i < rows.len() implies p(#[trigger] rows[i]) == q(rows[i]) by {
        assert(is_row_of(rows[i], id));
    }
    lemma_filter_alike(rows, p, q);
}

/// A snapshot saves of each table what a lookup of that table alone finds.
pub proof fn law_saved_rows_by_table(
    rows: Seq<StoredRow>,
    keys: spec_fn(Seq<char>) -> Seq<u8>,
    table: Seq<char>,
)
    ensures
        saved(rows, keys).filter(|row: StoredRow| row.table == table).len() == rows_under(
            rows,
            table,
            keys(table),
        ),
{
    let p = |row: StoredRow| looked_up(row, keys);
    let q = |row: StoredRow| row.table == table;
    let key = keys(table);
    let both = |row: StoredRow| p(row) && q(row);
    lemma_filter_twice(rows, p, q);
    lemma_filter_alike(rows, both, |row: StoredRow| kept_under(row, table, key));
}

/// A snapshot under the raw bytes never saves an OpenMLS row of the group,
/// whatever other rows, of this group or of others, the database holds.
pub proof fn law_raw_snapshot_misses_openmls_row(
    id: Seq<u8>,
    rows: Seq<StoredRow>,
    row: StoredRow,
)
    requires
        is_openmls_table(row.table),
        is_row_of(row, id),
    ensures
        !saved(rows, raw_keys(id)).contains(row),
{
    let p = |row: StoredRow| looked_up(row, raw_keys(id));
    key::law_encodings_differ(id);
    if rows.filter(p).contains(row) {
        rows.lemma_filter_pred(p, rows.filter(p).index_of(row));
    }
}

/// A snapshot under the raw bytes saves the group's rows of tables other than
/// the OpenMLS tables, all of them, and nothing else.
pub proof fn law_raw_snapshot_saves_other_rows_only(id: Seq<u8>, rows: Seq<StoredRow>)
    requires
        are_rows_of(rows, id),
    ensures
        saved(rows, raw_keys(id)) == other_rows(rows),
        openmls_rows(saved(rows, raw_keys(id))).len() == 0,
{
    let p = |row: StoredRow| looked_up(row, raw_keys(id));
    let q = |row: StoredRow| !is_openmls_table(row.table);
    let openmls = |row: StoredRow| is_openmls_table(row.table);
    key::law_encodings_differ(id);
    assert forall|i: int| 0 <= i < rows.len() implies p(#[trigger] rows[i]) == q(rows[i]) by {
        assert(is_row_of(rows[i], id));
    }
    lemma_filter_alike(rows, p, q);
    lemma_filter_twice(rows, q, openmls);
    lemma_filter_none(rows, |row: StoredRow| q(row) && openmls(row));
}

/// Where a group has rows in the OpenMLS tables and in MDK's own alone, a snapshot
/// under the raw bytes holds rows of MDK's own tables alone.
pub proof fn law_raw_snapshot_holds_mdk_tables_only(
    id: Seq<u8>,
    rows: Seq<StoredRow>,
    row: StoredRow,
)
    requires
        are_rows_of(rows, id),
        forall|i: int|
            0 <= i < rows.len() ==> is_openmls_table((#[trigger] rows[i]).table) || is_mdk_table(
                rows[i].table,
            ),
    ensures
        saved(rows, raw_keys(id)).contains(row) <==> rows.contains(row) && is_mdk_table(row.table),
{
    let q = |row: StoredRow| !is_openmls_table(row.table);
    law_raw_snapshot_saves_other_rows_only(id, rows);
    law_tables_apart(row.table);
    if rows.filter(q).contains(row) {
        rows.lemma_filter_pred(q, rows.filter(q).index_of(row));
        rows.lemma_filter_contains_rev(q, row);
    }
    if rows.contains(row) && is_mdk_table(row.table) {
        rows.lemma_filter_contains(q, rows.index_of(row));
    }
}

/// A snapshot of a group under the key of each table saves every row.
pub proof fn law_own_key_snapshot_saves_all(id: Seq<u8>, rows: Seq<StoredRow>)
    requires
        are_rows_of(rows, id),
    ensures
        saved(rows, own_keys(id)) == rows,
{
    lemma_filter_all(rows, |row: StoredRow| looked_up(row, own_keys(id)));
}

/// A restore right after the snapshot, under the same keys, leaves the rows as
/// they are, whatever those keys are.
pub proof fn law_restore_under_snapshot_keys(
    rows: Seq<StoredRow>,
    keys: spec_fn(Seq<char>) -> Seq<u8>,
)
    ensures
        restored(rows, saved(rows, keys), keys).to_multiset() == rows.to_multiset(),
    decreases rows.len(),
{
    broadcast use vstd::seq_lib::group_to_multiset_ensures;

    reveal(Seq::filter);
    let p = |row: StoredRow| looked_up(row, keys);
    let not_p = |row: StoredRow| !looked_up(row, keys);
    vstd::seq_lib::lemma_multiset_commutative(rows.filter(not_p), rows.filter(p));
    if rows.len() == 0 {
        assert(rows.filter(not_p) + rows.filter(p) =~= rows);
    } else {
        let rest = rows.drop_last();
        law_restore_under_snapshot_keys(rest, keys);
        vstd::seq_lib::lemma_multiset_commutative(rest.filter(not_p), rest.filter(p));
        assert(rows =~= rest.push(rows.last()));
        assert(restored(rows, saved(rows, keys), keys).to_multiset() =~= rows.to_multiset());
    }
}

/// A restore under the key of each table, from a snapshot that was taken so, puts
/// a group back to its rows at the snapshot, whatever it holds by then.
pub proof fn law_own_key_restore_rolls_back(
    id: Seq<u8>,
    before: Seq<StoredRow>,
    later: Seq<StoredRow>,
)
    requires
        are_rows_of(before, id),
        are_rows_of(later, id),
    ensures
        restored(later, saved(before, own_keys(id)), own_keys(id)) == before,
{
    law_own_key_snapshot_saves_all(id, before);
    let p = |row: StoredRow| !looked_up(row, own_keys(id));
    lemma_filter_none(later, p);
    assert(later.filter(p) + before =~= before);
}

/// A restore from a snapshot under the raw bytes that deletes each table under
/// its own key leaves the group without any OpenMLS row.
pub proof fn law_raw_snapshot_restores_no_openmls_row(
    id: Seq<u8>,
    before: Seq<StoredRow>,
    later: Seq<StoredRow>,
)
    requires
        are_rows_of(before, id),
        are_rows_of(later, id),
    ensures
        restored(later, saved(before, raw_keys(id)), own_keys(id)) == other_rows(before),
        openmls_rows(restored(later, saved(before, raw_keys(id)), own_keys(id))).len() == 0,
{
    law_raw_snapshot_saves_other_rows_only(id, before);
    let p = |row: StoredRow| !looked_up(row, own_keys(id));
    lemma_filter_none(later, p);
    assert(later.filter(p) + other_rows(before) =~= other_rows(before));
}

/// A restore that also deletes under the raw bytes puts the other tables back to
/// the snapshot, but keeps the OpenMLS rows that the group has by then.
pub proof fn law_raw_restore_keeps_later_openmls_rows(
    id: Seq<u8>,
    before: Seq<StoredRow>,
    later: Seq<StoredRow>,
)
    requires
        are_rows_of(before, id),
        are_rows_of(later, id),
    ensures
        restored(later, saved(before, raw_keys(id)), raw_keys(id)) == openmls_rows(later)
            + other_rows(before),
        openmls_rows(restored(later, saved(before, raw_keys(id)), raw_keys(id))) == openmls_rows(
            later,
        ),
{
    law_raw_snapshot_saves_other_rows_only(id, before);
    key::law_encodings_differ(id);
    let p = |row: StoredRow| !looked_up(row, raw_keys(id));
    let openmls = |row: StoredRow| is_openmls_table(row.table);
    assert forall|i: int| 0 <= i < later.len() implies p(#[trigger] later[i]) == openmls(
        later[i],
    ) by {
        assert(is_row_of(later[i], id));
    }
    lemma_filter_alike(later, p, openmls);
    lemma_filter_concat(openmls_rows(later), other_rows(before), openmls);
    lemma_filter_twice(later, openmls, openmls);
    lemma_filter_alike(later, |row: StoredRow| openmls(row) && openmls(row), openmls);
    assert(openmls_rows(later) + Seq::<StoredRow>::empty() =~= openmls_rows(later));
    assert(openmls_rows(other_rows(before)) =~= Seq::<StoredRow>::empty());
}

} // verus!
