//! What is asked of a database after a snapshot, and what the answers mean.

use crate::key;
use crate::seed;
use crate::seed::Table;
use crate::store;
use crate::store::StoredRow;
use vstd::prelude::*;
use vstd::slice::slice_to_vec;

verus! {

/// Counts the rows that the snapshots of one group hold of each table.
pub const SNAPSHOT_TABLES_SQL: &'static str = "SELECT table_name, COUNT(*) FROM group_state_snapshots
             WHERE group_id = ?1 GROUP BY table_name ORDER BY table_name";

/// Counts the rows that `openmls_group_data` keeps under one key.
pub const GROUP_DATA_COUNT_SQL: &'static str =
    "SELECT COUNT(*) FROM openmls_group_data WHERE group_id = ?";

/// A query with the one key that is bound to it.
#[derive(Debug)]
pub struct Query {
    pub sql: &'static str,
    pub key: Vec<u8>,
}

impl Query {
    /// Whether this is the query for the tables that the snapshots of the group
    /// with these raw bytes hold rows of.
    pub open spec fn asks_snapshot_tables(self, raw: Seq<u8>) -> bool {
        self.sql@ == SNAPSHOT_TABLES_SQL@ && self.key@ == raw
    }
}

/// The query for the tables that a group's snapshots hold rows of. A snapshot is
/// itself kept under the raw bytes of the group id.
pub fn snapshot_tables_query(raw_bytes: &[u8]) -> (r: Query)
    ensures
        r.asks_snapshot_tables(raw_bytes@),
        r.sql@ == SNAPSHOT_TABLES_SQL@,
        r.key@ == raw_bytes@,
{
    Query { sql: SNAPSHOT_TABLES_SQL, key: slice_to_vec(raw_bytes) }
}

/// The query for the number of rows of `openmls_group_data` under a key.
pub fn group_data_count_query(key: &[u8]) -> (r: Query)
    ensures
        r.sql@ == GROUP_DATA_COUNT_SQL@,
        r.key@ == key@,
{
    Query { sql: GROUP_DATA_COUNT_SQL, key: slice_to_vec(key) }
}

/// The rows of an answer that could be read, in order.
pub open spec fn tables_read<E>(rows: Seq<Result<(String, i64), E>>) -> Seq<(String, i64)> {
    rows.filter_map(|row: Result<(String, i64), E>| row.ok())
}

/// The tables captured by a snapshot, each with its number of rows, out of what
/// the database answered row by row: the rows that could be read, in order.
#[verifier::loop_isolation(false)]
pub fn get_snapshot_tables<E>(rows: Vec<Result<(String, i64), E>>) -> (r: Vec<(String, i64)>)
    ensures
        r@ == tables_read(rows@),
{
    let ghost f = |row: Result<(String, i64), E>| row.ok();
    let ghost all = rows@;
    let mut r: Vec<(String, i64)> = Vec::new();
    for row in it: rows
        invariant
            it.seq() == all,
            r@ == all.take(it.index() as int).filter_map(f),
    {
        proof {
            assert(all.take(it.index() + 1).drop_last() =~= all.take(it.index() as int));
        }
        match row {
            Ok(table) => r.push(table),
            Err(_) => {},
        }
    }
    assert(all.take(all.len() as int) =~= all);
    r
}

/// Whether a table is among those captured.
pub open spec fn captured(results: Seq<(String, i64)>, table: Table) -> bool {
    exists|i: int| 0 <= i < results.len() && (#[trigger] results[i]).0@ == table.spec_name()
}

/// Whether some OpenMLS table is among those captured.
pub open spec fn captured_openmls(results: Seq<(String, i64)>) -> bool {
    exists|table: Table| table.is_openmls() && #[trigger] captured(results, table)
}

/// Tells whether a table is among those captured.
pub fn is_captured(results: &[(String, i64)], table: Table) -> (r: bool)
    ensures
        r == captured(results@, table),
        r <==> exists|i: int|
            0 <= i < results@.len() && (#[trigger] results@[i]).0@ == table.spec_name(),
{
    let name = table.name().to_owned();
    for i in 0..results.len()
        invariant
            name@ == table.spec_name(),
            forall|j: int| 0 <= j < i ==> (#[trigger] results@[j]).0@ != name@,
    {
        if results[i].0 == name {
            return true;
        }
    }
    false
}

/// What a snapshot of the seeded group shows.
#[derive(Clone, Copy, Debug, PartialEq, Eq, Structural)]
pub enum Verdict {
    /// MDK's own table was captured, and no OpenMLS table.
    Confirmed,
    /// Some OpenMLS table was captured.
    Fixed,
    /// Neither MDK's own table nor an OpenMLS table was captured.
    Inconclusive,
}

/// The verdict on the captured tables.
pub open spec fn verdict_of(results: Seq<(String, i64)>) -> Verdict {
    if captured_openmls(results) {
        Verdict::Fixed
    } else if captured(results, Table::Groups) {
        Verdict::Confirmed
    } else {
        Verdict::Inconclusive
    }
}

impl Verdict {
    /// The exit code of a run that ends with this verdict.
    pub open spec fn spec_exit_code(self) -> int {
        if self is Confirmed {
            1
        } else {
            0
        }
    }

    /// The exit code of a run that ends with this verdict.
    pub fn exit_code(&self) -> (r: i32)
        ensures
            r == self.spec_exit_code(),
    {
        match self {
            Verdict::Confirmed => 1,
            Verdict::Fixed => 0,
            Verdict::Inconclusive => 0,
        }
    }
}

/// Judges the captured tables.
pub fn judge(results: &[(String, i64)]) -> (r: Verdict)
    ensures
        r == verdict_of(results@),
{
    let has_any_openmls = is_captured(results, Table::GroupData)
        || is_captured(results, Table::EpochKeyPairs)
        || is_captured(results, Table::OwnLeafNodes);
    if !has_any_openmls && is_captured(results, Table::Groups) {
        Verdict::Confirmed
    } else if has_any_openmls {
        Verdict::Fixed
    } else {
        Verdict::Inconclusive
    }
}

/// The count query looks `openmls_group_data` up by the very column that the seed
/// writes the group's key to.
pub proof fn law_count_query_goes_by_the_key_column()
    ensures
        GROUP_DATA_COUNT_SQL@ == "SELECT COUNT(*) FROM "@ + Table::GroupData.spec_name()
            + " WHERE "@ + Table::GroupData.spec_key_name() + " = ?"@,
{
    reveal_strlit("SELECT COUNT(*) FROM openmls_group_data WHERE group_id = ?");
    reveal_strlit("SELECT COUNT(*) FROM ");
    reveal_strlit("openmls_group_data");
    reveal_strlit(" WHERE ");
    reveal_strlit("group_id");
    reveal_strlit(" = ?");
    assert(GROUP_DATA_COUNT_SQL@ =~= "SELECT COUNT(*) FROM "@ + "openmls_group_data"@ + " WHERE "@
        + "group_id"@ + " = ?"@);
}

/// Whether two rows of an answer read alike: neither can be read, or both hold
/// the same table and count.
pub open spec fn reads_alike<E>(a: Result<(String, i64), E>, b: Result<(String, i64), E>) -> bool {
    match (a, b) {
        (Ok(x), Ok(y)) => x.0@ == y.0@ && x.1 == y.1,
        (Err(_), Err(_)) => true,
        _ => false,
    }
}

/// Answers that read alike, row by row, give equal tables, whatever is told of
/// the rows that could not be read.
pub proof fn law_alike_answers_give_equal_tables<E>(
    a: Seq<Result<(String, i64), E>>,
    b: Seq<Result<(String, i64), E>>,
)
    requires
        a.len() == b.len(),
        forall|i: int| 0 <= i < a.len() ==> reads_alike(#[trigger] a[i], b[i]),
    ensures
        tables_read(a).len() == tables_read(b).len(),
        forall|i: int|
            0 <= i < tables_read(a).len() ==> (#[trigger] tables_read(a)[i]).0@ == tables_read(
                b,
            )[i].0@ && tables_read(a)[i].1 == tables_read(b)[i].1,
    decreases a.len(),
{
    if a.len() > 0 {
        let rest_a = a.drop_last();
        let rest_b = b.drop_last();
        assert forall|i: int| 0 <= i < rest_a.len() implies reads_alike(
            #[trigger] rest_a[i],
            rest_b[i],
        ) by {
            assert(reads_alike(a[i], b[i]));
        }
        law_alike_answers_give_equal_tables(rest_a, rest_b);
        assert(reads_alike(a[a.len() - 1], b[b.len() - 1]));
    }
}

/// Where every row of an answer can be read, the tables are the rows themselves.
pub proof fn law_readable_answer_is_kept_whole<E>(rows: Seq<Result<(String, i64), E>>)
    requires
        forall|i: int| 0 <= i < rows.len() ==> (#[trigger] rows[i]) is Ok,
    ensures
        tables_read(rows).len() == rows.len(),
        forall|i: int| 0 <= i < rows.len() ==> #[trigger] tables_read(rows)[i] == rows[i]->Ok_0,
    decreases rows.len(),
{
    if rows.len() > 0 {
        let rest = rows.drop_last();
        assert forall|i: int| 0 <= i < rest.len() implies (#[trigger] rest[i]) is Ok by {
            assert(rows[i] is Ok);
        }
        law_readable_answer_is_kept_whole(rest);
        assert(rows[rows.len() - 1] is Ok);
    }
}

/// Two reads of one group's captured tables from an unchanged database agree.
/// Reading is any function from the database, the statement and the key to an
/// answer: a query has no other input, and leaves the database as it is.
pub proof fn law_reads_of_unchanged_database_agree<D, E>(
    database: D,
    answer: spec_fn(D, Seq<char>, Seq<u8>) -> Seq<Result<(String, i64), E>>,
    raw: Seq<u8>,
    first: Query,
    second: Query,
)
    requires
        first.asks_snapshot_tables(raw),
        second.asks_snapshot_tables(raw),
    ensures
        tables_read(answer(database, first.sql@, first.key@)) == tables_read(
            answer(database, second.sql@, second.key@),
        ),
{
}

/// The mismatch is confirmed exactly where `groups` was captured and none of the
/// three OpenMLS tables was; it is fixed exactly where one of the three was.
pub proof fn law_verdict_by_table(results: Seq<(String, i64)>)
    ensures
        verdict_of(results) == Verdict::Fixed <==> {
            ||| captured(results, Table::GroupData)
            ||| captured(results, Table::EpochKeyPairs)
            ||| captured(results, Table::OwnLeafNodes)
        },
        verdict_of(results) == Verdict::Confirmed <==> {
            &&& captured(results, Table::Groups)
            &&& !captured(results, Table::GroupData)
            &&& !captured(results, Table::EpochKeyPairs)
            &&& !captured(results, Table::OwnLeafNodes)
        },
{
}

/// The verdict rests on which of the seeded tables were captured, and on nothing
/// else: not on the counts, the order, or other tables.
pub proof fn law_verdict_rests_on_captured_tables(a: Seq<(String, i64)>, b: Seq<(String, i64)>)
    requires
        forall|table: Table| captured(a, table) == captured(b, table),
    ensures
        verdict_of(a) == verdict_of(b),
{
    if captured_openmls(a) {
        let table = choose|table: Table| table.is_openmls() && captured(a, table);
        assert(captured(b, table));
    }
    if captured_openmls(b) {
        let table = choose|table: Table| table.is_openmls() && captured(b, table);
        assert(captured(a, table));
    }
}

/// A snapshot of a group under the raw bytes of its id, where `groups` has a row,
/// captures that table and no OpenMLS table, and so confirms the mismatch.
pub proof fn law_raw_lookup_confirms(
    id: Seq<u8>,
    rows: Seq<StoredRow>,
    results: Seq<(String, i64)>,
)
    requires
        store::are_rows_of(rows, id),
        store::rows_under(rows, Table::Groups.spec_name(), id) > 0,
        forall|table: Table|
            #[trigger] captured(results, table) <==> store::rows_under(
                rows,
                table.spec_name(),
                id,
            ) > 0,
    ensures
        captured(results, Table::Groups),
        !captured_openmls(results),
        verdict_of(results) == Verdict::Confirmed,
{
    assert forall|table: Table| table.is_openmls() implies !#[trigger] captured(results, table) by {
        seed::law_table_names(table, table);
        assert forall|i: int|
            0 <= i < rows.len() && (#[trigger] rows[i]).table
                == table.spec_name() implies rows[i].group_key == key::json_key(id) by {
            assert(store::is_row_of(rows[i], id));
        }
        store::law_raw_lookup_misses_openmls_rows(id, rows, table.spec_name());
    }
}

/// A snapshot of a group under the key of each table, where one of the three
/// OpenMLS tables has a row, captures that table and so counts as fixed.
pub proof fn law_own_key_lookup_is_fixed(
    id: Seq<u8>,
    rows: Seq<StoredRow>,
    results: Seq<(String, i64)>,
    table: Table,
)
    requires
        store::are_rows_of(rows, id),
        table.is_openmls(),
        rows.filter(|row: StoredRow| row.table == table.spec_name()).len() > 0,
        forall|t: Table|
            #[trigger] captured(results, t) <==> store::rows_under(
                rows,
                t.spec_name(),
                store::own_key(t.spec_name(), id),
            ) > 0,
    ensures
        captured(results, table),
        verdict_of(results) == Verdict::Fixed,
{
    store::law_own_key_lookup_finds_rows(id, rows, table.spec_name());
    assert(captured(results, table));
}

/// Of the seeded group, a snapshot under the raw bytes captures `groups` alone and
/// confirms the mismatch.
pub proof fn law_seeded_raw_lookup_confirms(id: Seq<u8>, results: Seq<(String, i64)>)
    requires
        forall|table: Table|
            #[trigger] captured(results, table) <==> store::rows_under(
                seed::seeded(id),
                table.spec_name(),
                id,
            ) > 0,
    ensures
        forall|table: Table| #[trigger] captured(results, table) <==> table == Table::Groups,
        verdict_of(results) == Verdict::Confirmed,
{
    seed::law_seeded_rows_are_of_group(id);
    seed::law_table_names(Table::Groups, Table::Groups);
    store::law_tables_apart(Table::Groups.spec_name());
    seed::law_seeded_row_found_under_own_key_only(id, Table::Groups);
    law_raw_lookup_confirms(id, seed::seeded(id), results);
}

/// Of the seeded group, a snapshot under the key of each table captures all four
/// tables and counts as fixed.
pub proof fn law_seeded_own_key_lookup_is_fixed(id: Seq<u8>, results: Seq<(String, i64)>)
    requires
        forall|table: Table|
            #[trigger] captured(results, table) <==> store::rows_under(
                seed::seeded(id),
                table.spec_name(),
                store::own_key(table.spec_name(), id),
            ) > 0,
    ensures
        forall|table: Table| captured(results, table),
        verdict_of(results) == Verdict::Fixed,
{
    assert forall|table: Table| captured(results, table) by {
        seed::law_seeded_row_found_under_own_key_only(id, table);
    }
    assert(captured(results, Table::GroupData));
}

/// The query for a group's captured tables is bound to the raw bytes of the id, all
/// of them, and two ids are asked for by one query only where they are the same.
pub proof fn law_snapshot_query_binds_raw_bytes(q: Query, raw: Seq<u8>, other: Seq<u8>)
    requires
        q.asks_snapshot_tables(raw),
    ensures
        q.key@ == raw,
        q.asks_snapshot_tables(other) ==> raw == other,
        q.sql@ == "SELECT table_name, COUNT(*) FROM group_state_snapshots
             WHERE group_id = ?1 GROUP BY table_name ORDER BY table_name"@,
{
}

/// An answer is read part by part: the readable rows of two parts, one behind the
/// other, are those of the whole. A row that can be read is kept as it is, and one
/// that cannot leaves nothing.
pub proof fn law_answer_is_read_part_by_part<E>(
    a: Seq<Result<(String, i64), E>>,
    b: Seq<Result<(String, i64), E>>,
)
    ensures
        tables_read(a + b) == tables_read(a) + tables_read(b),
        tables_read(Seq::<Result<(String, i64), E>>::empty()).len() == 0,
        a.len() == 1 && a[0] is Ok ==> tables_read(a) == seq![a[0]->Ok_0],
        a.len() == 1 && a[0] is Err ==> tables_read(a).len() == 0,
    decreases b.len(),
{
    if a.len() == 1 {
        assert(tables_read(a.drop_last()).len() == 0);
        if a[0] is Ok {
            assert(tables_read(a) =~= seq![a[0]->Ok_0]);
        }
    }
    if b.len() == 0 {
        assert(a + b =~= a);
        assert(tables_read(a) + tables_read(b) =~= tables_read(a));
    } else {
        let rest = b.drop_last();
        law_answer_is_read_part_by_part(a, rest);
        assert((a + b).drop_last() =~= a + rest);
        assert(tables_read(a + b) =~= tables_read(a) + tables_read(b));
    }
}

/// A table is captured where its name stands anywhere in the answer: in one part or
/// the other of it, and in a single row exactly where that row has the name.
pub proof fn law_captured_anywhere(
    a: Seq<(String, i64)>,
    b: Seq<(String, i64)>,
    row: (String, i64),
    table: Table,
)
    ensures
        captured(a + b, table) <==> captured(a, table) || captured(b, table),
        captured(seq![row], table) <==> row.0@ == table.spec_name(),
        !captured(Seq::empty(), table),
{
    let whole = a + b;
    if captured(a, table) {
        let i = choose|i: int| 0 <= i < a.len() && (#[trigger] a[i]).0@ == table.spec_name();
        assert(whole[i] == a[i]);
    }
    if captured(b, table) {
        let i = choose|i: int| 0 <= i < b.len() && (#[trigger] b[i]).0@ == table.spec_name();
        assert(whole[a.len() + i] == b[i]);
    }
    if captured(whole, table) {
        let i = choose|i: int|
            0 <= i < whole.len() && (#[trigger] whole[i]).0@ == table.spec_name();
        if i < a.len() {
            assert(a[i] == whole[i]);
        } else {
            assert(b[i - a.len()] == whole[i]);
        }
    }
    if row.0@ == table.spec_name() {
        assert(seq![row][0] == row);
    }
}

/// One row of an answer is enough: wherever it stands, the name of an OpenMLS table
/// makes the verdict `Fixed`, and that of `groups` rules `Inconclusive` out.
pub proof fn law_one_row_decides(results: Seq<(String, i64)>, i: int)
    requires
        0 <= i < results.len(),
    ensures
        results[i].0@ == "openmls_group_data"@ || results[i].0@ == "openmls_epoch_key_pairs"@
            || results[i].0@ == "openmls_own_leaf_nodes"@ ==> verdict_of(results)
            == Verdict::Fixed && verdict_of(results).spec_exit_code() == 0,
        results[i].0@ == "groups"@ ==> verdict_of(results) != Verdict::Inconclusive,
{
    law_verdict_by_table(results);
    assert(results[i].0@ == Table::GroupData.spec_name() ==> captured(results, Table::GroupData));
    assert(results[i].0@ == Table::EpochKeyPairs.spec_name() ==> captured(
        results,
        Table::EpochKeyPairs,
    ));
    assert(results[i].0@ == Table::OwnLeafNodes.spec_name() ==> captured(
        results,
        Table::OwnLeafNodes,
    ));
    assert(results[i].0@ == Table::Groups.spec_name() ==> captured(results, Table::Groups));
}

/// A verdict has a row behind it: `Fixed` the name of an OpenMLS table, `Confirmed`
/// that of `groups` and no OpenMLS table's.
pub proof fn law_verdict_has_a_row_behind_it(results: Seq<(String, i64)>)
    ensures
        verdict_of(results) == Verdict::Fixed ==> exists|i: int|
            0 <= i < results.len() && ((#[trigger] results[i]).0@ == "openmls_group_data"@
                || results[i].0@ == "openmls_epoch_key_pairs"@ || results[i].0@
                == "openmls_own_leaf_nodes"@),
        verdict_of(results) == Verdict::Confirmed ==> exists|i: int|
            0 <= i < results.len() && (#[trigger] results[i]).0@ == "groups"@,
        verdict_of(results).spec_exit_code() == 1 <==> verdict_of(results) == Verdict::Confirmed,
        verdict_of(results).spec_exit_code() == 0 <==> verdict_of(results) != Verdict::Confirmed,
{
    law_verdict_by_table(results);
}

/// A further row never takes a fix back: the verdict on a longer answer follows
/// from the verdict so far and the name in the new row.
pub proof fn law_further_row_updates_verdict(results: Seq<(String, i64)>, row: (String, i64))
    ensures
        verdict_of(results.push(row)) == (if verdict_of(results) == Verdict::Fixed || row.0@
            == "openmls_group_data"@ || row.0@ == "openmls_epoch_key_pairs"@ || row.0@
            == "openmls_own_leaf_nodes"@ {
            Verdict::Fixed
        } else if verdict_of(results) == Verdict::Confirmed || row.0@ == "groups"@ {
            Verdict::Confirmed
        } else {
            Verdict::Inconclusive
        }),
        verdict_of(Seq::empty()) == Verdict::Inconclusive,
{
    let none = Seq::<(String, i64)>::empty();
    law_verdict_by_table(results);
    law_verdict_by_table(results.push(row));
    law_verdict_by_table(none);
    assert(results.push(row) =~= results + seq![row]);
    law_captured_anywhere(results, seq![row], row, Table::GroupData);
    law_captured_anywhere(results, seq![row], row, Table::EpochKeyPairs);
    law_captured_anywhere(results, seq![row], row, Table::OwnLeafNodes);
    law_captured_anywhere(results, seq![row], row, Table::Groups);
}

} // verus!
