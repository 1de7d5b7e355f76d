//! The rows that a fresh database is seeded with: what MDK and the OpenMLS
//! storage provider leave behind for one group.

use crate::key;
use crate::store;
use crate::store::StoredRow;
use crate::text;
use vstd::prelude::*;
use vstd::slice::slice_to_vec;
use vstd::utf8::*;

verus! {

/// A table that the seed writes to.
#[derive(Clone, Copy, Debug, PartialEq, Eq, Structural)]
pub enum Table {
    /// `openmls_group_data`
    GroupData,
    /// `openmls_epoch_key_pairs`
    EpochKeyPairs,
    /// `openmls_own_leaf_nodes`
    OwnLeafNodes,
    /// `groups`
    Groups,
}

impl Table {
    /// The table's name in the database.
    pub open spec fn spec_name(self) -> Seq<char> {
        match self {
            Table::GroupData => "openmls_group_data"@,
            Table::EpochKeyPairs => "openmls_epoch_key_pairs"@,
            Table::OwnLeafNodes => "openmls_own_leaf_nodes"@,
            Table::Groups => "groups"@,
        }
    }

    /// Whether the table belongs to the OpenMLS storage provider.
    pub open spec fn is_openmls(self) -> bool {
        !(self is Groups)
    }

    /// The columns that an insert gives values for, in order.
    pub open spec fn spec_columns(self) -> Seq<Seq<char>> {
        match self {
            Table::GroupData => seq![
                "provider_version"@,
                "group_id"@,
                "data_type"@,
                "group_data"@,
            ],
            Table::EpochKeyPairs => seq![
                "provider_version"@,
                "group_id"@,
                "epoch_id"@,
                "leaf_index"@,
                "key_pairs"@,
            ],
            Table::OwnLeafNodes => seq!["provider_version"@, "group_id"@, "leaf_node"@],
            Table::Groups => seq![
                "mls_group_id"@,
                "nostr_group_id"@,
                "name"@,
                "description"@,
                "admin_pubkeys"@,
                "epoch"@,
                "state"@,
            ],
        }
    }

    /// The column that identifies the group.
    pub open spec fn spec_key_name(self) -> Seq<char> {
        if self.is_openmls() {
            "group_id"@
        } else {
            "mls_group_id"@
        }
    }

    /// The statement that inserts a row into the table: one numbered parameter for
    /// each column.
    pub open spec fn spec_insert_sql(self) -> Seq<char> {
        "INSERT INTO "@ + self.spec_name() + " ("@ + text::listed(self.spec_columns())
            + ")\n         VALUES ("@ + text::listed(parameters(self.spec_columns().len())) + ")"@
    }

    /// The place, among the values of [`Table::insert_sql`], of the column that
    /// identifies the group.
    pub open spec fn key_column(self) -> int {
        if self.is_openmls() {
            1
        } else {
            0
        }
    }

    /// The table's name in the database.
    pub fn name(&self) -> (r: &'static str)
        ensures
            r@ == self.spec_name(),
    {
        match self {
            Table::GroupData => "openmls_group_data",
            Table::EpochKeyPairs => "openmls_epoch_key_pairs",
            Table::OwnLeafNodes => "openmls_own_leaf_nodes",
            Table::Groups => "groups",
        }
    }

    /// The columns that an insert gives values for, in order.
    fn columns(&self) -> (r: Vec<&'static str>)
        ensures
            r@.map_values(|column: &str| column@) == self.spec_columns(),
    {
        let r: Vec<&'static str> = match self {
            Table::GroupData => vec!["provider_version", "group_id", "data_type", "group_data"],
            Table::EpochKeyPairs => vec![
                "provider_version",
                "group_id",
                "epoch_id",
                "leaf_index",
                "key_pairs",
            ],
            Table::OwnLeafNodes => vec!["provider_version", "group_id", "leaf_node"],
            Table::Groups => vec![
                "mls_group_id",
                "nostr_group_id",
                "name",
                "description",
                "admin_pubkeys",
                "epoch",
                "state",
            ],
        };
        assert(r@.map_values(|column: &str| column@) =~= self.spec_columns());
        r
    }

    /// The statement that inserts a row into the table.
    pub fn insert_sql(&self) -> (r: String)
        ensures
            r@ == self.spec_insert_sql(),
    {
        let columns = self.columns();
        proof {
            assert(columns@.map_values(|column: &str| column@).len() == columns@.len());
        }
        let mut r = "INSERT INTO ".to_owned();
        r.append(self.name());
        r.append(" (");
        r.append(text::listed_text(columns.as_slice()).as_str());
        r.append(")\n         VALUES (");
        r.append(parameters_text(columns.len()).as_str());
        r.append(")");
        r
    }
}

/// The first `n` numbered parameters of a statement: `?1`, `?2` and so on.
pub open spec fn parameters(n: nat) -> Seq<Seq<char>> {
    Seq::new(n, |i: int| "?"@ + text::decimal((i + 1) as nat))
}

/// Writes the first `n` numbered parameters, with a comma and a space between.
fn parameters_text(n: usize) -> (r: String)
    ensures
        r@ == text::listed(parameters(n as nat)),
{
    let mut r = String::new();
    for i in 0..n
        invariant
            r@ == text::listed(parameters(i as nat)),
    {
        if i > 0 {
            r.append(", ");
        }
        r.append("?");
        r.append(text::decimal_text(i as u64 + 1).as_str());
        proof {
            let next = parameters((i + 1) as nat);
            assert(next.drop_last() =~= parameters(i as nat));
            assert(r@ =~= text::listed(next));
        }
    }
    r
}

/// A value bound to a statement.
#[derive(Debug)]
pub enum SqlValue {
    Integer(i64),
    Text(String),
    Blob(Vec<u8>),
}

/// What an [`SqlValue`] holds.
#[verifier::ext_equal]
pub enum Cell {
    Integer(int),
    Text(Seq<char>),
    Blob(Seq<u8>),
}

impl View for SqlValue {
    type V = Cell;

    open spec fn view(&self) -> Cell {
        match self {
            SqlValue::Integer(n) => Cell::Integer(*n as int),
            SqlValue::Text(s) => Cell::Text(s@),
            SqlValue::Blob(b) => Cell::Blob(b@),
        }
    }
}

/// One row to insert: the table, and the values of its insert statement.
#[derive(Debug)]
pub struct Insert {
    pub table: Table,
    pub values: Vec<SqlValue>,
}

/// What an [`Insert`] holds.
#[verifier::ext_equal]
pub struct Row {
    pub table: Table,
    pub values: Seq<Cell>,
}

impl View for Insert {
    type V = Row;

    open spec fn view(&self) -> Row {
        Row { table: self.table, values: self.values@.map_values(|v: SqlValue| v@) }
    }
}

/// The text in UTF-8, as a blob.
pub open spec fn blob(s: Seq<char>) -> Cell {
    Cell::Blob(encode_utf8(s))
}

/// The seeded rows: one in each OpenMLS table under `json`, and one in MDK's
/// own table under `raw`.
pub open spec fn seed_rows(raw: Seq<u8>, json: Seq<u8>) -> Seq<Row> {
    seq![
        Row {
            table: Table::GroupData,
            values: seq![
                Cell::Integer(1),
                Cell::Blob(json),
                Cell::Text("group_state"@),
                blob("fake_crypto_state"@),
            ],
        },
        Row {
            table: Table::EpochKeyPairs,
            values: seq![
                Cell::Integer(1),
                Cell::Blob(json),
                Cell::Blob(json),
                Cell::Integer(0),
                blob("fake_epoch_keys"@),
            ],
        },
        Row {
            table: Table::OwnLeafNodes,
            values: seq![Cell::Integer(1), Cell::Blob(json), blob("fake_leaf_node"@)],
        },
        Row {
            table: Table::Groups,
            values: seq![
                Cell::Blob(raw),
                blob("nostr_group_id_placeholder"@),
                Cell::Text("Test Group"@),
                Cell::Text("Bug repro"@),
                Cell::Text("[]"@),
                Cell::Integer(5),
                Cell::Text("active"@),
            ],
        },
    ]
}

impl Row {
    /// The row as it is stored.
    pub open spec fn stored(self) -> StoredRow {
        StoredRow {
            table: self.table.spec_name(),
            group_key: self.values[self.table.key_column()]->Blob_0,
            values: self.values,
        }
    }
}

/// The seeded rows of a group, as they are stored.
pub open spec fn seeded(id: Seq<u8>) -> Seq<StoredRow> {
    seed_rows(id, key::json_key(id)).map_values(|row: Row| row.stored())
}

/// The rows to seed a database with, in the order in which they are inserted.
pub fn seed_test_data(raw_bytes: &[u8], json_key: &[u8]) -> (r: Vec<Insert>)
    ensures
        r@.map_values(|row: Insert| row@) == seed_rows(raw_bytes@, json_key@),
{
    let group_data = Insert {
        table: Table::GroupData,
        values: vec![
            SqlValue::Integer(1),
            SqlValue::Blob(slice_to_vec(json_key)),
            SqlValue::Text("group_state".to_owned()),
            SqlValue::Blob("fake_crypto_state".as_bytes_vec()),
        ],
    };
    let epoch_key_pairs = Insert {
        table: Table::EpochKeyPairs,
        values: vec![
            SqlValue::Integer(1),
            SqlValue::Blob(slice_to_vec(json_key)),
            SqlValue::Blob(slice_to_vec(json_key)),
            SqlValue::Integer(0),
            SqlValue::Blob("fake_epoch_keys".as_bytes_vec()),
        ],
    };
    let own_leaf_nodes = Insert {
        table: Table::OwnLeafNodes,
        values: vec![
            SqlValue::Integer(1),
            SqlValue::Blob(slice_to_vec(json_key)),
            SqlValue::Blob("fake_leaf_node".as_bytes_vec()),
        ],
    };
    let groups = Insert {
        table: Table::Groups,
        values: vec![
            SqlValue::Blob(slice_to_vec(raw_bytes)),
            SqlValue::Blob("nostr_group_id_placeholder".as_bytes_vec()),
            SqlValue::Text("Test Group".to_owned()),
            SqlValue::Text("Bug repro".to_owned()),
            SqlValue::Text("[]".to_owned()),
            SqlValue::Integer(5),
            SqlValue::Text("active".to_owned()),
        ],
    };
    let r = vec![group_data, epoch_key_pairs, own_leaf_nodes, groups];
    proof {
        let rows = seed_rows(raw_bytes@, json_key@);
        assert(r@[0]@.values =~= rows[0].values);
        assert(r@[1]@.values =~= rows[1].values);
        assert(r@[2]@.values =~= rows[2].values);
        assert(r@[3]@.values =~= rows[3].values);
        assert(r@.map_values(|row: Insert| row@) =~= rows);
    }
    r
}

/// The tables of the seed have different names, and `is_openmls` is what their
/// names tell.
pub proof fn law_table_names(a: Table, b: Table)
    ensures
        a.spec_name() == b.spec_name() ==> a == b,
        a.is_openmls() == store::is_openmls_table(a.spec_name()),
        !a.is_openmls() == store::is_mdk_table(a.spec_name()),
{
    reveal_strlit("openmls_group_data");
    reveal_strlit("openmls_own_leaf_nodes");
    reveal_strlit("openmls_epoch_key_pairs");
    reveal_strlit("groups");
    assert("openmls_group_data"@.len() == 18);
    assert("openmls_own_leaf_nodes"@.len() == 22);
    assert("openmls_epoch_key_pairs"@.len() == 23);
    assert("groups"@.len() == 6);
    store::law_tables_apart(a.spec_name());
}

/// [`Table::key_column`] is the place of the column that identifies the group, and
/// of no other, among the columns that the insert statement names.
pub proof fn law_key_column_is_the_group_column(table: Table, i: int)
    requires
        0 <= i < table.spec_columns().len(),
    ensures
        0 <= table.key_column() < table.spec_columns().len(),
        table.spec_columns()[i] == table.spec_key_name() <==> i == table.key_column(),
{
    reveal_strlit("provider_version");
    reveal_strlit("group_id");
    reveal_strlit("data_type");
    reveal_strlit("group_data");
    reveal_strlit("epoch_id");
    reveal_strlit("leaf_index");
    reveal_strlit("key_pairs");
    reveal_strlit("leaf_node");
    reveal_strlit("mls_group_id");
    reveal_strlit("nostr_group_id");
    reveal_strlit("name");
    reveal_strlit("description");
    reveal_strlit("admin_pubkeys");
    reveal_strlit("epoch");
    reveal_strlit("state");
    assert("epoch_id"@[0] == 'e' && "group_id"@[0] == 'g');
    assert("provider_version"@.len() == 16 && "group_id"@.len() == 8 && "data_type"@.len() == 9);
    assert("group_data"@.len() == 10 && "leaf_index"@.len() == 10 && "key_pairs"@.len() == 9);
    assert("leaf_node"@.len() == 9 && "mls_group_id"@.len() == 12 && "name"@.len() == 4);
    assert("nostr_group_id"@.len() == 14 && "description"@.len() == 11 && "epoch"@.len() == 5);
    assert("admin_pubkeys"@.len() == 13 && "state"@.len() == 5);
}

/// Every seeded row has one value for each column of its insert statement.
pub proof fn law_seed_fills_every_column(raw: Seq<u8>, json: Seq<u8>, i: int)
    requires
        0 <= i < seed_rows(raw, json).len(),
    ensures
        seed_rows(raw, json)[i].values.len() == seed_rows(raw, json)[i].table.spec_columns().len(),
{
}

/// The insert statement of a table names the table and then its columns up to the
/// one that identifies the group, which another follows.
pub proof fn law_insert_sql_names_its_key_column(table: Table)
    ensures
        ("INSERT INTO "@ + table.spec_name() + (if table.is_openmls() {
            " (provider_version, group_id, "@
        } else {
            " (mls_group_id, "@
        })).is_prefix_of(table.spec_insert_sql()),
{
    reveal_strlit(" (");
    reveal_strlit(", ");
    reveal_strlit("provider_version");
    reveal_strlit("group_id");
    reveal_strlit("mls_group_id");
    reveal_strlit(" (provider_version, group_id, ");
    reveal_strlit(" (mls_group_id, ");
    let columns = table.spec_columns();
    let front = if table.is_openmls() {
        "provider_version"@ + ", "@ + "group_id"@ + ", "@
    } else {
        "mls_group_id"@ + ", "@
    };
    if table.is_openmls() {
        assert(" (provider_version, group_id, "@ =~= " ("@ + front);
    } else {
        assert(" (mls_group_id, "@ =~= " ("@ + front);
    }
    lemma_listed_front(columns, if table.is_openmls() {
        2
    } else {
        1
    });
    reveal_with_fuel(text::listed, 3);
    assert(columns.take(1) =~= seq![columns[0]]);
    if table.is_openmls() {
        assert(columns.take(2).drop_last() =~= columns.take(1));
        assert(text::listed(columns.take(2)) + ", "@ =~= front);
    } else {
        assert(text::listed(columns.take(1)) + ", "@ =~= front);
    }
    let head = "INSERT INTO "@ + table.spec_name() + " ("@;
    let sql = table.spec_insert_sql();
    let list = text::listed(columns);
    assert(sql.subrange(0, (head + list).len() as int) =~= head + list);
    assert((head + list).subrange(0, (head + front).len() as int) =~= head + front);
    assert(sql.subrange(0, (head + front).len() as int) =~= head + front);
    assert(head + front =~= "INSERT INTO "@ + table.spec_name() + (" ("@ + front));
}

/// A list begins with the list of its first `n` parts and a comma, where others
/// follow.
proof fn lemma_listed_front(parts: Seq<Seq<char>>, n: int)
    requires
        0 < n < parts.len(),
    ensures
        (text::listed(parts.take(n)) + ", "@).is_prefix_of(text::listed(parts)),
    decreases parts.len(),
{
    let front = text::listed(parts.take(n)) + ", "@;
    let rest = parts.drop_last();
    if n == rest.len() {
        assert(parts.take(n) =~= rest);
        assert(text::listed(parts).subrange(0, front.len() as int) =~= front);
    } else {
        lemma_listed_front(rest, n);
        assert(rest.take(n) =~= parts.take(n));
        let inner = text::listed(rest);
        assert(text::listed(parts).subrange(0, front.len() as int) =~= inner.subrange(
            0,
            front.len() as int,
        ));
    }
}

/// The tables' names, and that the OpenMLS tables are those whose names begin with
/// `openmls_`.
pub proof fn law_table_names_tell_openmls(table: Table)
    ensures
        table.is_openmls() <==> "openmls_"@.is_prefix_of(table.spec_name()),
        Table::GroupData.spec_name() == "openmls_group_data"@,
        Table::EpochKeyPairs.spec_name() == "openmls_epoch_key_pairs"@,
        Table::OwnLeafNodes.spec_name() == "openmls_own_leaf_nodes"@,
        Table::Groups.spec_name() == "groups"@,
{
    reveal_strlit("openmls_");
    reveal_strlit("openmls_group_data");
    reveal_strlit("openmls_own_leaf_nodes");
    reveal_strlit("openmls_epoch_key_pairs");
    reveal_strlit("groups");
    if table.is_openmls() {
        assert(table.spec_name().subrange(0, 8) =~= "openmls_"@);
    }
}

/// One where `b` holds, else none.
spec fn one_if(b: bool) -> nat {
    if b {
        1
    } else {
        0
    }
}

/// Four items are filtered one by one.
proof fn lemma_filter_four<A>(s: Seq<A>, p: spec_fn(A) -> bool)
    requires
        s.len() == 4,
    ensures
        s.filter(p).len() == one_if(p(s[0])) + one_if(p(s[1])) + one_if(p(s[2])) + one_if(p(s[3])),
{
    reveal(Seq::filter);
    let three = s.drop_last();
    let two = three.drop_last();
    let one = two.drop_last();
    assert(one.drop_last().filter(p).len() == 0);
    assert(one.filter(p).len() == one_if(p(s[0])));
    assert(two.filter(p).len() == one.filter(p).len() + one_if(p(s[1])));
    assert(three.filter(p).len() == two.filter(p).len() + one_if(p(s[2])));
}

/// The seed is four rows, one in each table, three of which are OpenMLS tables.
pub proof fn law_seed_covers_each_table_once(raw: Seq<u8>, json: Seq<u8>, table: Table)
    ensures
        seed_rows(raw, json).len() == 4,
        seed_rows(raw, json).filter(|row: Row| row.table == table).len() == 1,
        seed_rows(raw, json).filter(|row: Row| row.table.is_openmls()).len() == 3,
{
    let rows = seed_rows(raw, json);
    lemma_filter_four(rows, |row: Row| row.table == table);
    lemma_filter_four(rows, |row: Row| row.table.is_openmls());
}

/// Every seeded row is kept under the key of its table: the JSON key in an OpenMLS
/// table, the raw bytes in MDK's own.
pub proof fn law_seeded_rows_are_of_group(id: Seq<u8>)
    ensures
        store::are_rows_of(seeded(id), id),
{
    let rows = seed_rows(id, key::json_key(id));
    assert forall|i: int| 0 <= i < seeded(id).len() implies store::is_row_of(
        #[trigger] seeded(id)[i],
        id,
    ) by {
        assert(seeded(id)[i] == rows[i].stored());
        law_table_names(rows[i].table, rows[i].table);
    }
}

/// A lookup finds one seeded row of each table under the table's own key, and
/// none under the group's other encoding: the raw bytes find nothing in an OpenMLS
/// table, the JSON key nothing in MDK's own.
pub proof fn law_seeded_row_found_under_own_key_only(id: Seq<u8>, table: Table)
    ensures
        store::rows_under(
            seeded(id),
            table.spec_name(),
            store::own_key(table.spec_name(), id),
        ) == 1,
        store::rows_under(
            seeded(id),
            table.spec_name(),
            if table.is_openmls() {
                id
            } else {
                key::json_key(id)
            },
        ) == 0,
{
    let rows = seed_rows(id, key::json_key(id));
    let name = table.spec_name();
    let own = store::own_key(name, id);
    let other = if table.is_openmls() {
        id
    } else {
        key::json_key(id)
    };
    key::law_encodings_differ(id);
    law_seeded_rows_are_of_group(id);
    assert forall|i: int| 0 <= i < 4 implies #[trigger] seeded(id)[i] == rows[i].stored()
        && store::is_row_of(seeded(id)[i], id) && (seeded(id)[i].table == name <==> rows[i].table
        == table) by {
        law_table_names(rows[i].table, table);
    }
    law_table_names(table, table);
    lemma_filter_four(seeded(id), |row: StoredRow| store::kept_under(row, name, own));
    lemma_filter_four(seeded(id), |row: StoredRow| store::kept_under(row, name, other));
}

/// Whether a row goes into the table of this name and gives the column of this name
/// this value.
pub open spec fn gives(row: Row, table: Seq<char>, column: Seq<char>, value: Cell) -> bool {
    &&& row.table.spec_name() == table
    &&& exists|c: int|
        0 <= c < row.values.len() && c < row.table.spec_columns().len()
            && (#[trigger] row.table.spec_columns()[c]) == column && row.values[c] == value
}

/// What is bound to a statement is what the value holds: the integer, the text, or
/// the bytes, unchanged.
pub proof fn law_bound_value_is_kept(value: SqlValue)
    ensures
        value matches SqlValue::Integer(n) ==> value@ == Cell::Integer(n as int),
        value matches SqlValue::Text(s) ==> value@ == Cell::Text(s@),
        value matches SqlValue::Blob(b) ==> value@ == Cell::Blob(b@),
{
}

/// A row is seen with its table and with all of its values, each in its place.
pub proof fn law_insert_is_seen_whole(insert: Insert)
    ensures
        insert@.table == insert.table,
        insert@.values.len() == insert.values@.len(),
        forall|c: int|
            0 <= c < insert.values@.len() ==> #[trigger] insert@.values[c] == insert.values@[c]@,
{
}

/// Every column of every seeded row, found by the names of table and column: for
/// any keys, the group's columns and `epoch_id` hold the key, and each other column
/// one fixed value.
pub proof fn law_seeded_columns(raw: Seq<u8>, json: Seq<u8>)
    ensures
        gives(seed_rows(raw, json)[0], "openmls_group_data"@, "provider_version"@, Cell::Integer(1)),
        gives(seed_rows(raw, json)[0], "openmls_group_data"@, "group_id"@, Cell::Blob(json)),
        gives(
            seed_rows(raw, json)[0],
            "openmls_group_data"@,
            "data_type"@,
            Cell::Text("group_state"@),
        ),
        gives(
            seed_rows(raw, json)[0],
            "openmls_group_data"@,
            "group_data"@,
            Cell::Blob(encode_utf8("fake_crypto_state"@)),
        ),
        gives(
            seed_rows(raw, json)[1],
            "openmls_epoch_key_pairs"@,
            "provider_version"@,
            Cell::Integer(1),
        ),
        gives(seed_rows(raw, json)[1], "openmls_epoch_key_pairs"@, "group_id"@, Cell::Blob(json)),
        gives(seed_rows(raw, json)[1], "openmls_epoch_key_pairs"@, "epoch_id"@, Cell::Blob(json)),
        gives(seed_rows(raw, json)[1], "openmls_epoch_key_pairs"@, "leaf_index"@, Cell::Integer(0)),
        gives(
            seed_rows(raw, json)[1],
            "openmls_epoch_key_pairs"@,
            "key_pairs"@,
            Cell::Blob(encode_utf8("fake_epoch_keys"@)),
        ),
        gives(
            seed_rows(raw, json)[2],
            "openmls_own_leaf_nodes"@,
            "provider_version"@,
            Cell::Integer(1),
        ),
        gives(seed_rows(raw, json)[2], "openmls_own_leaf_nodes"@, "group_id"@, Cell::Blob(json)),
        gives(
            seed_rows(raw, json)[2],
            "openmls_own_leaf_nodes"@,
            "leaf_node"@,
            Cell::Blob(encode_utf8("fake_leaf_node"@)),
        ),
        gives(seed_rows(raw, json)[3], "groups"@, "mls_group_id"@, Cell::Blob(raw)),
        gives(
            seed_rows(raw, json)[3],
            "groups"@,
            "nostr_group_id"@,
            Cell::Blob(encode_utf8("nostr_group_id_placeholder"@)),
        ),
        gives(seed_rows(raw, json)[3], "groups"@, "name"@, Cell::Text("Test Group"@)),
        gives(seed_rows(raw, json)[3], "groups"@, "description"@, Cell::Text("Bug repro"@)),
        gives(seed_rows(raw, json)[3], "groups"@, "admin_pubkeys"@, Cell::Text("[]"@)),
        gives(seed_rows(raw, json)[3], "groups"@, "epoch"@, Cell::Integer(5)),
        gives(seed_rows(raw, json)[3], "groups"@, "state"@, Cell::Text("active"@)),
{
    let rows = seed_rows(raw, json);
    assert forall|i: int, c: int|
        0 <= i < 4 && 0 <= c < rows[i].table.spec_columns().len() implies #[trigger] gives(
        rows[i],
        rows[i].table.spec_name(),
        rows[i].table.spec_columns()[c],
        rows[i].values[c],
    ) by {}
    assert(rows[0].table.spec_columns()[0] == "provider_version"@);
    assert(rows[0].table.spec_columns()[1] == "group_id"@);
    assert(rows[0].table.spec_columns()[2] == "data_type"@);
    assert(rows[0].table.spec_columns()[3] == "group_data"@);
    assert(rows[1].table.spec_columns()[0] == "provider_version"@);
    assert(rows[1].table.spec_columns()[1] == "group_id"@);
    assert(rows[1].table.spec_columns()[2] == "epoch_id"@);
    assert(rows[1].table.spec_columns()[3] == "leaf_index"@);
    assert(rows[1].table.spec_columns()[4] == "key_pairs"@);
    assert(rows[2].table.spec_columns()[0] == "provider_version"@);
    assert(rows[2].table.spec_columns()[1] == "group_id"@);
    assert(rows[2].table.spec_columns()[2] == "leaf_node"@);
    assert(rows[3].table.spec_columns()[0] == "mls_group_id"@);
    assert(rows[3].table.spec_columns()[1] == "nostr_group_id"@);
    assert(rows[3].table.spec_columns()[2] == "name"@);
    assert(rows[3].table.spec_columns()[3] == "description"@);
    assert(rows[3].table.spec_columns()[4] == "admin_pubkeys"@);
    assert(rows[3].table.spec_columns()[5] == "epoch"@);
    assert(rows[3].table.spec_columns()[6] == "state"@);
}

/// Two seeds differ in the keys alone: row by row the tables are the same, and of
/// the values only those that hold a key of the group can differ.
pub proof fn law_seeds_differ_in_keys_only(
    raw: Seq<u8>,
    json: Seq<u8>,
    other_raw: Seq<u8>,
    other_json: Seq<u8>,
    i: int,
    c: int,
)
    requires
        0 <= i < seed_rows(raw, json).len(),
        0 <= c < seed_rows(raw, json)[i].values.len(),
    ensures
        seed_rows(other_raw, other_json).len() == seed_rows(raw, json).len(),
        seed_rows(other_raw, other_json)[i].table == seed_rows(raw, json)[i].table,
        seed_rows(other_raw, other_json)[i].values.len() == seed_rows(raw, json)[i].values.len(),
        seed_rows(raw, json)[i].values[c] == seed_rows(other_raw, other_json)[i].values[c]
            || seed_rows(raw, json)[i].values[c] == Cell::Blob(
            if seed_rows(raw, json)[i].table.is_openmls() {
                json
            } else {
                raw
            },
        ),
{
}

/// An insert statement can be read up to any column and beyond: the columns before
/// and behind a place stand in their order, and the parameters that go with them
/// are numbered from one, in the same order.
pub proof fn law_insert_sql_by_columns(table: Table, k: int)
    requires
        0 < k < table.spec_columns().len(),
    ensures
        table.spec_insert_sql() == "INSERT INTO "@ + table.spec_name() + " ("@ + text::listed(
            table.spec_columns().take(k),
        ) + ", "@ + text::listed(table.spec_columns().skip(k)) + ")\n         VALUES ("@
            + text::listed(parameters(k as nat)) + ", "@ + text::listed(
            parameters(table.spec_columns().len()).skip(k),
        ) + ")"@,
        parameters(k as nat).len() == k,
        parameters(k as nat)[k - 1] == seq!['?'] + text::decimal(k as nat),
{
    reveal_strlit("?");
    reveal_strlit(", ");
    assert(", "@ =~= seq![',', ' ']);
    assert("?"@ =~= seq!['?']);
    let columns = table.spec_columns();
    let all = parameters(columns.len());
    text::law_listed_splits(columns.take(k), columns.skip(k));
    text::law_listed_splits(all.take(k), all.skip(k));
    assert(columns =~= columns.take(k) + columns.skip(k));
    assert(all =~= all.take(k) + all.skip(k));
    assert(all.take(k) =~= parameters(k as nat));
    assert(table.spec_insert_sql() =~= "INSERT INTO "@ + table.spec_name() + " ("@ + text::listed(
        columns.take(k),
    ) + ", "@ + text::listed(columns.skip(k)) + ")\n         VALUES ("@ + text::listed(
        parameters(k as nat),
    ) + ", "@ + text::listed(all.skip(k)) + ")"@);
}

} // verus!
