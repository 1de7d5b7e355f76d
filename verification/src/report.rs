//! What a run prints, piece by piece.

use crate::key;
use crate::seed::Table;
use crate::snapshot;
use crate::snapshot::Verdict;
use crate::text;
use vstd::prelude::*;
use vstd::utf8::*;

verus! {

/// The heading of the report.
pub const TITLE: &'static str = "=== MDK Snapshot group_id Format Mismatch Bug ===\n\n";

/// How each backend of MDK makes the key that it looks the OpenMLS tables up by.
pub const BACKENDS: &'static str = "2) Backend implementations:

   MdkMemoryStorage (CORRECT):
     // mdk-memory-storage/src/lib.rs:579-582
     // \"MLS storage uses JSON serialization for group_id keys.
     //  We need to use the same serialization to match the stored keys.\"
     let mls_group_id_bytes = JsonCodec::serialize(group_id.inner())  // <-- correct

   MdkSqliteStorage (BUG):
     // mdk-sqlite-storage/src/lib.rs:465
     let group_id_bytes = group_id.as_slice()  // <-- wrong for openmls tables

";

/// Printed once the database is seeded.
pub const SEEDED: &'static str = "3) Inserted test data (4 tables: 3 openmls + 1 mdk)\n\n";

/// Printed once the snapshot is taken.
pub const SNAPSHOT_TAKEN: &'static str =
    "4) Called storage.create_group_snapshot() — MDK's actual code path\n\n";

/// The section that shows both encodings of a group id.
pub open spec fn encodings_section(raw: Seq<u8>, json: Seq<u8>, json_str: Seq<char>) -> Seq<char> {
    "1) The two encodings of the same GroupId:\n\n   as_slice()          = "@ + text::decimal(
        raw.len(),
    ) + " bytes: "@ + text::byte_list(raw) + "\n   JsonCodec::serialize = "@ + text::decimal(
        json.len(),
    ) + " bytes: "@ + json_str + "\n\n"@
}

/// Writes the section that shows both encodings of a group id, the JSON key as
/// the text that is given.
pub fn encodings_text_of(raw_bytes: &[u8], json_key: &[u8], json_str: &str) -> (r: String)
    ensures
        r@ == encodings_section(raw_bytes@, json_key@, json_str@),
{
    let mut r =
        "1) The two encodings of the same GroupId:\n\n   as_slice()          = ".to_owned();
    r.append(text::decimal_text(raw_bytes.len() as u64).as_str());
    r.append(" bytes: ");
    r.append(text::byte_list_text(raw_bytes).as_str());
    r.append("\n   JsonCodec::serialize = ");
    r.append(text::decimal_text(json_key.len() as u64).as_str());
    r.append(" bytes: ");
    r.append(json_str);
    r.append("\n\n");
    r
}

/// Writes the section that shows both encodings of a group id, the JSON key as
/// the text that its bytes read as.
pub fn encodings_text(raw_bytes: &[u8], json_key: &[u8]) -> (r: String)
    ensures
        r@ == encodings_section(raw_bytes@, json_key@, key::utf8_lossy(json_key@)),
        valid_utf8(json_key@) ==> r@ == encodings_section(
            raw_bytes@,
            json_key@,
            decode_utf8(json_key@),
        ),
        forall|id: Seq<u8>|
            json_key@ == #[trigger] key::json_key(id) ==> r@ == encodings_section(
                raw_bytes@,
                json_key@,
                key::json_text(id),
            ),
{
    let json_str = key::lossy_text(json_key);
    proof {
        assert forall|id: Seq<u8>| json_key@ == #[trigger] key::json_key(id) implies json_str@
            == key::json_text(id) by {
            key::law_json_key_reads_as_text(id);
        }
    }
    encodings_text_of(raw_bytes, json_key, json_str.as_str())
}

/// One line for each captured table: its name, forty characters wide, and how
/// many of its rows were captured.
pub open spec fn table_lines(results: Seq<(String, i64)>) -> Seq<char>
    decreases results.len(),
{
    if results.len() == 0 {
        Seq::empty()
    } else {
        table_lines(results.drop_last()) + "   "@ + text::padded(results.last().0@, 40) + " "@
            + text::signed_decimal(results.last().1 as int) + " row(s)\n"@
    }
}

/// The section that lists the captured tables.
pub open spec fn contents_section(results: Seq<(String, i64)>) -> Seq<char> {
    "5) Snapshot contents:\n"@ + (if results.len() == 0 {
        "   (empty!)\n"@
    } else {
        table_lines(results)
    }) + "\n"@
}

/// Writes one line for each captured table.
fn table_lines_text(results: &[(String, i64)]) -> (r: String)
    ensures
        r@ == table_lines(results@),
{
    let mut r = String::new();
    for i in 0..results.len()
        invariant
            r@ == table_lines(results@.take(i as int)),
    {
        r.append("   ");
        r.append(text::padded_text(results[i].0.as_str(), 40).as_str());
        r.append(" ");
        r.append(text::signed_decimal_text(results[i].1).as_str());
        r.append(" row(s)\n");
        assert(results@.take(i + 1).drop_last() =~= results@.take(i as int));
    }
    assert(results@.take(results.len() as int) =~= results@);
    r
}

/// Writes the section that lists the captured tables.
pub fn contents_text(results: &[(String, i64)]) -> (r: String)
    ensures
        r@ == contents_section(results@),
{
    let mut r = "5) Snapshot contents:\n".to_owned();
    if results.len() == 0 {
        r.append("   (empty!)\n");
    } else {
        r.append(table_lines_text(results).as_str());
    }
    r.append("\n");
    r
}

/// The mark of a check that holds, or does not.
pub open spec fn mark(ok: bool) -> Seq<char> {
    if ok {
        " OK "@
    } else {
        "BUG "@
    }
}

/// The mark of a check that holds, or does not.
fn mark_text(ok: bool) -> (r: &'static str)
    ensures
        r@ == mark(ok),
{
    if ok {
        " OK "
    } else {
        "BUG "
    }
}

/// The section that checks each seeded table.
pub open spec fn checks_section(results: Seq<(String, i64)>) -> Seq<char> {
    "   ["@ + mark(snapshot::captured(results, Table::Groups))
        + "] groups                  (MDK table, raw bytes — matches)\n   ["@ + mark(
        snapshot::captured(results, Table::GroupData),
    ) + "] openmls_group_data      (OpenMLS, JSON key — MISSING)\n   ["@ + mark(
        snapshot::captured(results, Table::EpochKeyPairs),
    ) + "] openmls_epoch_key_pairs (OpenMLS, JSON key — MISSING)\n   ["@ + mark(
        snapshot::captured(results, Table::OwnLeafNodes),
    ) + "] openmls_own_leaf_nodes  (OpenMLS, JSON key — MISSING)\n"@
}

/// Writes the section that checks each seeded table.
pub fn checks_text(results: &[(String, i64)]) -> (r: String)
    ensures
        r@ == checks_section(results@),
{
    let mut r = "   [".to_owned();
    r.append(mark_text(snapshot::is_captured(results, Table::Groups)));
    r.append("] groups                  (MDK table, raw bytes — matches)\n   [");
    r.append(mark_text(snapshot::is_captured(results, Table::GroupData)));
    r.append("] openmls_group_data      (OpenMLS, JSON key — MISSING)\n   [");
    r.append(mark_text(snapshot::is_captured(results, Table::EpochKeyPairs)));
    r.append("] openmls_epoch_key_pairs (OpenMLS, JSON key — MISSING)\n   [");
    r.append(mark_text(snapshot::is_captured(results, Table::OwnLeafNodes)));
    r.append("] openmls_own_leaf_nodes  (OpenMLS, JSON key — MISSING)\n");
    r
}

/// The section that holds what `openmls_group_data` answers under each key.
pub open spec fn counts_section(json_count: int, raw_count: int) -> Seq<char> {
    "\n6) Proof — querying openmls_group_data directly:\n   WHERE group_id = <json_key>  -> "@
        + text::signed_decimal(json_count)
        + " row(s)  (data exists)\n   WHERE group_id = <raw_bytes> -> "@ + text::signed_decimal(
        raw_count,
    ) + " row(s)  (snapshot uses this)\n\n"@
}

/// Writes the section that holds what `openmls_group_data` answers under each
/// key.
pub fn counts_text(json_count: i64, raw_count: i64) -> (r: String)
    ensures
        r@ == counts_section(json_count as int, raw_count as int),
{
    let mut r =
        "\n6) Proof — querying openmls_group_data directly:\n   WHERE group_id = <json_key>  -> ".to_owned();
    r.append(text::signed_decimal_text(json_count).as_str());
    r.append(" row(s)  (data exists)\n   WHERE group_id = <raw_bytes> -> ");
    r.append(text::signed_decimal_text(raw_count).as_str());
    r.append(" row(s)  (snapshot uses this)\n\n");
    r
}

/// The closing words on a mismatch, behind the lengths of both encodings.
pub const CONFIRMED_END: &'static str = " bytes)
Result: snapshots contain ONLY MDK metadata, ZERO cryptographic state.
restore_group_from_snapshot() deletes all crypto state with nothing to restore.

The memory backend already has the fix (with comment explaining why).
The SQLite backend just needs the same treatment.
";

/// The closing words where OpenMLS rows were captured.
pub const FIXED_TEXT: &'static str =
    "=== BUG FIXED ===\nSnapshots now correctly capture OpenMLS data.\n";

/// The closing words of a report.
pub open spec fn summary_section(verdict: Verdict, raw_len: nat, json_len: nat) -> Seq<char> {
    match verdict {
        Verdict::Confirmed => {
            "=== BUG CONFIRMED ===\nSQLite snapshot queries openmls tables with as_slice() ("@
                + text::decimal(raw_len)
                + " bytes)\nbut StorageProvider stores group_id via JsonCodec ("@ + text::decimal(
                json_len,
            ) + CONFIRMED_END@
        },
        Verdict::Fixed => FIXED_TEXT@,
        Verdict::Inconclusive => Seq::empty(),
    }
}

/// Writes the closing words of a report.
pub fn summary_text(verdict: Verdict, raw_bytes: &[u8], json_key: &[u8]) -> (r: String)
    ensures
        r@ == summary_section(verdict, raw_bytes@.len(), json_key@.len()),
{
    match verdict {
        Verdict::Confirmed => {
            let mut r =
                "=== BUG CONFIRMED ===\nSQLite snapshot queries openmls tables with as_slice() (".to_owned();
            r.append(text::decimal_text(raw_bytes.len() as u64).as_str());
            r.append(" bytes)\nbut StorageProvider stores group_id via JsonCodec (");
            r.append(text::decimal_text(json_key.len() as u64).as_str());
            r.append(CONFIRMED_END);
            r
        },
        Verdict::Fixed => FIXED_TEXT.to_owned(),
        Verdict::Inconclusive => String::new(),
    }
}

/// The section on the encodings is two entries and no more: it begins with the
/// length and all bytes of the raw key, and ends with the length of the JSON key
/// and the text given for it.
pub proof fn law_encodings_section_shows_both_keys(
    raw: Seq<u8>,
    json: Seq<u8>,
    json_str: Seq<char>,
)
    ensures
        ({
            let first = "1) The two encodings of the same GroupId:\n\n   as_slice()          = "@
                + text::decimal(raw.len()) + " bytes: "@ + text::byte_list(raw);
            let second = "\n   JsonCodec::serialize = "@ + text::decimal(json.len())
                + " bytes: "@ + json_str + "\n\n"@;
            let section = encodings_section(raw, json, json_str);
            &&& first.is_prefix_of(section)
            &&& second.is_suffix_of(section)
            &&& section.len() == first.len() + second.len()
        }),
{
    let first = "1) The two encodings of the same GroupId:\n\n   as_slice()          = "@
        + text::decimal(raw.len()) + " bytes: "@ + text::byte_list(raw);
    let second = "\n   JsonCodec::serialize = "@ + text::decimal(json.len()) + " bytes: "@ + json_str
        + "\n\n"@;
    assert(encodings_section(raw, json, json_str) =~= first + second);
    assert((first + second).subrange(0, first.len() as int) =~= first);
    assert((first + second).subrange(first.len() as int, (first + second).len() as int) =~= second);
}

/// The lines of two lists of tables, one behind the other, are those of the whole
/// list: every table has its line, in its place.
pub proof fn law_every_table_has_its_line(
    a: Seq<(String, i64)>,
    b: Seq<(String, i64)>,
    row: (String, i64),
)
    ensures
        table_lines(a + b) == table_lines(a) + table_lines(b),
        table_lines(Seq::empty()) == Seq::<char>::empty(),
        table_lines(seq![row]) == "   "@ + text::padded(row.0@, 40) + " "@ + text::signed_decimal(
            row.1 as int,
        ) + " row(s)\n"@,
    decreases b.len(),
{
    assert(table_lines(seq![row].drop_last()) =~= Seq::empty());
    assert(table_lines(seq![row]) =~= "   "@ + text::padded(row.0@, 40) + " "@
        + text::signed_decimal(row.1 as int) + " row(s)\n"@);
    if b.len() == 0 {
        assert(a + b =~= a);
        assert(table_lines(a) + table_lines(b) =~= table_lines(a));
    } else {
        law_every_table_has_its_line(a, b.drop_last(), row);
        assert((a + b).drop_last() =~= a + b.drop_last());
        assert(table_lines(a + b) =~= table_lines(a) + table_lines(b));
    }
}

/// A further table adds its line to the section, in front of the closing blank line,
/// and changes nothing else. Without tables the section says so.
pub proof fn law_contents_grow_by_lines(results: Seq<(String, i64)>, row: (String, i64))
    ensures
        contents_section(Seq::empty()) == "5) Snapshot contents:\n   (empty!)\n\n"@,
        contents_section(results.push(row)).drop_last() == (if results.len() == 0 {
            "5) Snapshot contents:\n"@
        } else {
            contents_section(results).drop_last()
        }) + ("   "@ + text::padded(row.0@, 40) + " "@ + text::signed_decimal(row.1 as int)
            + " row(s)\n"@),
        contents_section(results).len() > 0,
        contents_section(results).last() == '\n',
{
    reveal_strlit("\n");
    reveal_strlit("5) Snapshot contents:\n");
    reveal_strlit("   (empty!)\n");
    reveal_strlit("5) Snapshot contents:\n   (empty!)\n\n");
    let line = "   "@ + text::padded(row.0@, 40) + " "@ + text::signed_decimal(row.1 as int)
        + " row(s)\n"@;
    let heading = "5) Snapshot contents:\n"@;
    let more = results.push(row);
    law_every_table_has_its_line(results, seq![row], row);
    assert(more =~= results + seq![row]);
    assert(contents_section(Seq::empty()) =~= "5) Snapshot contents:\n   (empty!)\n\n"@);
    assert(contents_section(more).drop_last() =~= heading + table_lines(results) + line);
    if results.len() == 0 {
        assert(heading + table_lines(results) =~= heading);
    } else {
        assert(contents_section(results).drop_last() =~= heading + table_lines(results));
    }
}

/// Every table that was captured is listed: what stands before and behind its entry
/// in the answer stands before and behind its line in the section.
pub proof fn law_contents_list_every_entry(results: Seq<(String, i64)>, i: int)
    requires
        0 <= i < results.len(),
    ensures
        contents_section(results) == "5) Snapshot contents:\n"@ + table_lines(results.take(i)) + (
        "   "@ + text::padded(results[i].0@, 40) + " "@ + text::signed_decimal(results[i].1 as int)
            + " row(s)\n"@) + table_lines(results.skip(i + 1)) + "\n"@,
{
    let row = results[i];
    let front = results.take(i);
    let back = results.skip(i + 1);
    law_every_table_has_its_line(front + seq![row], back, row);
    law_every_table_has_its_line(front, seq![row], row);
    assert(results =~= front + seq![row] + back);
    assert(contents_section(results) =~= "5) Snapshot contents:\n"@ + table_lines(front) + (
    "   "@ + text::padded(row.0@, 40) + " "@ + text::signed_decimal(row.1 as int) + " row(s)\n"@)
        + table_lines(back) + "\n"@);
}

/// The checks are four lines, each made of its table's mark, its name in one
/// column, and what kind of table it is.
pub proof fn law_checks_are_a_line_for_each_table(results: Seq<(String, i64)>)
    ensures
        checks_section(results) == ("   ["@ + (if snapshot::captured(results, Table::Groups) {
            " OK "@
        } else {
            "BUG "@
        }) + "] groups                  (MDK table, raw bytes — matches)\n"@) + ("   ["@ + (
        if snapshot::captured(results, Table::GroupData) {
            " OK "@
        } else {
            "BUG "@
        }) + "] openmls_group_data      (OpenMLS, JSON key — MISSING)\n"@) + ("   ["@ + (
        if snapshot::captured(results, Table::EpochKeyPairs) {
            " OK "@
        } else {
            "BUG "@
        }) + "] openmls_epoch_key_pairs (OpenMLS, JSON key — MISSING)\n"@) + ("   ["@ + (
        if snapshot::captured(results, Table::OwnLeafNodes) {
            " OK "@
        } else {
            "BUG "@
        }) + "] openmls_own_leaf_nodes  (OpenMLS, JSON key — MISSING)\n"@),
{
    reveal_strlit("   [");
    reveal_strlit("] groups                  (MDK table, raw bytes — matches)\n");
    reveal_strlit("] groups                  (MDK table, raw bytes — matches)\n   [");
    reveal_strlit("] openmls_group_data      (OpenMLS, JSON key — MISSING)\n");
    reveal_strlit("] openmls_group_data      (OpenMLS, JSON key — MISSING)\n   [");
    reveal_strlit("] openmls_epoch_key_pairs (OpenMLS, JSON key — MISSING)\n");
    reveal_strlit("] openmls_epoch_key_pairs (OpenMLS, JSON key — MISSING)\n   [");
    let g = "] groups                  (MDK table, raw bytes — matches)\n"@;
    let d = "] openmls_group_data      (OpenMLS, JSON key — MISSING)\n"@;
    let e = "] openmls_epoch_key_pairs (OpenMLS, JSON key — MISSING)\n"@;
    let o = "] openmls_own_leaf_nodes  (OpenMLS, JSON key — MISSING)\n"@;
    let open = "   ["@;
    assert("] groups                  (MDK table, raw bytes — matches)\n   ["@ =~= g + open);
    assert("] openmls_group_data      (OpenMLS, JSON key — MISSING)\n   ["@ =~= d + open);
    assert("] openmls_epoch_key_pairs (OpenMLS, JSON key — MISSING)\n   ["@ =~= e + open);
    let mg = mark(snapshot::captured(results, Table::Groups));
    let md = mark(snapshot::captured(results, Table::GroupData));
    let me = mark(snapshot::captured(results, Table::EpochKeyPairs));
    let mo = mark(snapshot::captured(results, Table::OwnLeafNodes));
    assert(checks_section(results) =~= (open + mg + g) + (open + md + d) + (open + me + e) + (open
        + mo + o));
}

/// Where the line of a table starts in the checks.
pub open spec fn check_line_start(table: Table) -> int {
    match table {
        Table::Groups => 0,
        Table::GroupData => 67,
        Table::EpochKeyPairs => 131,
        Table::OwnLeafNodes => 195,
    }
}

/// The line of a table begins with `[ OK ]` and its name exactly where the table was
/// captured, and with `[BUG ]` and its name exactly where it was not, whatever holds
/// of the other tables.
pub proof fn law_check_mark_tells_capture(results: Seq<(String, i64)>, table: Table)
    ensures
        ("   [ OK ] "@ + table.spec_name()).is_prefix_of(
            checks_section(results).skip(check_line_start(table)),
        ) <==> snapshot::captured(results, table),
        ("   [BUG ] "@ + table.spec_name()).is_prefix_of(
            checks_section(results).skip(check_line_start(table)),
        ) <==> !snapshot::captured(results, table),
        check_line_start(table) > 0 ==> checks_section(results)[check_line_start(table) - 1]
            == '\n',
        checks_section(results).len() == 259,
{
    law_checks_are_a_line_for_each_table(results);
    reveal_strlit("   [");
    reveal_strlit(" OK ");
    reveal_strlit("BUG ");
    reveal_strlit("   [ OK ] ");
    reveal_strlit("   [BUG ] ");
    reveal_strlit("groups");
    reveal_strlit("openmls_group_data");
    reveal_strlit("openmls_epoch_key_pairs");
    reveal_strlit("openmls_own_leaf_nodes");
    reveal_strlit("] groups                  (MDK table, raw bytes — matches)\n");
    reveal_strlit("] openmls_group_data      (OpenMLS, JSON key — MISSING)\n");
    reveal_strlit("] openmls_epoch_key_pairs (OpenMLS, JSON key — MISSING)\n");
    reveal_strlit("] openmls_own_leaf_nodes  (OpenMLS, JSON key — MISSING)\n");
    let line = checks_section(results).skip(check_line_start(table));
    let ok = "   [ OK ] "@ + table.spec_name();
    let bug = "   [BUG ] "@ + table.spec_name();
    assert(ok[4] == ' ' && bug[4] == 'B');
    if snapshot::captured(results, table) {
        assert(line.subrange(0, ok.len() as int) =~= ok);
    } else {
        assert(line.subrange(0, bug.len() as int) =~= bug);
    }
    if ok.is_prefix_of(line) {
        assert(line[4] == ok[4]);
    }
    if bug.is_prefix_of(line) {
        assert(line[4] == bug[4]);
    }
}

/// The section on the counts is two entries and no more: it begins with the count
/// under the JSON key, and ends with that under the raw bytes.
pub proof fn law_counts_section_shows_both_counts(json_count: int, raw_count: int)
    ensures
        ({
            let first =
                "\n6) Proof — querying openmls_group_data directly:\n   WHERE group_id = <json_key>  -> "@
                + text::signed_decimal(json_count) + " row(s)  (data exists)\n"@;
            let second = "   WHERE group_id = <raw_bytes> -> "@ + text::signed_decimal(raw_count)
                + " row(s)  (snapshot uses this)\n\n"@;
            let section = counts_section(json_count, raw_count);
            &&& first.is_prefix_of(section)
            &&& second.is_suffix_of(section)
            &&& section.len() == first.len() + second.len()
        }),
{
    reveal_strlit(" row(s)  (data exists)\n   WHERE group_id = <raw_bytes> -> ");
    reveal_strlit(" row(s)  (data exists)\n");
    reveal_strlit("   WHERE group_id = <raw_bytes> -> ");
    assert(" row(s)  (data exists)\n   WHERE group_id = <raw_bytes> -> "@
        =~= " row(s)  (data exists)\n"@ + "   WHERE group_id = <raw_bytes> -> "@);
    let first =
        "\n6) Proof — querying openmls_group_data directly:\n   WHERE group_id = <json_key>  -> "@
        + text::signed_decimal(json_count) + " row(s)  (data exists)\n"@;
    let second = "   WHERE group_id = <raw_bytes> -> "@ + text::signed_decimal(raw_count)
        + " row(s)  (snapshot uses this)\n\n"@;
    assert(counts_section(json_count, raw_count) =~= first + second);
    assert((first + second).subrange(0, first.len() as int) =~= first);
    assert((first + second).subrange(first.len() as int, (first + second).len() as int) =~= second);
}

/// The closing words follow the verdict. On a mismatch they begin with the length of
/// the raw bytes and end with that of the JSON key and what follows from it.
pub proof fn law_summary_follows_verdict(verdict: Verdict, raw_len: nat, json_len: nat)
    ensures
        verdict == Verdict::Confirmed ==> ({
            let first =
                "=== BUG CONFIRMED ===\nSQLite snapshot queries openmls tables with as_slice() ("@
                + text::decimal(raw_len);
            let second = " bytes)\nbut StorageProvider stores group_id via JsonCodec ("@
                + text::decimal(json_len) + " bytes)
Result: snapshots contain ONLY MDK metadata, ZERO cryptographic state.
restore_group_from_snapshot() deletes all crypto state with nothing to restore.

The memory backend already has the fix (with comment explaining why).
The SQLite backend just needs the same treatment.
"@;
            let section = summary_section(verdict, raw_len, json_len);
            &&& first.is_prefix_of(section)
            &&& second.is_suffix_of(section)
            &&& section.len() == first.len() + second.len()
        }),
        verdict == Verdict::Fixed ==> summary_section(verdict, raw_len, json_len)
            == "=== BUG FIXED ===\nSnapshots now correctly capture OpenMLS data.\n"@,
        verdict == Verdict::Inconclusive ==> summary_section(verdict, raw_len, json_len).len() == 0,
{
    if verdict == Verdict::Confirmed {
        let first =
            "=== BUG CONFIRMED ===\nSQLite snapshot queries openmls tables with as_slice() ("@
            + text::decimal(raw_len);
        let second = " bytes)\nbut StorageProvider stores group_id via JsonCodec ("@ + text::decimal(
            json_len,
        ) + CONFIRMED_END@;
        assert(summary_section(verdict, raw_len, json_len) =~= first + second);
        assert((first + second).subrange(0, first.len() as int) =~= first);
        assert((first + second).subrange(first.len() as int, (first + second).len() as int)
            =~= second);
    }
}

/// The parts of the report that depend on nothing.
pub proof fn law_fixed_texts()
    ensures
        TITLE@ == "=== MDK Snapshot group_id Format Mismatch Bug ===\n\n"@,
        BACKENDS@ == "2) Backend implementations:

   MdkMemoryStorage (CORRECT):
     // mdk-memory-storage/src/lib.rs:579-582
     // \"MLS storage uses JSON serialization for group_id keys.
     //  We need to use the same serialization to match the stored keys.\"
     let mls_group_id_bytes = JsonCodec::serialize(group_id.inner())  // <-- correct

   MdkSqliteStorage (BUG):
     // mdk-sqlite-storage/src/lib.rs:465
     let group_id_bytes = group_id.as_slice()  // <-- wrong for openmls tables

"@,
        SEEDED@ == "3) Inserted test data (4 tables: 3 openmls + 1 mdk)\n\n"@,
        SNAPSHOT_TAKEN@
            == "4) Called storage.create_group_snapshot() — MDK's actual code path\n\n"@,
{
}

} // verus!
