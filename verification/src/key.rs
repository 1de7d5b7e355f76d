//! The two encodings of a group id that serve as keys in the database.
//!
//! MDK's own tables are keyed by the raw bytes of the id. The OpenMLS tables, in
//! MDK before 0.6.0, are keyed by its JSON form, whose bytes are never those of the id itself.

use crate::text;
use mdk_storage_traits::GroupId;
use vstd::prelude::*;
use vstd::utf8::*;

verus! {

/// The JSON form of a group id, as text.
pub open spec fn json_text(id: Seq<u8>) -> Seq<char> {
    "{\"value\":{\"vec\":["@ + text::joined(id, ","@) + "]}}"@
}

/// The JSON form of a group id, as the bytes that the OpenMLS tables hold.
pub open spec fn json_key(id: Seq<u8>) -> Seq<u8> {
    encode_utf8(json_text(id))
}

/// What [`String::from_utf8_lossy`] makes of the bytes.
pub uninterp spec fn utf8_lossy(bytes: Seq<u8>) -> Seq<char>;

#[verifier::external_type_specification]
#[verifier::external_body]
pub struct ExJsonError(serde_json::Error);

/// Calls `mdk_storage_traits::GroupId::as_slice` on the id that
/// `GroupId::from_slice` makes of the bytes. Trusted: the id holds a copy of
/// the bytes that it was made of and hands back exactly those.
#[verifier::external_body]
fn group_id_bytes(id: &[u8]) -> (r: Vec<u8>)
    ensures
        r@ == id@,
{
    GroupId::from_slice(id).as_slice().to_vec()
}

/// Calls `serde_json::to_vec` on the `mdk_storage_traits::GroupId` made of the
/// bytes. Trusted: the id is a struct with the one field `value`, a struct with
/// the one field `vec`, which holds the bytes, and compact JSON writes that as
/// two nested objects round an array of decimal numbers. Neither these types
/// nor writing into a `Vec` can fail. The output has at most four bytes for
/// each byte of the id, and twenty more; the buffer for it, which doubles as it
/// grows, must not pass `isize::MAX` bytes.
#[verifier::external_body]
fn group_id_json(id: &[u8]) -> (r: Result<Vec<u8>, serde_json::Error>)
    requires
        8 * id@.len() + 40 <= isize::MAX,
    ensures
        r is Ok,
        r->Ok_0@ == json_key(id@),
{
    serde_json::to_vec(&GroupId::from_slice(id))
}

/// Calls `String::from_utf8_lossy`. Trusted: the text depends on the bytes
/// alone, and where they are valid UTF-8 it is what they encode.
#[verifier::external_body]
pub(crate) fn lossy_text(bytes: &[u8]) -> (r: String)
    ensures
        r@ == utf8_lossy(bytes@),
        valid_utf8(bytes@) ==> r@ == decode_utf8(bytes@),
{
    String::from_utf8_lossy(bytes).into_owned()
}

/// Both encodings of one group id.
pub struct GroupKeys {
    /// The id's own bytes, the key of MDK's tables.
    pub raw_bytes: Vec<u8>,
    /// The id in JSON, the key of the OpenMLS tables.
    pub json_key: Vec<u8>,
}

impl GroupKeys {
    /// Whether these are the encodings of `id`.
    pub open spec fn encode(self, id: Seq<u8>) -> bool {
        self.raw_bytes@ == id && self.json_key@ == json_key(id)
    }
}

/// Encodes a group id in both ways.
pub fn encode_group_id(id: &[u8]) -> (r: GroupKeys)
    requires
        8 * id@.len() + 40 <= isize::MAX,
    ensures
        r.encode(id@),
        r.raw_bytes@ == id@,
        r.json_key@ == json_key(id@),
{
    GroupKeys { raw_bytes: group_id_bytes(id), json_key: group_id_json(id).unwrap() }
}

/// A decimal number is one digit or more, and nothing but digits.
proof fn lemma_decimal_digits(n: nat)
    ensures
        text::decimal(n).len() >= 1,
        forall|i: int| 0 <= i < text::decimal(n).len() ==> '0' <= #[trigger] text::decimal(n)[i] <= '9',
    decreases n,
{
    if n >= 10 {
        lemma_decimal_digits(n / 10);
    }
}

/// A byte has at most three digits.
proof fn lemma_byte_digits(b: u8)
    ensures
        text::decimal(b as nat).len() <= 3,
{
    reveal_with_fuel(text::decimal, 3);
}

/// Different numbers have different decimals.
proof fn lemma_decimal_injective(a: nat, b: nat)
    requires
        text::decimal(a) == text::decimal(b),
    ensures
        a == b,
    decreases a,
{
    lemma_decimal_digits(a / 10);
    lemma_decimal_digits(b / 10);
    assert(text::decimal(a).last() == text::digit(a % 10));
    assert(text::decimal(b).last() == text::digit(b % 10));
    assert(a % 10 == b % 10);
    if a >= 10 {
        assert(text::decimal(a).len() >= 2);
        assert(text::decimal(a).drop_last() =~= text::decimal(a / 10));
        assert(text::decimal(b).drop_last() =~= text::decimal(b / 10));
        lemma_decimal_injective(a / 10, b / 10);
    }
}

/// A byte list joined by commas holds digits and commas, and how long it is.
proof fn lemma_joined_chars(id: Seq<u8>)
    ensures
        forall|i: int|
            0 <= i < text::joined(id, ","@).len() ==> {
                ||| '0' <= #[trigger] text::joined(id, ","@)[i] <= '9'
                ||| text::joined(id, ","@)[i] == ','
            },
        id.len() == 0 ==> text::joined(id, ","@).len() == 0,
        id.len() > 0 ==> 2 * id.len() - 1 <= text::joined(id, ","@).len() <= 4 * id.len() - 1,
    decreases id.len(),
{
    reveal_strlit(",");
    if id.len() > 0 {
        lemma_decimal_digits(id.last() as nat);
        lemma_byte_digits(id.last());
        lemma_joined_chars(id.drop_last());
    }
}

/// Where two texts agree, and neither has a comma behind the one that splits
/// it, they are split at the same place.
proof fn lemma_last_comma(s: Seq<char>, t: Seq<char>, u: Seq<char>, v: Seq<char>)
    requires
        s + ","@ + t == u + ","@ + v,
        !t.contains(','),
        !v.contains(','),
    ensures
        s == u,
        t == v,
{
    reveal_strlit(",");
    let left = s + ","@ + t;
    let right = u + ","@ + v;
    assert(left.len() == s.len() + 1 + t.len());
    assert(right.len() == u.len() + 1 + v.len());
    assert(left[s.len() as int] == ',');
    assert(right[u.len() as int] == ',');
    if s.len() < u.len() {
        assert(left[u.len() as int] == t[u.len() - s.len() - 1]);
    }
    if u.len() < s.len() {
        assert(right[s.len() as int] == v[s.len() - u.len() - 1]);
    }
    assert(s =~= left.take(s.len() as int));
    assert(u =~= right.take(s.len() as int));
    assert(t =~= left.skip(s.len() as int + 1));
    assert(v =~= right.skip(s.len() as int + 1));
}

/// Different byte lists are joined to different texts.
proof fn lemma_joined_injective(a: Seq<u8>, b: Seq<u8>)
    requires
        text::joined(a, ","@) == text::joined(b, ","@),
    ensures
        a == b,
    decreases a.len(),
{
    reveal_strlit(",");
    lemma_joined_chars(a);
    lemma_joined_chars(b);
    if a.len() == 0 || b.len() == 0 {
        assert(a =~= b);
    } else {
        let last_a = text::decimal(a.last() as nat);
        let last_b = text::decimal(b.last() as nat);
        lemma_decimal_digits(a.last() as nat);
        lemma_decimal_digits(b.last() as nat);
        assert(!last_a.contains(','));
        assert(!last_b.contains(','));
        let front_a = text::joined(a.drop_last(), ","@);
        let front_b = text::joined(b.drop_last(), ","@);
        if a.len() > 1 {
            assert(text::joined(a, ","@)[front_a.len() as int] == ',');
        }
        if b.len() > 1 {
            assert(text::joined(b, ","@)[front_b.len() as int] == ',');
        }
        if a.len() == 1 || b.len() == 1 {
            assert(a.len() == b.len());
            lemma_decimal_injective(a[0] as nat, b[0] as nat);
        } else {
            lemma_last_comma(front_a, last_a, front_b, last_b);
            lemma_joined_injective(a.drop_last(), b.drop_last());
            lemma_decimal_injective(a.last() as nat, b.last() as nat);
            assert(a =~= a.drop_last().push(a.last()));
            assert(b =~= b.drop_last().push(b.last()));
        }
        assert(a =~= b);
    }
}

/// The JSON form of an id is ASCII: one byte for each character.
proof fn lemma_json_ascii(id: Seq<u8>)
    ensures
        is_ascii_chars(json_text(id)),
        json_key(id).len() == json_text(id).len(),
        forall|i: int|
            0 <= i < json_text(id).len() ==> json_text(id)[i] as u8 == #[trigger] json_key(id)[i],
{
    reveal_strlit("{\"value\":{\"vec\":[");
    reveal_strlit("]}}");
    lemma_joined_chars(id);
    is_ascii_chars_encode_utf8(json_text(id));
}

/// The JSON key of an id is UTF-8 and reads as the id's JSON text.
pub proof fn law_json_key_reads_as_text(id: Seq<u8>)
    ensures
        valid_utf8(json_key(id)),
        decode_utf8(json_key(id)) == json_text(id),
{
    encode_utf8_valid_utf8(json_text(id));
    encode_utf8_decode_utf8(json_text(id));
}

/// Every JSON key begins with `{"value":{"vec":[` and ends with `]}}`.
pub proof fn law_json_key_frame(id: Seq<u8>)
    ensures
        encode_utf8("{\"value\":{\"vec\":["@).is_prefix_of(json_key(id)),
        encode_utf8("]}}"@).is_suffix_of(json_key(id)),
{
    let head = "{\"value\":{\"vec\":["@;
    let tail = "]}}"@;
    reveal_strlit("{\"value\":{\"vec\":[");
    reveal_strlit("]}}");
    lemma_json_ascii(id);
    is_ascii_chars_encode_utf8(head);
    is_ascii_chars_encode_utf8(tail);
    let key = json_key(id);
    let whole = json_text(id);
    let cut = key.len() - tail.len();
    assert forall|i: int| 0 <= i < head.len() implies encode_utf8(head)[i] == key[i] by {
        assert(whole[i] == head[i]);
    }
    assert forall|i: int| 0 <= i < tail.len() implies encode_utf8(tail)[i] == key[cut + i] by {
        assert(whole[cut + i] == tail[i]);
    }
    assert(encode_utf8(head) =~= key.subrange(0, head.len() as int));
    assert(encode_utf8(tail) =~= key.subrange(cut, key.len() as int));
}

/// A JSON key has from two to four bytes for each byte of the id, and nineteen
/// more; that of the empty id has twenty.
pub proof fn law_json_key_length(id: Seq<u8>)
    ensures
        id.len() == 0 ==> json_key(id).len() == 20,
        id.len() > 0 ==> 19 + 2 * id.len() <= json_key(id).len() <= 19 + 4 * id.len(),
{
    reveal_strlit("{\"value\":{\"vec\":[");
    reveal_strlit("]}}");
    lemma_json_ascii(id);
    lemma_joined_chars(id);
}

/// The two encodings of an id are never the same bytes: a lookup of the raw
/// bytes cannot find a row that is kept under the JSON key of the same id.
pub proof fn law_encodings_differ(id: Seq<u8>)
    ensures
        json_key(id) != id,
{
    law_json_key_length(id);
}

/// Different ids have different JSON keys.
pub proof fn law_json_key_injective(a: Seq<u8>, b: Seq<u8>)
    requires
        json_key(a) == json_key(b),
    ensures
        a == b,
{
    law_json_key_reads_as_text(a);
    law_json_key_reads_as_text(b);
    let head = "{\"value\":{\"vec\":["@;
    let tail = "]}}"@;
    let end = json_text(a).len() - tail.len();
    assert(text::joined(a, ","@) =~= json_text(a).subrange(head.len() as int, end));
    assert(text::joined(b, ","@) =~= json_text(b).subrange(head.len() as int, end));
    lemma_joined_injective(a, b);
}

/// The JSON forms of two ids make up that of both together: the first without its
/// closing `]}}`, a comma, and the second without its opening. The form of the
/// empty id has an empty list, and that of a single byte its decimal.
pub proof fn law_json_text_splits(a: Seq<u8>, b: Seq<u8>)
    ensures
        a.len() > 0 && b.len() > 0 ==> json_text(a + b) == json_text(a).take(
            json_text(a).len() - 3,
        ) + seq![','] + json_text(b).skip(17),
        json_text(Seq::empty()) == "{\"value\":{\"vec\":[]}}"@,
        a.len() == 1 ==> json_text(a) == "{\"value\":{\"vec\":["@ + text::decimal(a[0] as nat)
            + "]}}"@,
{
    reveal_strlit("{\"value\":{\"vec\":[");
    reveal_strlit("]}}");
    reveal_strlit("{\"value\":{\"vec\":[]}}");
    reveal_strlit(",");
    text::law_joined_splits(a, b, ","@);
    assert(json_text(Seq::empty()) =~= "{\"value\":{\"vec\":[]}}"@);
    if a.len() > 0 && b.len() > 0 {
        assert(json_text(a).take(json_text(a).len() - 3) =~= "{\"value\":{\"vec\":["@
            + text::joined(a, ","@));
        assert(json_text(b).skip(17) =~= text::joined(b, ","@) + "]}}"@);
        assert(json_text(a + b) =~= json_text(a).take(json_text(a).len() - 3) + seq![',']
            + json_text(b).skip(17));
    }
}

} // verus!
