//! Text of numbers and of lists of bytes.

use vstd::prelude::*;

verus! {

/// The character of one decimal digit.
pub open spec fn digit(d: nat) -> char {
    (48 + d) as char
}

/// A number in decimal, without leading zeros.
pub open spec fn decimal(n: nat) -> Seq<char>
    decreases n,
{
    if n < 10 {
        seq![digit(n)]
    } else {
        decimal(n / 10).push(digit(n % 10))
    }
}

/// A number in decimal, with a minus sign where it is negative.
pub open spec fn signed_decimal(n: int) -> Seq<char> {
    if n < 0 {
        "-"@ + decimal((-n) as nat)
    } else {
        decimal(n as nat)
    }
}

/// The bytes in decimal, with `sep` between each two.
pub open spec fn joined(bytes: Seq<u8>, sep: Seq<char>) -> Seq<char>
    decreases bytes.len(),
{
    if bytes.len() == 0 {
        Seq::empty()
    } else if bytes.len() == 1 {
        decimal(bytes[0] as nat)
    } else {
        joined(bytes.drop_last(), sep) + sep + decimal(bytes.last() as nat)
    }
}

/// The bytes as a list in square brackets, as in `[1, 20, 255]`.
pub open spec fn byte_list(bytes: Seq<u8>) -> Seq<char> {
    "["@ + joined(bytes, ", "@) + "]"@
}

/// The parts, with a comma and a space between each two.
pub open spec fn listed(parts: Seq<Seq<char>>) -> Seq<char>
    decreases parts.len(),
{
    if parts.len() == 0 {
        Seq::empty()
    } else if parts.len() == 1 {
        parts[0]
    } else {
        listed(parts.drop_last()) + ", "@ + parts.last()
    }
}

/// `n` spaces.
pub open spec fn spaces(n: nat) -> Seq<char> {
    Seq::new(n, |i: int| ' ')
}

/// `s` with as many spaces behind it as make it `width` characters long; `s`
/// itself where it is that long already.
pub open spec fn padded(s: Seq<char>, width: nat) -> Seq<char> {
    if s.len() < width {
        s + spaces((width - s.len()) as nat)
    } else {
        s
    }
}

/// The text of one decimal digit.
fn digit_text(d: u64) -> (r: &'static str)
    requires
        d < 10,
    ensures
        r@ == seq![digit(d as nat)],
{
    proof {
        reveal_strlit("0");
        reveal_strlit("1");
        reveal_strlit("2");
        reveal_strlit("3");
        reveal_strlit("4");
        reveal_strlit("5");
        reveal_strlit("6");
        reveal_strlit("7");
        reveal_strlit("8");
        reveal_strlit("9");
    }
    match d {
        0 => "0",
        1 => "1",
        2 => "2",
        3 => "3",
        4 => "4",
        5 => "5",
        6 => "6",
        7 => "7",
        8 => "8",
        _ => "9",
    }
}

/// Writes a number in decimal.
pub fn decimal_text(n: u64) -> (r: String)
    ensures
        r@ == decimal(n as nat),
    decreases n,
{
    if n < 10 {
        digit_text(n).to_owned()
    } else {
        let mut r = decimal_text(n / 10);
        r.append(digit_text(n % 10));
        assert(r@ =~= decimal(n as nat));
        r
    }
}

/// Writes a number in decimal, with a minus sign where it is negative.
pub fn signed_decimal_text(n: i64) -> (r: String)
    ensures
        r@ == signed_decimal(n as int),
{
    if n < 0 {
        let magnitude: u64 = (-(n + 1)) as u64 + 1;
        let mut r = "-".to_owned();
        r.append(decimal_text(magnitude).as_str());
        r
    } else {
        decimal_text(n as u64)
    }
}

/// Writes the bytes in decimal, with `sep` between each two.
pub fn joined_text(bytes: &[u8], sep: &str) -> (r: String)
    ensures
        r@ == joined(bytes@, sep@),
{
    let mut r = String::new();
    for i in 0..bytes.len()
        invariant
            r@ == joined(bytes@.take(i as int), sep@),
    {
        if i > 0 {
            r.append(sep);
        }
        r.append(decimal_text(bytes[i] as u64).as_str());
        proof {
            let next = bytes@.take(i + 1);
            assert(next.drop_last() =~= bytes@.take(i as int));
            assert(r@ =~= joined(next, sep@));
        }
    }
    assert(bytes@.take(bytes.len() as int) =~= bytes@);
    r
}

/// Writes the bytes as a list in square brackets, as in `[1, 20, 255]`.
pub fn byte_list_text(bytes: &[u8]) -> (r: String)
    ensures
        r@ == byte_list(bytes@),
{
    let mut r = "[".to_owned();
    r.append(joined_text(bytes, ", ").as_str());
    r.append("]");
    r
}

/// Writes the parts with a comma and a space between each two.
pub fn listed_text(parts: &[&str]) -> (r: String)
    ensures
        r@ == listed(parts@.map_values(|part: &str| part@)),
{
    let ghost views = parts@.map_values(|part: &str| part@);
    let mut r = String::new();
    for i in 0..parts.len()
        invariant
            views == parts@.map_values(|part: &str| part@),
            r@ == listed(views.take(i as int)),
    {
        if i > 0 {
            r.append(", ");
        }
        r.append(parts[i]);
        proof {
            let next = views.take(i + 1);
            assert(next.drop_last() =~= views.take(i as int));
            assert(r@ =~= listed(next));
        }
    }
    assert(views.take(parts.len() as int) =~= views);
    r
}

/// Pads a text with spaces on the right to `width` characters.
pub fn padded_text(s: &str, width: usize) -> (r: String)
    ensures
        r@ == padded(s@, width as nat),
{
    let mut r = s.to_owned();
    let len: usize = s.unicode_len();
    if len < width {
        for i in len..width
            invariant
                len == s@.len(),
                r@ == s@ + spaces((i - len) as nat),
        {
            proof {
                reveal_strlit(" ");
            }
            r.append(" ");
            assert(r@ =~= s@ + spaces((i + 1 - len) as nat));
        }
    }
    r
}

/// A decimal grows by one digit on the right for each factor of ten: the text of
/// `10 * n + d` is that of `n` and then that of `d`. A number below ten is the one
/// character that stands as far behind `'0'` as the number says.
pub proof fn law_decimal_grows_by_digits(n: nat, d: nat)
    requires
        d < 10,
    ensures
        n > 0 ==> decimal(10 * n + d) == decimal(n) + decimal(d),
        decimal(d).len() == 1,
        decimal(d)[0] as int == '0' as int + d,
{
    if n > 0 {
        assert((10 * n + d) / 10 == n);
        assert((10 * n + d) % 10 == d);
        assert(decimal(10 * n + d) =~= decimal(n) + decimal(d));
    }
}

/// A number that is not negative is written as its decimal, and its opposite as
/// the same behind a minus sign.
pub proof fn law_signed_decimal_mirrors(n: nat)
    ensures
        signed_decimal(n as int) == decimal(n),
        n > 0 ==> signed_decimal(-n) == seq!['-'] + signed_decimal(n as int),
{
    reveal_strlit("-");
    assert("-"@ =~= seq!['-']);
}

/// Joining two lists puts the separator between what each is joined to. The empty
/// list is joined to nothing, and a single byte to its decimal.
pub proof fn law_joined_splits(a: Seq<u8>, b: Seq<u8>, sep: Seq<char>)
    ensures
        a.len() > 0 && b.len() > 0 ==> joined(a + b, sep) == joined(a, sep) + sep + joined(b, sep),
        joined(Seq::empty(), sep) == Seq::<char>::empty(),
        a.len() == 1 ==> joined(a, sep) == decimal(a[0] as nat),
    decreases b.len(),
{
    if a.len() > 0 && b.len() > 0 {
        let rest = b.drop_last();
        assert((a + b).drop_last() =~= a + rest);
        law_joined_splits(a, rest, sep);
        if b.len() == 1 {
            assert(a + rest =~= a);
            assert(joined(a + b, sep) =~= joined(a, sep) + sep + joined(b, sep));
        } else {
            assert(joined(a + b, sep) =~= joined(a, sep) + sep + joined(b, sep));
        }
    }
}

/// A byte list opens and closes with square brackets and holds, between them, the
/// decimals of all bytes with a comma and a space between.
pub proof fn law_byte_list_brackets_all_bytes(bytes: Seq<u8>)
    ensures
        byte_list(bytes).len() >= 2,
        byte_list(bytes).first() == '[',
        byte_list(bytes).last() == ']',
        byte_list(bytes).subrange(1, byte_list(bytes).len() - 1) == joined(bytes, seq![',', ' ']),
{
    reveal_strlit("[");
    reveal_strlit("]");
    reveal_strlit(", ");
    assert(", "@ =~= seq![',', ' ']);
    assert(byte_list(bytes).subrange(1, byte_list(bytes).len() - 1) =~= joined(bytes, ", "@));
}

/// Listing the parts of two lists puts a comma and a space between what each is
/// listed as. The empty list is nothing, and a single part itself.
pub proof fn law_listed_splits(a: Seq<Seq<char>>, b: Seq<Seq<char>>)
    ensures
        a.len() > 0 && b.len() > 0 ==> listed(a + b) == listed(a) + seq![',', ' '] + listed(b),
        listed(Seq::empty()) == Seq::<char>::empty(),
        a.len() == 1 ==> listed(a) == a[0],
    decreases b.len(),
{
    reveal_strlit(", ");
    assert(", "@ =~= seq![',', ' ']);
    if a.len() > 0 && b.len() > 0 {
        let rest = b.drop_last();
        assert((a + b).drop_last() =~= a + rest);
        law_listed_splits(a, rest);
        if b.len() == 1 {
            assert(a + rest =~= a);
        }
        assert(listed(a + b) =~= listed(a) + seq![',', ' '] + listed(b));
    }
}

/// A padded text begins with the text, has nothing but spaces behind it, and is as
/// long as the wider of the text and the width.
pub proof fn law_padded_keeps_text_and_fills_width(s: Seq<char>, width: nat)
    ensures
        s.is_prefix_of(padded(s, width)),
        padded(s, width).len() == (if s.len() < width {
            width
        } else {
            s.len()
        }),
        forall|i: int| s.len() <= i < padded(s, width).len() ==> padded(s, width)[i] == ' ',
{
    assert(padded(s, width).subrange(0, s.len() as int) =~= s);
}

} // verus!
