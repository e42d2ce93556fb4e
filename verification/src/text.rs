//! Text encodings of the byte stream: lossy UTF-8 decoding and the decimal
//! and hex display renderings.

use vstd::prelude::*;

verus! {

/// The characters that lossy UTF-8 decoding yields for `bytes`: invalid
/// sequences become replacement characters, valid ones decode unchanged.
pub uninterp spec fn lossy_of(bytes: Seq<u8>) -> Seq<char>;

/// Relies on std's `String::from_utf8_lossy`: the result is a function of the
/// bytes alone, and bytes that are valid UTF-8 decode to themselves, so an
/// all-ASCII input yields exactly its bytes as characters.
#[verifier::external_body]
pub(crate) fn lossy_utf8(bytes: &[u8]) -> (r: String)
    ensures
        r@ == lossy_of(bytes@),
        (forall|i: int| 0 <= i < bytes@.len() ==> bytes@[i] < 128) ==> (r@.len() == bytes@.len()
            && forall|i: int| 0 <= i < bytes@.len() ==> r@[i] as int == bytes@[i] as int),
{
    String::from_utf8_lossy(bytes).into_owned()
}

/// The character for one decimal digit.
pub open spec fn dec_digit(d: u8) -> char {
    if d == 0 {
        '0'
    } else if d == 1 {
        '1'
    } else if d == 2 {
        '2'
    } else if d == 3 {
        '3'
    } else if d == 4 {
        '4'
    } else if d == 5 {
        '5'
    } else if d == 6 {
        '6'
    } else if d == 7 {
        '7'
    } else if d == 8 {
        '8'
    } else {
        '9'
    }
}

/// The character for one hex digit, lower case.
pub open spec fn hex_digit(d: u8) -> char {
    if d < 10 {
        dec_digit(d)
    } else if d == 10 {
        'a'
    } else if d == 11 {
        'b'
    } else if d == 12 {
        'c'
    } else if d == 13 {
        'd'
    } else if d == 14 {
        'e'
    } else {
        'f'
    }
}

/// The decimal writing of a byte, without leading zeros.
pub open spec fn dec_chars(b: u8) -> Seq<char> {
    if b < 10 {
        seq![dec_digit(b)]
    } else if b < 100 {
        seq![dec_digit(b / 10), dec_digit(b % 10)]
    } else {
        seq![dec_digit(b / 100), dec_digit((b / 10) % 10), dec_digit(b % 10)]
    }
}

/// The hex writing of a byte: `0x` and two lower-case digits.
pub open spec fn hex_chars(b: u8) -> Seq<char> {
    seq!['0', 'x', hex_digit(b / 16), hex_digit(b % 16)]
}

/// `parts` concatenated with `sep` between neighbours.
pub open spec fn join_parts(parts: Seq<Seq<char>>, sep: Seq<char>) -> Seq<char>
    decreases parts.len(),
{
    if parts.len() == 0 {
        Seq::empty()
    } else if parts.len() == 1 {
        parts[0]
    } else {
        join_parts(parts.drop_last(), sep) + sep + parts.last()
    }
}

/// Each byte written in decimal, space-joined.
pub open spec fn decimal_render(bytes: Seq<u8>) -> Seq<char> {
    join_parts(bytes.map_values(|b: u8| dec_chars(b)), " "@)
}

/// Each byte written as `0x` and two hex digits, space-joined.
pub open spec fn hex_render(bytes: Seq<u8>) -> Seq<char> {
    join_parts(bytes.map_values(|b: u8| hex_chars(b)), " "@)
}

fn dec_digit_str(d: u8) -> (r: &'static str)
    requires
        d < 10,
    ensures
        r@ == seq![dec_digit(d)],
{
    proof {
        reveal_strlit("0");
        reveal_strlit("1");
        reveal_strlit("2");
        reveal_strlit("3");
        reveal_strlit("4");
        reveal_strlit("5");
        reveal_strlit("6");
        reveal_strlit("7");
        reveal_strlit("8");
        reveal_strlit("9");
    }
    let r: &'static str = if d == 0 {
        "0"
    } else if d == 1 {
        "1"
    } else if d == 2 {
        "2"
    } else if d == 3 {
        "3"
    } else if d == 4 {
        "4"
    } else if d == 5 {
        "5"
    } else if d == 6 {
        "6"
    } else if d == 7 {
        "7"
    } else if d == 8 {
        "8"
    } else {
        "9"
    };
    proof {
        assert(r@ =~= seq![dec_digit(d)]);
    }
    r
}

fn hex_digit_str(d: u8) -> (r: &'static str)
    requires
        d < 16,
    ensures
        r@ == seq![hex_digit(d)],
{
    if d < 10 {
        dec_digit_str(d)
    } else {
        proof {
            reveal_strlit("a");
            reveal_strlit("b");
            reveal_strlit("c");
            reveal_strlit("d");
            reveal_strlit("e");
            reveal_strlit("f");
        }
        let r: &'static str = if d == 10 {
            "a"
        } else if d == 11 {
            "b"
        } else if d == 12 {
            "c"
        } else if d == 13 {
            "d"
        } else if d == 14 {
            "e"
        } else {
            "f"
        };
        proof {
            assert(r@ =~= seq![hex_digit(d)]);
        }
        r
    }
}

/// How one more part extends a join: the separator is written before every
/// part but the first.
pub proof fn lemma_join_step(parts: Seq<Seq<char>>, sep: Seq<char>, i: int)
    requires
        0 <= i < parts.len(),
    ensures
        i == 0 ==> join_parts(parts.take(1), sep) == parts[0],
        i > 0 ==> join_parts(parts.take(i + 1), sep) == join_parts(parts.take(i), sep) + sep
            + parts[i],
{
    if i == 0 {
        assert(parts.take(1).len() == 1);
        assert(parts.take(1)[0] == parts[0]);
    } else {
        assert(parts.take(i + 1).drop_last() =~= parts.take(i));
        assert(parts.take(i + 1).last() == parts[i]);
    }
}

/// Appends the decimal digits of `b` to `out`.
fn push_dec_byte(out: &mut String, b: u8)
    ensures
        final(out)@ == old(out)@ + dec_chars(b),
{
    if b >= 100 {
        out.append(dec_digit_str(b / 100));
    }
    if b >= 10 {
        out.append(dec_digit_str((b / 10) % 10));
    }
    out.append(dec_digit_str(b % 10));
    proof {
        assert(final(out)@ =~= old(out)@ + dec_chars(b));
    }
}

/// Appends `0x` and the two hex digits of `b` to `out`.
fn push_hex_byte(out: &mut String, b: u8)
    ensures
        final(out)@ == old(out)@ + hex_chars(b),
{
    proof {
        reveal_strlit("0x");
    }
    out.append("0x");
    out.append(hex_digit_str(b / 16));
    out.append(hex_digit_str(b % 16));
    proof {
        assert(final(out)@ =~= old(out)@ + hex_chars(b));
    }
}

/// Character-for-character equality of two string slices.
pub fn str_eq(a: &str, b: &str) -> (r: bool)
    ensures
        r == (a@ == b@),
{
    let an = a.unicode_len();
    let bn = b.unicode_len();
    if an != bn {
        return false;
    }
    let mut i: usize = 0;
    while i < an
        invariant
            an == a@.len(),
            an == b@.len(),
            i <= an,
            forall|j: int| 0 <= j < i ==> a@[j] == b@[j],
        decreases an - i,
    {
        if a.get_char(i) != b.get_char(i) {
            return false;
        }
        i += 1;
    }
    proof {
        assert(a@ =~= b@);
    }
    true
}

/// Each byte of `bytes` written in decimal, space-joined.
pub fn render_decimal(bytes: &[u8]) -> (r: String)
    ensures
        r@ == decimal_render(bytes@),
{
    let ghost parts: Seq<Seq<char>> = bytes@.map_values(|b: u8| dec_chars(b));
    let mut r = String::new();
    let mut i: usize = 0;
    while i < bytes.len()
        invariant
            i <= bytes.len(),
            parts == bytes@.map_values(|b: u8| dec_chars(b)),
            r@ == join_parts(parts.take(i as int), " "@),
        decreases bytes.len() - i,
    {
        if i > 0 {
            r.append(" ");
        }
        push_dec_byte(&mut r, bytes[i]);
        proof {
            lemma_join_step(parts, " "@, i as int);
        }
        i += 1;
    }
    proof {
        assert(parts.take(bytes@.len() as int) =~= parts);
    }
    r
}

/// Each byte of `bytes` written as `0x` and two hex digits, space-joined.
pub fn render_hex(bytes: &[u8]) -> (r: String)
    ensures
        r@ == hex_render(bytes@),
{
    let ghost parts: Seq<Seq<char>> = bytes@.map_values(|b: u8| hex_chars(b));
    let mut r = String::new();
    let mut i: usize = 0;
    while i < bytes.len()
        invariant
            i <= bytes.len(),
            parts == bytes@.map_values(|b: u8| hex_chars(b)),
            r@ == join_parts(parts.take(i as int), " "@),
        decreases bytes.len() - i,
    {
        if i > 0 {
            r.append(" ");
        }
        push_hex_byte(&mut r, bytes[i]);
        proof {
            lemma_join_step(parts, " "@, i as int);
        }
        i += 1;
    }
    proof {
        assert(parts.take(bytes@.len() as int) =~= parts);
    }
    r
}

} // verus!
