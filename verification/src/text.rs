//! Small text functions that the bots' messages are made with.

use vstd::prelude::*;
use vstd::string::*;

verus! {

/// `text` with every occurrence of `from` replaced by `to`, found from left
/// to right, an occurrence starting only behind the one before it.
pub open spec fn replace_all(text: Seq<char>, from: Seq<char>, to: Seq<char>) -> Seq<char>
    recommends
        from.len() > 0,
    decreases text.len(),
{
    if from.len() == 0 || text.len() < from.len() {
        text
    } else if text.subrange(0, from.len() as int) == from {
        to + replace_all(text.subrange(from.len() as int, text.len() as int), from, to)
    } else {
        seq![text[0]] + replace_all(text.subrange(1, text.len() as int), from, to)
    }
}

/// std's `str::replace` with a string as the pattern.
///
/// The contract is std's documentation written out: the matches are the
/// disjoint ones that a search from the left finds, and each is replaced.
/// The empty pattern, which matches between any two characters, is left out.
#[verifier::external_body]
pub(crate) fn replace_text(text: &str, from: &str, to: &str) -> (r: String)
    requires
        from@.len() > 0,
    ensures
        r@ == replace_all(text@, from@, to@),
{
    text.replace(from, to)
}

/// The placeholder of an argument: its name in braces.
pub open spec fn placeholder_of(name: Seq<char>) -> Seq<char> {
    seq!['{'] + name + seq!['}']
}

/// The placeholder that stands for an argument in a message.
pub fn placeholder(name: &str) -> (r: String)
    ensures
        r@ == placeholder_of(name@),
{
    proof {
        reveal_strlit("{");
        reveal_strlit("}");
    }
    let mut out = String::from_str("{");
    assert(out@ =~= seq!['{']);
    out.append(name);
    out.append("}");
    assert("}"@ =~= seq!['}']);
    out
}

/// `n` zeros.
pub open spec fn zeros(n: nat) -> Seq<char> {
    Seq::new(n, |i: int| '0')
}

/// A text padded with zeros on the left up to a width in bytes; a text
/// that is as wide or wider stays as it is.
pub open spec fn padded(value: Seq<char>, width: usize) -> Seq<char> {
    let len = vstd::utf8::encode_utf8(value).len() as usize;
    if len < width {
        zeros((width - len) as nat) + value
    } else {
        value
    }
}

/// Pads a text with zeros on the left until it is `width` bytes long.
pub fn pad_left(value: &str, width: usize) -> (r: String)
    ensures
        r@ == padded(value@, width),
{
    proof {
        reveal_strlit("0");
    }
    let len = value.len();
    let mut out = String::new();
    let mut i: usize = len;
    assert(out@ =~= zeros(0));
    while i < width
        invariant
            len == value.len(),
            len <= i,
            i <= width || i == len,
            out@ == zeros((i - len) as nat),
            "0"@ == seq!['0'],
        decreases width - i,
    {
        out.append("0");
        i += 1;
        assert(out@ =~= zeros((i - len) as nat));
    }
    out.append(value);
    assert(out@ =~= padded(value@, width));
    out
}

/// The character of a decimal digit.
pub open spec fn digit_char(d: int) -> char
    recommends
        0 <= d < 10,
{
    if d == 0 {
        '0'
    } else if d == 1 {
        '1'
    } else if d == 2 {
        '2'
    } else if d == 3 {
        '3'
    } else if d == 4 {
        '4'
    } else if d == 5 {
        '5'
    } else if d == 6 {
        '6'
    } else if d == 7 {
        '7'
    } else if d == 8 {
        '8'
    } else {
        '9'
    }
}

/// A number below 256 in decimal, without leading zeros.
pub open spec fn decimal_text(n: u8) -> Seq<char> {
    if n < 10 {
        seq![digit_char(n as int)]
    } else if n < 100 {
        seq![digit_char(n as int / 10), digit_char(n as int % 10)]
    } else {
        seq![digit_char(n as int / 100), digit_char(n as int / 10 % 10), digit_char(n as int % 10)]
    }
}

fn digit_text(d: u8) -> (r: &'static str)
    requires
        d < 10,
    ensures
        r@ == seq![digit_char(d as int)],
{
    proof {
        reveal_strlit("0");
        reveal_strlit("1");
        reveal_strlit("2");
        reveal_strlit("3");
        reveal_strlit("4");
        reveal_strlit("5");
        reveal_strlit("6");
        reveal_strlit("7");
        reveal_strlit("8");
        reveal_strlit("9");
    }
    let r = if d == 0 {
        "0"
    } else if d == 1 {
        "1"
    } else if d == 2 {
        "2"
    } else if d == 3 {
        "3"
    } else if d == 4 {
        "4"
    } else if d == 5 {
        "5"
    } else if d == 6 {
        "6"
    } else if d == 7 {
        "7"
    } else if d == 8 {
        "8"
    } else {
        "9"
    };
    assert(r@ =~= seq![digit_char(d as int)]);
    r
}

/// Writes a number below 256 in decimal.
pub fn decimal(n: u8) -> (r: String)
    ensures
        r@ == decimal_text(n),
{
    let mut out = String::new();
    if n >= 100 {
        out.append(digit_text(n / 100));
    }
    if n >= 10 {
        out.append(digit_text(n / 10 % 10));
    }
    out.append(digit_text(n % 10));
    assert(out@ =~= decimal_text(n));
    out
}

/// Whether a byte is a decimal digit.
pub open spec fn is_digit(b: u8) -> bool {
    48 <= b <= 57
}

/// The number that a string of digits writes; `None` where a byte is no digit.
pub open spec fn digits_value(digits: Seq<u8>) -> Option<int>
    decreases digits.len(),
{
    if digits.len() == 0 {
        Some(0)
    } else {
        match digits_value(digits.drop_last()) {
            Some(v) => if is_digit(digits.last()) {
                Some(v * 10 + (digits.last() - 48))
            } else {
                None
            },
            None => None,
        }
    }
}

/// The number below 256 that a text writes in decimal: digits, at least
/// one, after at most one plus sign; `None` for any other text.
pub open spec fn parsed_u8(text: Seq<u8>) -> Option<u8> {
    let digits = if text.len() > 0 && text[0] == 43 {
        text.subrange(1, text.len() as int)
    } else {
        text
    };
    if digits.len() == 0 {
        None
    } else {
        match digits_value(digits) {
            Some(v) => if v <= 255 {
                Some(v as u8)
            } else {
                None
            },
            None => None,
        }
    }
}

/// Longer strings of digits write larger numbers, and a string with a
/// byte that is no digit stays without a value however it goes on.
proof fn lemma_digits_grow(digits: Seq<u8>, n: int)
    requires
        0 <= n <= digits.len(),
    ensures
        digits_value(digits.take(n)) is None ==> digits_value(digits) is None,
        digits_value(digits) matches Some(v) ==> digits_value(digits.take(n)) matches Some(w)
            && 0 <= w <= v,
    decreases digits.len() - n,
{
    if n < digits.len() {
        digits.lemma_take_succ_push(n);
        assert(digits.take(n + 1).drop_last() =~= digits.take(n));
        lemma_digits_grow(digits, n + 1);
        lemma_digits_value_nonnegative(digits.take(n));
    } else {
        digits.lemma_take_len();
        lemma_digits_value_nonnegative(digits);
    }
}

proof fn lemma_digits_value_nonnegative(digits: Seq<u8>)
    ensures
        digits_value(digits) matches Some(v) ==> v >= 0,
    decreases digits.len(),
{
    if digits.len() > 0 {
        lemma_digits_value_nonnegative(digits.drop_last());
    }
}

/// Reads a number below 256 written in decimal.
pub fn parse_u8(text: &str) -> (r: Option<u8>)
    ensures
        r == parsed_u8(text.spec_bytes()),
{
    let bytes = text.as_bytes();
    let start: usize = if bytes.len() > 0 && bytes[0] == 43 {
        1
    } else {
        0
    };
    if start == bytes.len() {
        return None;
    }
    let ghost digits = bytes@.subrange(start as int, bytes@.len() as int);
    assert(start == 0 ==> digits =~= bytes@);
    let mut value: u32 = 0;
    let mut i: usize = start;
    proof {
        assert(digits.take(0) =~= Seq::<u8>::empty());
    }
    while i < bytes.len()
        invariant
            start <= i <= bytes@.len(),
            start < bytes@.len(),
            bytes@ == text.spec_bytes(),
            start == (if bytes@.len() > 0 && bytes@[0] == 43 {
                1usize
            } else {
                0usize
            }),
            digits == bytes@.subrange(start as int, bytes@.len() as int),
            start == 0 ==> digits == bytes@,
            digits_value(digits.take(i - start)) == Some(value as int),
            value <= 255,
        decreases bytes@.len() - i,
    {
        let b = bytes[i];
        proof {
            digits.lemma_take_succ_push(i - start);
            assert(digits.take(i - start + 1).drop_last() =~= digits.take(i - start));
            assert(digits.take(i - start + 1).last() == b);
        }
        if b < 48 || b > 57 {
            proof {
                lemma_digits_grow(digits, i - start + 1);
            }
            return None;
        }
        value = value * 10 + (b - 48) as u32;
        if value > 255 {
            proof {
                lemma_digits_grow(digits, i - start + 1);
            }
            return None;
        }
        i += 1;
    }
    proof {
        digits.lemma_take_len();
    }
    Some(value as u8)
}

} // verus!
