//! Text: decimal numbers written into names and messages and read back,
//! comparison, and white space.

use vstd::prelude::*;
use vstd::slice::slice_subrange;
use vstd::string::{StringExecFns, StringSliceAdditionalSpecFns};
use vstd::utf8::{
    encode_scalar, encode_utf8, encode_utf8_decode_utf8, is_ascii_chars,
    is_ascii_chars_encode_utf8,
};

verus! {

/// Whether `c` has the Unicode property `White_Space`, by which
/// `char::is_whitespace`, `str::trim` and `str::split_whitespace` go.
pub uninterp spec fn is_white_space(c: char) -> bool;

/// The character of one decimal digit.
pub open spec fn digit(d: nat) -> char {
    if d == 0 {
        '0'
    } else if d == 1 {
        '1'
    } else if d == 2 {
        '2'
    } else if d == 3 {
        '3'
    } else if d == 4 {
        '4'
    } else if d == 5 {
        '5'
    } else if d == 6 {
        '6'
    } else if d == 7 {
        '7'
    } else if d == 8 {
        '8'
    } else {
        '9'
    }
}

/// The decimal text of a natural number, without leading zeros.
pub open spec fn decimal(n: nat) -> Seq<char>
    decreases n,
{
    if n < 10 {
        seq![digit(n)]
    } else {
        decimal(n / 10).push(digit(n % 10))
    }
}

/// The decimal text of an integer, with `-` before a negative one.
pub open spec fn signed_decimal(n: int) -> Seq<char> {
    if n < 0 {
        seq!['-'] + decimal((-n) as nat)
    } else {
        decimal(n as nat)
    }
}

/// Whether a byte is an ASCII decimal digit.
pub open spec fn is_digit(b: u8) -> bool {
    0x30 <= b <= 0x39
}

/// Whether every byte is an ASCII decimal digit.
pub open spec fn all_digits(text: Seq<u8>) -> bool {
    forall|i: int| 0 <= i < text.len() ==> is_digit(#[trigger] text[i])
}

/// The number that a run of decimal digits writes.
pub open spec fn digits_value(digits: Seq<u8>) -> nat
    decreases digits.len(),
{
    if digits.len() == 0 {
        0
    } else {
        (digits_value(digits.drop_last()) * 10 + (digits.last() - 0x30)) as nat
    }
}

/// The number that a run of digits writes, if it is a run of at least one
/// digit that writes no more than `limit`.
pub open spec fn bounded_value(digits: Seq<u8>, limit: nat) -> Option<nat> {
    if digits.len() > 0 && all_digits(digits) && digits_value(digits) <= limit {
        Some(digits_value(digits))
    } else {
        None
    }
}

/// The number that a text writes, read as an unsigned 32-bit integer: decimal
/// digits, at least one, with an optional `+` before them, and a value that
/// fits. Every other text writes none.
pub open spec fn parsed_u32(text: Seq<u8>) -> Option<u32> {
    let digits = if text.len() > 0 && text[0] == 0x2b {
        text.skip(1)
    } else {
        text
    };
    match bounded_value(digits, u32::MAX as nat) {
        Some(value) => Some(value as u32),
        None => None,
    }
}

/// The number that a text writes, read as a signed 32-bit integer: decimal
/// digits, at least one, with an optional `+` or `-` before them, and a value
/// that fits. Every other text writes none.
pub open spec fn parsed_i32(text: Seq<u8>) -> Option<i32> {
    if text.len() > 0 && text[0] == 0x2d {
        match bounded_value(text.skip(1), 0x8000_0000) {
            Some(value) => Some((-value) as i32),
            None => None,
        }
    } else {
        let digits = if text.len() > 0 && text[0] == 0x2b {
            text.skip(1)
        } else {
            text
        };
        match bounded_value(digits, 0x7fff_ffff) {
            Some(value) => Some(value as i32),
            None => None,
        }
    }
}

/// A longer run of digits writes no smaller number than its beginning.
pub proof fn lemma_digits_value_grows(digits: Seq<u8>, k: int)
    requires
        0 <= k <= digits.len(),
        all_digits(digits),
    ensures
        digits_value(digits.take(k)) <= digits_value(digits),
    decreases digits.len() - k,
{
    if k == digits.len() {
        assert(digits.take(k) =~= digits);
    } else {
        let front = digits.drop_last();
        assert(front.take(k) =~= digits.take(k));
        assert forall|i: int| 0 <= i < front.len() implies is_digit(#[trigger] front[i]) by {
            assert(front[i] == digits[i]);
        }
        lemma_digits_value_grows(front, k);
        assert(is_digit(digits[digits.len() - 1]));
    }
}

/// The bytes of two texts in a row are the bytes of the first, then those of
/// the second.
pub proof fn lemma_encode_utf8_add(a: Seq<char>, b: Seq<char>)
    ensures
        encode_utf8(a + b) == encode_utf8(a) + encode_utf8(b),
    decreases a.len(),
{
    if a.len() == 0 {
        assert(a + b =~= b);
        assert(encode_utf8(a) + encode_utf8(b) =~= encode_utf8(b));
    } else {
        assert((a + b).drop_first() =~= a.drop_first() + b);
        assert((a + b)[0] == a[0]);
        lemma_encode_utf8_add(a.drop_first(), b);
        assert(encode_scalar(a[0] as u32) + (encode_utf8(a.drop_first()) + encode_utf8(b))
            =~= (encode_scalar(a[0] as u32) + encode_utf8(a.drop_first())) + encode_utf8(b));
    }
}

/// The decimal text of a number is made of ASCII digits.
pub proof fn lemma_decimal_is_ascii(n: nat)
    ensures
        is_ascii_chars(decimal(n)),
        decimal(n).len() > 0,
        forall|i: int| 0 <= i < decimal(n).len() ==> is_digit(#[trigger] decimal(n)[i] as u8),
    decreases n,
{
    if n >= 10 {
        lemma_decimal_is_ascii(n / 10);
        let front = decimal(n / 10);
        assert forall|i: int| 0 <= i < decimal(n).len() implies '\0' <= #[trigger] decimal(n)[i]
            <= '\u{7f}' && is_digit(decimal(n)[i] as u8) by {
            if i < front.len() {
                assert(decimal(n)[i] == front[i]);
            }
        }
    }
}

/// The bytes of the decimal text of a number are digits that write the number.
pub proof fn lemma_decimal_bytes(n: nat)
    ensures
        encode_utf8(decimal(n)).len() == decimal(n).len(),
        encode_utf8(decimal(n)).len() > 0,
        all_digits(encode_utf8(decimal(n))),
        digits_value(encode_utf8(decimal(n))) == n,
    decreases n,
{
    let text = decimal(n);
    let bytes = encode_utf8(text);
    lemma_decimal_is_ascii(n);
    is_ascii_chars_encode_utf8(text);
    assert forall|i: int| 0 <= i < bytes.len() implies is_digit(#[trigger] bytes[i]) by {
        assert(bytes[i] == text[i] as u8);
    }
    if n < 10 {
        assert(bytes.drop_last() =~= Seq::<u8>::empty());
        assert(bytes.last() == text[0] as u8);
        assert(digits_value(bytes.drop_last()) == 0);
    } else {
        let front = decimal(n / 10);
        let front_bytes = encode_utf8(front);
        lemma_decimal_bytes(n / 10);
        lemma_decimal_is_ascii(n / 10);
        is_ascii_chars_encode_utf8(front);
        assert(bytes.drop_last() =~= front_bytes) by {
            assert forall|i: int| 0 <= i < front_bytes.len() implies bytes.drop_last()[i]
                == front_bytes[i] by {
                assert(bytes[i] == text[i] as u8);
                assert(front_bytes[i] == front[i] as u8);
                assert(text[i] == front[i]);
            }
        }
        assert(bytes.last() == text[text.len() - 1] as u8);
        assert(text[text.len() - 1] == digit(n % 10));
    }
}

/// Reading the decimal text of a number that fits gives the number back.
pub proof fn lemma_parse_decimal(n: nat)
    requires
        n <= u32::MAX,
    ensures
        parsed_u32(encode_utf8(decimal(n))) == Some(n as u32),
{
    lemma_decimal_bytes(n);
    let bytes = encode_utf8(decimal(n));
    assert(is_digit(bytes[0]));
}

/// The text of one digit.
fn digit_str(d: u64) -> (text: &'static str)
    requires
        d < 10,
    ensures
        text@ == seq![digit(d as nat)],
{
    proof {
        reveal_strlit("0");
        reveal_strlit("1");
        reveal_strlit("2");
        reveal_strlit("3");
        reveal_strlit("4");
        reveal_strlit("5");
        reveal_strlit("6");
        reveal_strlit("7");
        reveal_strlit("8");
        reveal_strlit("9");
    }
    let text = if d == 0 {
        "0"
    } else if d == 1 {
        "1"
    } else if d == 2 {
        "2"
    } else if d == 3 {
        "3"
    } else if d == 4 {
        "4"
    } else if d == 5 {
        "5"
    } else if d == 6 {
        "6"
    } else if d == 7 {
        "7"
    } else if d == 8 {
        "8"
    } else {
        "9"
    };
    assert(text@ =~= seq![digit(d as nat)]);
    text
}

/// Appends the decimal text of `n`.
pub fn push_decimal(out: &mut String, n: u64)
    ensures
        final(out)@ == old(out)@ + decimal(n as nat),
    decreases n,
{
    if n >= 10 {
        push_decimal(out, n / 10);
    }
    out.append(digit_str(n % 10));
    assert(out@ =~= old(out)@ + decimal(n as nat));
}

/// Appends the decimal text of `n`, with `-` before a negative one.
pub fn push_signed_decimal(out: &mut String, n: i64)
    ensures
        final(out)@ == old(out)@ + signed_decimal(n as int),
{
    if n < 0 {
        proof {
            reveal_strlit("-");
        }
        out.append("-");
        let magnitude: i128 = -(n as i128);
        push_decimal(out, magnitude as u64);
        assert(out@ =~= old(out)@ + signed_decimal(n as int));
    } else {
        push_decimal(out, n as u64);
    }
}

/// Reads a run of digits that writes no more than `limit`.
fn parse_digits(digits: &[u8], limit: u64) -> (number: Option<u64>)
    requires
        limit <= 0x1_0000_0000,
    ensures
        number == match bounded_value(digits@, limit as nat) {
            Some(value) => Some(value as u64),
            None => None,
        },
{
    if digits.len() == 0 {
        return None;
    }
    let mut value: u64 = 0;
    let mut i: usize = 0;
    while i < digits.len()
        invariant
            i <= digits@.len(),
            digits@.len() > 0,
            limit <= 0x1_0000_0000,
            forall|k: int| 0 <= k < i ==> is_digit(#[trigger] digits@[k]),
            value == digits_value(digits@.take(i as int)),
            value <= limit,
        decreases digits@.len() - i,
    {
        let b = digits[i];
        if b < 0x30 || b > 0x39 {
            assert(!is_digit(digits@[i as int]));
            return None;
        }
        let ghost front = digits@.take(i + 1);
        assert(front.drop_last() =~= digits@.take(i as int));
        assert(front.last() == b);
        value = value * 10 + (b - 0x30) as u64;
        assert(value == digits_value(front));
        if value > limit {
            proof {
                if all_digits(digits@) {
                    lemma_digits_value_grows(digits@, i + 1);
                }
            }
            return None;
        }
        i += 1;
    }
    assert(digits@.take(i as int) =~= digits@);
    Some(value)
}

/// What stands behind the first byte of `text`.
fn behind_first(text: &[u8]) -> (rest: &[u8])
    requires
        text@.len() > 0,
    ensures
        rest@ == text@.skip(1),
{
    let rest = slice_subrange(text, 1, text.len());
    assert(rest@ =~= text@.skip(1));
    rest
}

/// Reads an unsigned 32-bit integer as `str::parse::<u32>` reads it.
pub fn parse_u32(text: &[u8]) -> (number: Option<u32>)
    ensures
        number == parsed_u32(text@),
{
    let digits = if text.len() > 0 && text[0] == 0x2b {
        behind_first(text)
    } else {
        text
    };
    match parse_digits(digits, 0xffff_ffff) {
        Some(value) => Some(value as u32),
        None => None,
    }
}

/// Reads a signed 32-bit integer as `str::parse::<i32>` reads it.
pub fn parse_i32(text: &[u8]) -> (number: Option<i32>)
    ensures
        number == parsed_i32(text@),
{
    if text.len() > 0 && text[0] == 0x2d {
        match parse_digits(behind_first(text), 0x8000_0000) {
            Some(value) => Some((-(value as i64)) as i32),
            None => None,
        }
    } else {
        let digits = if text.len() > 0 && text[0] == 0x2b {
            behind_first(text)
        } else {
            text
        };
        match parse_digits(digits, 0x7fff_ffff) {
            Some(value) => Some(value as i32),
            None => None,
        }
    }
}

/// Whether two texts are the same.
pub fn same_text(a: &str, b: &str) -> (same: bool)
    ensures
        same == (a@ == b@),
{
    let left = a.as_bytes();
    let right = b.as_bytes();
    proof {
        encode_utf8_decode_utf8(a@);
        encode_utf8_decode_utf8(b@);
    }
    if left.len() != right.len() {
        return false;
    }
    let mut i: usize = 0;
    while i < left.len()
        invariant
            left@ == a.spec_bytes(),
            right@ == b.spec_bytes(),
            left@.len() == right@.len(),
            i <= left@.len(),
            forall|k: int| 0 <= k < i ==> #[trigger] left@[k] == right@[k],
        decreases left@.len() - i,
    {
        if left[i] != right[i] {
            return false;
        }
        i += 1;
    }
    assert(left@ =~= right@);
    true
}

} // verus!
