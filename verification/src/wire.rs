//! Bytes on the wire: text frames and decimal numbers, written and read back.

use vstd::prelude::*;
use vstd::slice::slice_to_vec;
use vstd::string::{is_ascii, StrSliceExecFns, StringExecFns, StringSliceAdditionalSpecFns};

verus! {

/// The bytes of a text of ASCII characters, one byte each.
pub open spec fn ascii(text: Seq<char>) -> Seq<u8> {
    Seq::new(text.len(), |i: int| text[i] as u8)
}

/// The decimal digits of a number, most significant first, without leading zeros.
pub open spec fn digits(n: nat) -> Seq<u8>
    decreases n,
{
    if n < 10 {
        seq![(48 + n) as u8]
    } else {
        digits(n / 10).push((48 + n % 10) as u8)
    }
}

/// The number that a run of decimal digits stands for.
pub open spec fn number(text: Seq<u8>) -> nat
    decreases text.len(),
{
    if text.len() == 0 {
        0
    } else {
        number(text.drop_last()) * 10 + (text.last() - 48) as nat
    }
}

/// A run of bytes is a decimal number as `digits` writes it: digits only, at least
/// one, and no zero in front of others.
pub open spec fn is_decimal(text: Seq<u8>) -> bool {
    &&& text.len() > 0
    &&& forall|i: int| 0 <= i < text.len() ==> 48 <= #[trigger] text[i] <= 57
    &&& text.len() > 1 ==> text[0] != 48
}

/// The digits of a number are a decimal number, and they stand for that number.
pub proof fn lemma_digits_round_trip(n: nat)
    ensures
        is_decimal(digits(n)),
        number(digits(n)) == n,
        n >= 1 ==> digits(n)[0] != 48,
    decreases n,
{
    if n >= 10 {
        lemma_digits_round_trip(n / 10);
        assert(digits(n).drop_last() == digits(n / 10));
    } else {
        assert(number(digits(n).drop_last()) == 0);
    }
}

/// A decimal number stands for no less than any of its leading parts does.
pub proof fn lemma_number_grows(text: Seq<u8>, i: int)
    requires
        0 <= i <= text.len(),
        forall|k: int| 0 <= k < text.len() ==> 48 <= #[trigger] text[k] <= 57,
    ensures
        number(text.take(i)) <= number(text),
    decreases text.len() - i,
{
    if i < text.len() {
        lemma_number_grows(text, i + 1);
        assert(text.take(i + 1).drop_last() == text.take(i));
    } else {
        assert(text.take(i) == text);
    }
}

/// A decimal number is the digits of the number it stands for.
pub proof fn lemma_decimal_is_digits(text: Seq<u8>)
    requires
        is_decimal(text),
    ensures
        text == digits(number(text)),
    decreases text.len(),
{
    if text.len() == 1 {
        assert(number(text.drop_last()) == 0);
    } else {
        let front = text.drop_last();
        lemma_decimal_is_digits(front);
        lemma_front_is_positive(front);
    }
}

/// A decimal number that does not start with a zero stands for a positive number.
pub proof fn lemma_front_is_positive(text: Seq<u8>)
    requires
        text.len() > 0,
        forall|k: int| 0 <= k < text.len() ==> 48 <= #[trigger] text[k] <= 57,
        text[0] != 48,
    ensures
        number(text) >= 1,
    decreases text.len(),
{
    if text.len() > 1 {
        lemma_front_is_positive(text.drop_last());
    }
}

/// The bytes of a text: for a text of ASCII characters, one byte for each.
pub fn literal(text: &str) -> (bytes: Vec<u8>)
    ensures
        bytes@ == text.spec_bytes(),
        is_ascii(text) ==> bytes@ == ascii(text@),
{
    broadcast use vstd::string::is_ascii_spec_bytes;

    slice_to_vec(text.as_bytes())
}

/// Writes the decimal digits of `n` behind what `out` holds.
pub fn push_decimal(out: &mut Vec<u8>, n: u32)
    ensures
        final(out)@ == old(out)@ + digits(n as nat),
    decreases n,
{
    if n >= 10 {
        push_decimal(out, n / 10);
    }
    let digit: u8 = 48 + (n % 10) as u8;
    out.push(digit);
}

/// `bytes` holds `frame` from `at` onwards.
pub open spec fn holds_at(bytes: Seq<u8>, at: int, frame: Seq<u8>) -> bool {
    0 <= at && at + frame.len() <= bytes.len() && bytes.subrange(at, at + frame.len()) == frame
}

/// Tells whether `bytes` holds `frame` from `at` onwards.
pub fn matches_at(bytes: &[u8], at: usize, frame: &Vec<u8>) -> (found: bool)
    ensures
        found == holds_at(bytes@, at as int, frame@),
{
    if at > bytes.len() || frame.len() > bytes.len() - at {
        return false;
    }
    let mut i: usize = 0;
    while i < frame.len()
        invariant
            i <= frame.len(),
            at + frame.len() <= bytes.len(),
            forall|k: int| 0 <= k < i ==> bytes[at + k] == frame[k],
        decreases frame.len() - i,
    {
        if bytes[at + i] != frame[i] {
            return false;
        }
        i = i + 1;
    }
    proof {
        assert(bytes@.subrange(at as int, at + frame.len()) =~= frame@);
    }
    true
}

/// What the bytes from `from` up to `to` read as: a decimal number that fits 32 bits.
pub open spec fn decimal_at(bytes: Seq<u8>, from: int, to: int) -> Option<u32> {
    if 0 <= from <= to <= bytes.len() && is_decimal(bytes.subrange(from, to)) && number(
        bytes.subrange(from, to),
    ) <= u32::MAX {
        Some(number(bytes.subrange(from, to)) as u32)
    } else {
        None
    }
}

/// Reads the bytes from `from` up to `to` as a decimal number.
pub fn parse_decimal(bytes: &[u8], from: usize, to: usize) -> (n: Option<u32>)
    ensures
        n == decimal_at(bytes@, from as int, to as int),
{
    if from >= to || to > bytes.len() {
        return None;
    }
    if to - from > 1 && bytes[from] == 48 {
        return None;
    }
    let ghost text = bytes@.subrange(from as int, to as int);
    let mut value: u64 = 0;
    let mut i: usize = from;
    while i < to
        invariant
            from <= i <= to <= bytes.len(),
            text == bytes@.subrange(from as int, to as int),
            forall|k: int| 0 <= k < i - from ==> 48 <= #[trigger] text[k] <= 57,
            value == number(text.take(i - from)),
            value <= u32::MAX,
        decreases to - i,
    {
        let byte = bytes[i];
        if byte < 48 || byte > 57 {
            proof {
                assert(text[i - from] == byte);
            }
            return None;
        }
        proof {
            assert(text.take(i - from + 1).drop_last() == text.take(i - from));
        }
        value = value * 10 + (byte - 48) as u64;
        i = i + 1;
        if value > 0xffff_ffff {
            proof {
                if forall|k: int| 0 <= k < text.len() ==> 48 <= #[trigger] text[k] <= 57 {
                    lemma_number_grows(text, i - from);
                }
            }
            return None;
        }
    }
    proof {
        assert(text.take(to - from) == text);
    }
    Some(value as u32)
}

/// The character of a decimal digit.
pub open spec fn digit_char(d: nat) -> char {
    "0123456789"@[d as int]
}

/// A number in words: its decimal digits as text, most significant first.
pub open spec fn decimal_text(n: nat) -> Seq<char>
    decreases n,
{
    if n < 10 {
        seq![digit_char(n)]
    } else {
        decimal_text(n / 10).push(digit_char(n % 10))
    }
}

/// Writes `n` in decimal behind the text that `out` holds.
pub fn push_number(out: &mut String, n: usize)
    ensures
        final(out)@ == old(out)@ + decimal_text(n as nat),
    decreases n,
{
    if n >= 10 {
        push_number(out, n / 10);
    }
    proof {
        reveal_strlit("0123456789");
    }
    let d = n % 10;
    let digit = "0123456789".substring_ascii(d, d + 1);
    out.append(digit);
}

} // verus!
