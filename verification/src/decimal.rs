//! Unsigned decimal numbers in ASCII text, as the two ingestors read them.

use vstd::prelude::*;

verus! {

/// Whether `byte` is one of the ASCII digits `0` to `9`.
pub open spec fn is_digit(byte: u8) -> bool {
    48 <= byte <= 57
}

/// Whether every byte of `text` is an ASCII digit.
pub open spec fn all_digits(text: Seq<u8>) -> bool {
    forall|i: int| 0 <= i < text.len() ==> is_digit(#[trigger] text[i])
}

/// The number of ASCII digits that `text` starts with.
pub open spec fn digit_run(text: Seq<u8>) -> nat
    decreases text.len(),
{
    if text.len() == 0 || !is_digit(text[0]) {
        0
    } else {
        1 + digit_run(text.skip(1))
    }
}

/// The number that a run of ASCII digits denotes in base ten.
pub open spec fn decimal_value(digits: Seq<u8>) -> nat
    decreases digits.len(),
{
    if digits.len() == 0 {
        0
    } else {
        10 * decimal_value(digits.drop_last()) + (digits.last() - 48) as nat
    }
}

/// The length of the `+` that a whole text may start with: one or zero.
pub open spec fn sign_len(text: Seq<u8>) -> int {
    if text.len() > 0 && text[0] == 43 {
        1
    } else {
        0
    }
}

/// What a whole text denotes as a `u8`: an optional `+`, then at least one
/// digit and nothing but digits, with a value of at most 255.
pub open spec fn strict_number(text: Seq<u8>) -> Option<u8> {
    let digits = text.skip(sign_len(text));
    if digits.len() > 0 && all_digits(digits) && decimal_value(digits) <= 255 {
        Some(decimal_value(digits) as u8)
    } else {
        None
    }
}

/// What the start of a text denotes as a `u8`: an optional sign, then the
/// longest run of digits; whatever follows the run is ignored.
///
/// Without a sign the run must not be empty. After `-` only the value zero
/// fits. A value above 255 does not fit.
pub open spec fn leading_number(text: Seq<u8>) -> Option<u8> {
    let signed = text.len() > 0 && (text[0] == 43 || text[0] == 45);
    let start: int = if signed {
        1
    } else {
        0
    };
    let run = digit_run(text.skip(start));
    let value = decimal_value(text.subrange(start, start + run));
    if !signed && run == 0 {
        None
    } else if signed && text[0] == 45 {
        if value == 0 {
            Some(0u8)
        } else {
            None
        }
    } else if value <= 255 {
        Some(value as u8)
    } else {
        None
    }
}

/// Reads the number at the start of `text` with `atoi::atoi::<u8>`.
///
/// Claimed of `atoi`: it accepts one leading `+` or `-`, consumes the digits
/// that follow up to the first other byte, and returns their value if it fits
/// in a `u8`; it returns `None` where nothing at all was consumed and where
/// the value does not fit. It never panics.
#[verifier::external_body]
pub(crate) fn atoi_u8(text: &[u8]) -> (res: Option<u8>)
    ensures
        res == leading_number(text@),
{
    atoi::atoi::<u8>(text)
}

/// A value never shrinks when digits are appended to it.
proof fn lemma_value_grows(digits: Seq<u8>, k: int)
    requires
        0 <= k <= digits.len(),
        all_digits(digits),
    ensures
        decimal_value(digits.take(k)) <= decimal_value(digits),
    decreases digits.len() - k,
{
    if k == digits.len() {
        assert(digits.take(k) =~= digits);
    } else {
        let longer = digits.take(k + 1);
        assert(longer.drop_last() =~= digits.take(k));
        assert(is_digit(longer.last()));
        lemma_value_grows(digits, k + 1);
    }
}

/// Reads a whole text as a `u8`.
pub fn parse_u8(text: &[u8]) -> (res: Option<u8>)
    ensures
        res == strict_number(text@),
{
    let len: usize = text.len();
    let start: usize = if len > 0 && text[0] == 43 {
        1
    } else {
        0
    };
    if start == len {
        return None;
    }
    let ghost digits = text@.skip(start as int);
    let mut value: u32 = 0;
    let mut i: usize = start;
    while i < len
        invariant
            start <= i <= len,
            len == text@.len(),
            start == sign_len(text@),
            digits == text@.skip(start as int),
            all_digits(digits.take(i - start)),
            value == decimal_value(digits.take(i - start)),
            value <= 255,
        decreases len - i,
    {
        let byte: u8 = text[i];
        let ghost before = digits.take(i - start);
        let ghost after = digits.take(i - start + 1);
        assert(digits[i - start] == byte);
        if byte < 48 || byte > 57 {
            assert(!all_digits(digits));
            return None;
        }
        assert(after.drop_last() =~= before);
        assert(after.last() == byte);
        assert(all_digits(after)) by {
            assert forall|j: int| 0 <= j < after.len() implies is_digit(#[trigger] after[j]) by {
                if j < before.len() {
                    assert(after[j] == before[j]);
                }
            }
        }
        let next: u32 = value * 10 + (byte - 48) as u32;
        if next > 255 {
            proof {
                if all_digits(digits) {
                    lemma_value_grows(digits, i - start + 1);
                }
            }
            return None;
        }
        value = next;
        i = i + 1;
    }
    assert(digits.take(i - start) =~= digits);
    Some(value as u8)
}

/// The digits of `n` in base ten, without leading zeros.
pub open spec fn decimal_digits(n: nat) -> Seq<u8>
    decreases n,
{
    if n < 10 {
        seq![(48 + n) as u8]
    } else {
        decimal_digits(n / 10).push((48 + n % 10) as u8)
    }
}

/// Appends the digits of `n` to `out`.
pub fn push_decimal(out: &mut Vec<u8>, n: u8)
    ensures
        final(out)@ == old(out)@ + decimal_digits(n as nat),
{
    reveal_with_fuel(decimal_digits, 3);
    if n >= 100 {
        out.push(48 + n / 100);
    }
    if n >= 10 {
        out.push(48 + (n / 10) % 10);
    }
    out.push(48 + n % 10);
    assert(final(out)@ =~= old(out)@ + decimal_digits(n as nat));
}

} // verus!
