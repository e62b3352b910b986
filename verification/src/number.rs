//! Syntax of decimal number literals shared by the expression compiler and
//! the numeric Settings fields.
//!
//! A literal is a decimal mantissa (integer digits, an optional `.`, and
//! fractional digits, with at least one digit in all) followed by an
//! optional exponent: `e` or `E`, an optional sign, and one or more digits
//! whose value is at most 38. Converting the digits to a binary
//! floating-point value is not done here.
use vstd::prelude::*;

verus! {

/// Largest accepted decimal exponent.
pub const MAX_DECIMAL_EXPONENT: u16 = 38;

/// ASCII `0` through `9`.
pub open spec fn is_digit(byte: u8) -> bool {
    48 <= byte <= 57
}

/// First index at or after `i` that does not hold a digit (or the length).
pub open spec fn digit_run_end(s: Seq<u8>, i: int) -> int
    decreases s.len() - i,
{
    if 0 <= i < s.len() && is_digit(s[i]) {
        digit_run_end(s, i + 1)
    } else {
        i
    }
}

/// Value of the decimal digits `s[i..j]`.
pub open spec fn digits_value(s: Seq<u8>, i: int, j: int) -> nat
    decreases j - i,
{
    if j <= i {
        0
    } else {
        digits_value(s, i, j - 1) * 10 + (s[j - 1] - 48) as nat
    }
}

/// End of the mantissa that starts at `start`: its integer digits, then a
/// `.` and fractional digits when a `.` follows.
pub open spec fn mantissa_end(s: Seq<u8>, start: int) -> int {
    let integer_end = digit_run_end(s, start);
    if integer_end < s.len() && s[integer_end] == 46u8 {
        digit_run_end(s, integer_end + 1)
    } else {
        integer_end
    }
}

/// Number of digits in the mantissa that starts at `start`.
pub open spec fn mantissa_digits(s: Seq<u8>, start: int) -> int {
    let integer_end = digit_run_end(s, start);
    if integer_end < s.len() && s[integer_end] == 46u8 {
        (integer_end - start) + (digit_run_end(s, integer_end + 1) - (integer_end + 1))
    } else {
        integer_end - start
    }
}

/// End of the literal that starts at `start`, or `None` when the text there
/// is not a valid literal. Everything after the returned end is left for the
/// caller to interpret.
pub open spec fn literal_end(s: Seq<u8>, start: int) -> Option<int> {
    let m = mantissa_end(s, start);
    if mantissa_digits(s, start) == 0 {
        None
    } else if m < s.len() && (s[m] == 101u8 || s[m] == 69u8) {
        let digits_start = if m + 1 < s.len() && (s[m + 1] == 43u8 || s[m + 1] == 45u8) {
            m + 2
        } else {
            m + 1
        };
        let exponent_end = digit_run_end(s, digits_start);
        if exponent_end == digits_start || digits_value(s, digits_start, exponent_end)
            > MAX_DECIMAL_EXPONENT {
            None
        } else {
            Some(exponent_end)
        }
    } else {
        Some(m)
    }
}

/// A complete signed field value: an optional `+` or `-` followed by one
/// literal that reaches the end of the text.
pub open spec fn is_signed_literal(s: Seq<u8>) -> bool {
    let start: int = if s.len() > 0 && (s[0] == 43u8 || s[0] == 45u8) {
        1
    } else {
        0
    };
    s.len() > 0 && literal_end(s, start) == Some(s.len() as int)
}

/// A run of digits starting at `i` stays within the text, holds only
/// digits, and stops at the first byte that is not one.
pub proof fn digit_run_end_bounds(s: Seq<u8>, i: int)
    requires
        0 <= i <= s.len(),
    ensures
        i <= digit_run_end(s, i) <= s.len(),
        forall|k: int| i <= k < digit_run_end(s, i) ==> is_digit(#[trigger] s[k]),
        digit_run_end(s, i) < s.len() ==> !is_digit(s[digit_run_end(s, i)]),
    decreases s.len() - i,
{
    if i < s.len() && is_digit(s[i]) {
        digit_run_end_bounds(s, i + 1);
    }
}

/// A literal that starts at `start` ends after it and within the text.
pub proof fn literal_end_bounds(s: Seq<u8>, start: int)
    requires
        0 <= start <= s.len(),
    ensures
        literal_end(s, start) matches Some(e) ==> start < e <= s.len(),
{
    digit_run_end_bounds(s, start);
    let integer_end = digit_run_end(s, start);
    if integer_end < s.len() && s[integer_end] == 46u8 {
        digit_run_end_bounds(s, integer_end + 1);
    }
    let m = mantissa_end(s, start);
    if m < s.len() && (s[m] == 101u8 || s[m] == 69u8) {
        if m + 1 < s.len() && (s[m + 1] == 43u8 || s[m + 1] == 45u8) {
            digit_run_end_bounds(s, m + 2);
        } else {
            digit_run_end_bounds(s, m + 1);
        }
    }
}

/// Index just past the digits that start at `start`.
fn skip_digits(s: &[u8], start: usize) -> (end: usize)
    requires
        start <= s@.len(),
    ensures
        end == digit_run_end(s@, start as int),
        start <= end <= s@.len(),
{
    proof {
        digit_run_end_bounds(s@, start as int);
    }
    let mut i = start;
    while i < s.len() && 48 <= s[i] && s[i] <= 57
        invariant
            start <= i <= s@.len(),
            digit_run_end(s@, i as int) == digit_run_end(s@, start as int),
        decreases s@.len() - i,
    {
        i = i + 1;
    }
    i
}

/// Whether the digits `s[start..end]` have a value of at most 38.
fn exponent_in_range(s: &[u8], start: usize, end: usize) -> (ok: bool)
    requires
        start <= end <= s@.len(),
        forall|k: int| start <= k < end ==> is_digit(#[trigger] s@[k]),
    ensures
        ok == (digits_value(s@, start as int, end as int) <= MAX_DECIMAL_EXPONENT),
{
    let mut value: u16 = 0;
    let mut i = start;
    while i < end
        invariant
            start <= i <= end <= s@.len(),
            forall|k: int| start <= k < end ==> is_digit(#[trigger] s@[k]),
            value <= MAX_DECIMAL_EXPONENT,
            value == digits_value(s@, start as int, i as int),
        decreases end - i,
    {
        let digit = s[i] - 48;
        let next = value * 10 + digit as u16;
        if next > MAX_DECIMAL_EXPONENT {
            proof {
                monotone_digits(s@, start as int, i + 1, end as int);
            }
            return false;
        }
        value = next;
        i = i + 1;
    }
    true
}

proof fn monotone_digits(s: Seq<u8>, i: int, j: int, k: int)
    requires
        i <= j <= k,
        forall|n: int| i <= n < k ==> is_digit(#[trigger] s[n]),
    ensures
        digits_value(s, i, j) <= digits_value(s, i, k),
    decreases k - j,
{
    if j < k {
        monotone_digits(s, i, j, k - 1);
    }
}

/// End of the literal starting at `start`, or `None` when none starts there.
pub fn scan_literal(s: &[u8], start: usize) -> (end: Option<usize>)
    requires
        start <= s@.len(),
    ensures
        end matches Some(e) ==> literal_end(s@, start as int) == Some(e as int),
        end is None ==> literal_end(s@, start as int) is None,
        end matches Some(e) ==> start < e <= s@.len(),
{
    let integer_end = skip_digits(s, start);
    let mut mantissa_end = integer_end;
    let mut digit_count = integer_end - start;
    if integer_end < s.len() && s[integer_end] == 46 {
        let fraction_end = skip_digits(s, integer_end + 1);
        digit_count = digit_count + (fraction_end - (integer_end + 1));
        mantissa_end = fraction_end;
    }
    if digit_count == 0 {
        return None;
    }
    if mantissa_end < s.len() && (s[mantissa_end] == 101 || s[mantissa_end] == 69) {
        let digits_start = if mantissa_end + 1 < s.len() && (s[mantissa_end + 1] == 43 || s[
            mantissa_end + 1] == 45) {
            mantissa_end + 2
        } else {
            mantissa_end + 1
        };
        let exponent_end = skip_digits(s, digits_start);
        proof {
            digit_run_end_bounds(s@, digits_start as int);
        }
        if exponent_end == digits_start || !exponent_in_range(s, digits_start, exponent_end) {
            return None;
        }
        Some(exponent_end)
    } else {
        Some(mantissa_end)
    }
}

/// Whether a whole numeric field is one optionally signed literal.
pub fn signed_literal(s: &[u8]) -> (ok: bool)
    ensures
        ok == is_signed_literal(s@),
{
    if s.len() == 0 {
        return false;
    }
    let start: usize = if s[0] == 43 || s[0] == 45 {
        1
    } else {
        0
    };
    match scan_literal(s, start) {
        Some(end) => end == s.len(),
        None => false,
    }
}

} // verus!
