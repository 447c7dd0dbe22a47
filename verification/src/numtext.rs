//! Decimal text for signed machine integers: what `str::parse::<i64>` reads
//! and what `i64::to_string` writes, stated as specification functions.

use vstd::prelude::*;

verus! {

/// Whether `c` is an ASCII decimal digit.
pub open spec fn is_dec_digit(c: char) -> bool {
    '0' <= c && c <= '9'
}

/// Whether every character of `s` is an ASCII decimal digit.
pub open spec fn all_dec_digits(s: Seq<char>) -> bool {
    forall|i: int| 0 <= i < s.len() ==> is_dec_digit(#[trigger] s[i])
}

/// The value of a digit string, most significant digit first.
pub open spec fn digits_val(s: Seq<char>) -> int
    decreases s.len(),
{
    if s.len() == 0 {
        0
    } else {
        digits_val(s.subrange(0, s.len() - 1)) * 10 + (s[s.len() - 1] as int - '0' as int)
    }
}

/// What `str::parse::<i64>` accepts and returns: an optional `+` or `-` sign
/// followed by at least one ASCII decimal digit, the value within `i64`'s
/// range; anything else is rejected.
pub open spec fn spec_parse_i64(s: Seq<char>) -> Option<int> {
    let mag = if s.len() >= 1 && (s[0] == '-' || s[0] == '+') {
        s.subrange(1, s.len() as int)
    } else {
        s
    };
    let sign: int = if s.len() >= 1 && s[0] == '-' {
        -1
    } else {
        1
    };
    if mag.len() >= 1 && all_dec_digits(mag) && i64::MIN <= sign * digits_val(mag) <= i64::MAX {
        Some(sign * digits_val(mag))
    } else {
        None
    }
}

/// The character for the digit value `d`.
pub open spec fn digit_char(d: int) -> char {
    if d == 0 {
        '0'
    } else if d == 1 {
        '1'
    } else if d == 2 {
        '2'
    } else if d == 3 {
        '3'
    } else if d == 4 {
        '4'
    } else if d == 5 {
        '5'
    } else if d == 6 {
        '6'
    } else if d == 7 {
        '7'
    } else if d == 8 {
        '8'
    } else {
        '9'
    }
}

/// The decimal digits of a positive integer, most significant first.
pub open spec fn dec_digits(n: int) -> Seq<char>
    decreases n,
{
    if n <= 0 {
        Seq::empty()
    } else {
        dec_digits(n / 10).push(digit_char(n % 10))
    }
}

/// The decimal text of an integer, as `i64::to_string` writes it: the digits
/// of its magnitude without leading zeroes, preceded by `-` when negative.
pub open spec fn spec_i64_string(v: int) -> Seq<char> {
    if v == 0 {
        seq!['0']
    } else if v > 0 {
        dec_digits(v)
    } else {
        seq!['-'] + dec_digits(-v)
    }
}

/// Relies on `str::parse::<i64>` (core's `i64::from_str`): it reads an
/// optional sign and decimal digits, and rejects an empty number, any other
/// character, and a value out of `i64`'s range.
#[verifier::external_body]
pub(crate) fn parse_i64(s: &String) -> (r: Option<i64>)
    ensures
        r == match spec_parse_i64(s@) {
            Some(v) => Some(v as i64),
            None => None::<i64>,
        },
{
    match s.as_str().parse::<i64>() {
        Ok(v) => Some(v),
        Err(_) => None,
    }
}

/// Relies on `i64::to_string` (through core's `Display` for `i64`): it writes
/// the decimal digits of the value, preceded by `-` when negative.
#[verifier::external_body]
pub(crate) fn i64_to_string(v: i64) -> (r: String)
    ensures
        r@ == spec_i64_string(v as int),
{
    v.to_string()
}

} // verus!
