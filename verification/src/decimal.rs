//! Decimal rendering, specified once and shared by the integer formatters.

use vstd::prelude::*;

verus! {

/// The digit character for a value below ten.
pub open spec fn digit_char(d: nat) -> char {
    if d == 0 {
        '0'
    } else if d == 1 {
        '1'
    } else if d == 2 {
        '2'
    } else if d == 3 {
        '3'
    } else if d == 4 {
        '4'
    } else if d == 5 {
        '5'
    } else if d == 6 {
        '6'
    } else if d == 7 {
        '7'
    } else if d == 8 {
        '8'
    } else {
        '9'
    }
}

/// The decimal digits of a non-negative integer, most significant first.
pub open spec fn dec_digits(n: nat) -> Seq<char>
    decreases n,
{
    if n < 10 {
        seq![digit_char(n)]
    } else {
        dec_digits(n / 10).push(digit_char(n % 10))
    }
}

/// The decimal rendering of an integer, with a leading minus when negative.
pub open spec fn dec_of(v: int) -> Seq<char> {
    if v >= 0 {
        dec_digits(v as nat)
    } else {
        seq!['-'].add(dec_digits((-v) as nat))
    }
}

/// Relies on the `Display` rendering of `i64`: decimal digits, a leading
/// minus when negative.
#[verifier::external_body]
pub fn i64_to_string(x: i64) -> (r: String)
    ensures
        r@ == dec_of(x as int),
{
    format!("{}", x)
}

/// Relies on the `Display` rendering of `usize`: decimal digits.
#[verifier::external_body]
pub fn usize_to_string(x: usize) -> (r: String)
    ensures
        r@ == dec_of(x as int),
{
    format!("{}", x)
}

} // verus!
