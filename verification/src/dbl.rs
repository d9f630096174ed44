//! Trusted interface to IEEE-754 binary64 arithmetic.
//!
//! The evaluator holds a `Double` as its 64-bit pattern, so no
//! floating-point type appears in the verified code. Arithmetic goes through
//! `rustc_apfloat`, whose API works on bit patterns; each operation's result
//! is named by an uninterpreted function of the operand bits. The one
//! operation no available bit-pattern library offers — raising a double to
//! a double — is supplied by the host through the backend trait instead.

use vstd::prelude::*;
use rustc_apfloat::Float;

verus! {

/// What IEEE addition (round to nearest even) returns, by bit pattern.
pub uninterp spec fn dbl_add_of(a: u64, b: u64) -> u64;

/// What IEEE subtraction returns, by bit pattern.
pub uninterp spec fn dbl_sub_of(a: u64, b: u64) -> u64;

/// What IEEE multiplication returns, by bit pattern.
pub uninterp spec fn dbl_mul_of(a: u64, b: u64) -> u64;

/// What IEEE division returns, by bit pattern.
pub uninterp spec fn dbl_div_of(a: u64, b: u64) -> u64;

/// What IEEE `fmod` returns, by bit pattern.
pub uninterp spec fn dbl_rem_of(a: u64, b: u64) -> u64;

/// What IEEE equality returns: `NaN` equals nothing, zeros of both signs are
/// equal.
pub uninterp spec fn dbl_eq_of(a: u64, b: u64) -> bool;

/// What IEEE `<` returns; false whenever an operand is `NaN`.
pub uninterp spec fn dbl_lt_of(a: u64, b: u64) -> bool;

/// What IEEE `<=` returns; false whenever an operand is `NaN`.
pub uninterp spec fn dbl_le_of(a: u64, b: u64) -> bool;

/// The decimal rendering of a double's value.
pub uninterp spec fn dbl_str_of(a: u64) -> Seq<char>;

/// Relies on `rustc_apfloat::ieee::Double` addition (nearest-even).
#[verifier::external_body]
pub fn dbl_add(a: u64, b: u64) -> (r: u64)
    ensures
        r == dbl_add_of(a, b),
{
    let x = rustc_apfloat::ieee::Double::from_bits(a as u128);
    let y = rustc_apfloat::ieee::Double::from_bits(b as u128);
    (x + y).value.to_bits() as u64
}

/// Relies on `rustc_apfloat::ieee::Double` subtraction (nearest-even).
#[verifier::external_body]
pub fn dbl_sub(a: u64, b: u64) -> (r: u64)
    ensures
        r == dbl_sub_of(a, b),
{
    let x = rustc_apfloat::ieee::Double::from_bits(a as u128);
    let y = rustc_apfloat::ieee::Double::from_bits(b as u128);
    (x - y).value.to_bits() as u64
}

/// Relies on `rustc_apfloat::ieee::Double` multiplication (nearest-even).
#[verifier::external_body]
pub fn dbl_mul(a: u64, b: u64) -> (r: u64)
    ensures
        r == dbl_mul_of(a, b),
{
    let x = rustc_apfloat::ieee::Double::from_bits(a as u128);
    let y = rustc_apfloat::ieee::Double::from_bits(b as u128);
    (x * y).value.to_bits() as u64
}

/// Relies on `rustc_apfloat::ieee::Double` division (nearest-even). IEEE
/// division by zero is an infinity or NaN, never a failure.
#[verifier::external_body]
pub fn dbl_div(a: u64, b: u64) -> (r: u64)
    ensures
        r == dbl_div_of(a, b),
{
    let x = rustc_apfloat::ieee::Double::from_bits(a as u128);
    let y = rustc_apfloat::ieee::Double::from_bits(b as u128);
    (x / y).value.to_bits() as u64
}

/// Relies on `rustc_apfloat::ieee::Double` remainder (`c_fmod`).
#[verifier::external_body]
pub fn dbl_rem(a: u64, b: u64) -> (r: u64)
    ensures
        r == dbl_rem_of(a, b),
{
    let x = rustc_apfloat::ieee::Double::from_bits(a as u128);
    let y = rustc_apfloat::ieee::Double::from_bits(b as u128);
    (x % y).value.to_bits() as u64
}

/// Relies on `PartialEq for rustc_apfloat::ieee::Double`: IEEE equality.
#[verifier::external_body]
pub fn dbl_eq(a: u64, b: u64) -> (r: bool)
    ensures
        r == dbl_eq_of(a, b),
{
    let x = rustc_apfloat::ieee::Double::from_bits(a as u128);
    let y = rustc_apfloat::ieee::Double::from_bits(b as u128);
    x == y
}

/// Relies on `PartialOrd for rustc_apfloat::ieee::Double`: IEEE `<`.
#[verifier::external_body]
pub fn dbl_lt(a: u64, b: u64) -> (r: bool)
    ensures
        r == dbl_lt_of(a, b),
{
    let x = rustc_apfloat::ieee::Double::from_bits(a as u128);
    let y = rustc_apfloat::ieee::Double::from_bits(b as u128);
    x < y
}

/// Relies on `PartialOrd for rustc_apfloat::ieee::Double`: IEEE `<=`.
#[verifier::external_body]
pub fn dbl_le(a: u64, b: u64) -> (r: bool)
    ensures
        r == dbl_le_of(a, b),
{
    let x = rustc_apfloat::ieee::Double::from_bits(a as u128);
    let y = rustc_apfloat::ieee::Double::from_bits(b as u128);
    x <= y
}

/// Relies on the `Display` rendering of `rustc_apfloat::ieee::Double`.
#[verifier::external_body]
pub fn dbl_to_string(a: u64) -> (r: String)
    ensures
        r@ == dbl_str_of(a),
{
    format!("{}", rustc_apfloat::ieee::Double::from_bits(a as u128))
}

/// Negation of a double flips the sign bit; pure bit arithmetic, no trust.
pub fn dbl_neg(a: u64) -> (r: u64)
    ensures
        r == dbl_neg_bits(a),
{
    a ^ 0x8000000000000000
}

/// The bit pattern with the sign flipped, IEEE negation.
pub open spec fn dbl_neg_bits(a: u64) -> u64 {
    a ^ 0x8000000000000000
}

} // verus!
