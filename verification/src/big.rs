//! Trusted interface to arbitrary-precision integers.
//!
//! The mathematical value a `num_bigint::BigInt` holds is named by
//! [`big_val`]; every wrapper states its effect over that name. Division and
//! remainder follow the crate's truncated-toward-zero semantics, stated here
//! as [`trunc_div`] and [`trunc_rem`].

use vstd::prelude::*;

verus! {

#[verifier::external_type_specification]
#[verifier::external_body]
pub struct ExBigInt(num_bigint::BigInt);

/// The integer a `BigInt` holds.
pub uninterp spec fn big_val(b: num_bigint::BigInt) -> int;

/// The absolute value of an integer.
pub open spec fn abs_int(a: int) -> int {
    if a >= 0 {
        a
    } else {
        -a
    }
}

/// Truncated-toward-zero division, the semantics of `/` on `i64` and on
/// `num_bigint::BigInt`. (Spec-level `/` is Euclidean.)
pub open spec fn trunc_div(a: int, b: int) -> int {
    if (a < 0) == (b < 0) {
        abs_int(a) / abs_int(b)
    } else {
        -(abs_int(a) / abs_int(b))
    }
}

/// The remainder that pairs with [`trunc_div`]: its sign follows the dividend.
pub open spec fn trunc_rem(a: int, b: int) -> int {
    a - b * trunc_div(a, b)
}

/// `base` raised to a non-negative power.
pub open spec fn pow_int(base: int, e: nat) -> int
    decreases e,
{
    if e == 0 {
        1
    } else {
        base * pow_int(base, (e - 1) as nat)
    }
}

/// What `&` on `BigInt` returns: bitwise and, in infinite two's complement.
pub uninterp spec fn big_and_of(a: int, b: int) -> int;

/// What `|` on `BigInt` returns: bitwise or, in infinite two's complement.
pub uninterp spec fn big_or_of(a: int, b: int) -> int;

/// What `^` on `BigInt` returns: bitwise xor, in infinite two's complement.
pub uninterp spec fn big_xor_of(a: int, b: int) -> int;

/// Relies on `BigInt::clone`, which preserves the held integer.
pub assume_specification[ <num_bigint::BigInt as Clone>::clone ](a: &num_bigint::BigInt) -> (r:
    num_bigint::BigInt)
    ensures
        big_val(r) == big_val(*a),
;

/// Relies on `Add for &BigInt`: exact integer addition.
#[verifier::external_body]
pub fn big_add(a: &num_bigint::BigInt, b: &num_bigint::BigInt) -> (r: num_bigint::BigInt)
    ensures
        big_val(r) == big_val(*a) + big_val(*b),
{
    a + b
}

/// Relies on `Sub for &BigInt`: exact integer subtraction.
#[verifier::external_body]
pub fn big_sub(a: &num_bigint::BigInt, b: &num_bigint::BigInt) -> (r: num_bigint::BigInt)
    ensures
        big_val(r) == big_val(*a) - big_val(*b),
{
    a - b
}

/// Relies on `Mul for &BigInt`: exact integer multiplication.
#[verifier::external_body]
pub fn big_mul(a: &num_bigint::BigInt, b: &num_bigint::BigInt) -> (r: num_bigint::BigInt)
    ensures
        big_val(r) == big_val(*a) * big_val(*b),
{
    a * b
}

/// Relies on `Div for &BigInt`: truncated division. The crate panics on a
/// zero divisor, so that input is excluded.
#[verifier::external_body]
pub fn big_div(a: &num_bigint::BigInt, b: &num_bigint::BigInt) -> (r: num_bigint::BigInt)
    requires
        big_val(*b) != 0,
    ensures
        big_val(r) == trunc_div(big_val(*a), big_val(*b)),
{
    a / b
}

/// Relies on `Rem for &BigInt`: the remainder of truncated division, its sign
/// that of the dividend. The crate panics on a zero divisor, so that input is
/// excluded.
#[verifier::external_body]
pub fn big_rem(a: &num_bigint::BigInt, b: &num_bigint::BigInt) -> (r: num_bigint::BigInt)
    requires
        big_val(*b) != 0,
    ensures
        big_val(r) == trunc_rem(big_val(*a), big_val(*b)),
{
    a % b
}

/// Relies on `Neg for &BigInt`: exact negation.
#[verifier::external_body]
pub fn big_neg(a: &num_bigint::BigInt) -> (r: num_bigint::BigInt)
    ensures
        big_val(r) == -big_val(*a),
{
    -a
}

/// Relies on `Not for &BigInt`: `!x == -x - 1` in two's complement.
#[verifier::external_body]
pub fn big_not(a: &num_bigint::BigInt) -> (r: num_bigint::BigInt)
    ensures
        big_val(r) == -big_val(*a) - 1,
{
    !a
}

/// Relies on `BigInt::pow` with a `u32` exponent: exact exponentiation.
#[verifier::external_body]
pub fn big_pow(a: &num_bigint::BigInt, e: u32) -> (r: num_bigint::BigInt)
    ensures
        big_val(r) == pow_int(big_val(*a), e as nat),
{
    a.pow(e)
}

/// Relies on `Shl<u32>`: a left shift multiplies by a power of two.
#[verifier::external_body]
pub fn big_shl(a: &num_bigint::BigInt, n: u32) -> (r: num_bigint::BigInt)
    ensures
        big_val(r) == big_val(*a) * pow_int(2, n as nat),
{
    a.clone() << n
}

/// Relies on `Shr<u32>`, which rounds toward negative infinity: a right shift
/// is floor division by a power of two (Euclidean, as the divisor is positive).
#[verifier::external_body]
pub fn big_shr(a: &num_bigint::BigInt, n: u32) -> (r: num_bigint::BigInt)
    ensures
        big_val(r) == big_val(*a) / pow_int(2, n as nat),
{
    a.clone() >> n
}

/// Relies on `BitAnd for &BigInt`.
#[verifier::external_body]
pub fn big_and(a: &num_bigint::BigInt, b: &num_bigint::BigInt) -> (r: num_bigint::BigInt)
    ensures
        big_val(r) == big_and_of(big_val(*a), big_val(*b)),
{
    a & b
}

/// Relies on `BitOr for &BigInt`.
#[verifier::external_body]
pub fn big_or(a: &num_bigint::BigInt, b: &num_bigint::BigInt) -> (r: num_bigint::BigInt)
    ensures
        big_val(r) == big_or_of(big_val(*a), big_val(*b)),
{
    a | b
}

/// Relies on `BitXor for &BigInt`.
#[verifier::external_body]
pub fn big_xor(a: &num_bigint::BigInt, b: &num_bigint::BigInt) -> (r: num_bigint::BigInt)
    ensures
        big_val(r) == big_xor_of(big_val(*a), big_val(*b)),
{
    a ^ b
}

/// Relies on `BigInt::sign`, which is `NoSign` exactly for zero.
#[verifier::external_body]
pub fn big_is_zero(a: &num_bigint::BigInt) -> (r: bool)
    ensures
        r == (big_val(*a) == 0),
{
    matches!(a.sign(), num_bigint::Sign::NoSign)
}

/// Relies on `PartialEq for BigInt`: equality of the held integers.
#[verifier::external_body]
pub fn big_eq(a: &num_bigint::BigInt, b: &num_bigint::BigInt) -> (r: bool)
    ensures
        r == (big_val(*a) == big_val(*b)),
{
    a == b
}

/// Relies on `PartialOrd for BigInt`: the order of the held integers.
#[verifier::external_body]
pub fn big_lt(a: &num_bigint::BigInt, b: &num_bigint::BigInt) -> (r: bool)
    ensures
        r == (big_val(*a) < big_val(*b)),
{
    a < b
}

/// Relies on the `Display` rendering of `BigInt`: decimal digits, a leading
/// minus when negative.
#[verifier::external_body]
pub fn big_to_string(a: &num_bigint::BigInt) -> (r: String)
    ensures
        r@ == crate::decimal::dec_of(big_val(*a)),
{
    format!("{}", a)
}

} // verus!
