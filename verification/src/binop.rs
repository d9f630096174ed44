//! The value-level binary and unary operations, with one spec function per
//! operator giving the exact outcome: a result value, a program error, or a
//! type mismatch that well-typed programs never reach.

use vstd::prelude::*;
use crate::FunctorApp;
use crate::Functor;
use crate::spec_update_functor_app;
use crate::update_functor_app;
use crate::big::{
    big_val, big_add, big_sub, big_mul, big_div, big_rem, big_neg, big_not, big_pow, big_shl,
    big_shr, big_and, big_or, big_xor, big_is_zero, big_lt, big_and_of, big_or_of, big_xor_of,
    trunc_div, trunc_rem, pow_int, abs_int,
};
use crate::dbl::{
    dbl_add_of, dbl_sub_of, dbl_mul_of, dbl_div_of, dbl_rem_of, dbl_lt_of, dbl_le_of, dbl_eq_of,
    dbl_neg_bits, dbl_add, dbl_sub, dbl_mul, dbl_div, dbl_rem, dbl_lt, dbl_le,
    dbl_eq, dbl_neg,
};
use crate::error::{Error, Failure, Fault};
use crate::intops::{
    fits_i64, checked_pow_i64, checked_pow_i64_exec, wrapping_div_i64, wrapping_rem_i64,
    wrapping_neg_i64, lemma_checked_pow_exact,
};
use crate::host::{Backend, Receiver};
use crate::span::PackageSpan;
use crate::val::{Val, Value, views_of, clone_values, lemma_vview_array, lemma_vview_closure};

verus! {

/// The outcome of a value-level operation.
pub ghost enum OpOut {
    /// The operation produced this value.
    Value(Val),
    /// The operation failed with this program error.
    Fail(Error),
    /// The operands' tags do not fit the operation; well-typed programs
    /// never reach this.
    Mismatch,
    /// The host backend computes the result, a double; no more is promised
    /// of its bit pattern.
    Hosted,
}

pub open spec fn wrap_add(x: i64, y: i64) -> i64 {
    vstd::wrapping::i64_specs::wrapping_add(x, y)
}

pub open spec fn wrap_sub(x: i64, y: i64) -> i64 {
    vstd::wrapping::i64_specs::wrapping_sub(x, y)
}

pub open spec fn wrap_mul(x: i64, y: i64) -> i64 {
    vstd::wrapping::i64_specs::wrapping_mul(x, y)
}

/// What addition yields: `Int` wraps, `BigInt` is exact, `Double` is IEEE,
/// `String` and `Array` concatenate.
pub open spec fn spec_add(a: Val, b: Val) -> OpOut {
    match (a, b) {
        (Val::Array(xs), Val::Array(ys)) => OpOut::Value(Val::Array(xs.add(ys))),
        (Val::BigInt(x), Val::BigInt(y)) => OpOut::Value(Val::BigInt(x + y)),
        (Val::Double(x), Val::Double(y)) => OpOut::Value(Val::Double(dbl_add_of(x, y))),
        (Val::Int(x), Val::Int(y)) => OpOut::Value(Val::Int(wrap_add(x, y))),
        (Val::String(x), Val::String(y)) => OpOut::Value(Val::String(x.add(y))),
        _ => OpOut::Mismatch,
    }
}

/// What subtraction yields: `Int` wraps, `BigInt` exact, `Double` IEEE.
pub open spec fn spec_sub(a: Val, b: Val) -> OpOut {
    match (a, b) {
        (Val::BigInt(x), Val::BigInt(y)) => OpOut::Value(Val::BigInt(x - y)),
        (Val::Double(x), Val::Double(y)) => OpOut::Value(Val::Double(dbl_sub_of(x, y))),
        (Val::Int(x), Val::Int(y)) => OpOut::Value(Val::Int(wrap_sub(x, y))),
        _ => OpOut::Mismatch,
    }
}

/// What multiplication yields: `Int` wraps, `BigInt` exact, `Double` IEEE.
pub open spec fn spec_mul(a: Val, b: Val) -> OpOut {
    match (a, b) {
        (Val::BigInt(x), Val::BigInt(y)) => OpOut::Value(Val::BigInt(x * y)),
        (Val::Double(x), Val::Double(y)) => OpOut::Value(Val::Double(dbl_mul_of(x, y))),
        (Val::Int(x), Val::Int(y)) => OpOut::Value(Val::Int(wrap_mul(x, y))),
        _ => OpOut::Mismatch,
    }
}

/// What division yields: a zero `Int` or `BigInt` divisor fails with
/// `DivZero`; `Double` division is IEEE and never fails.
pub open spec fn spec_div(a: Val, b: Val, span: PackageSpan) -> OpOut {
    match (a, b) {
        (Val::BigInt(x), Val::BigInt(y)) => if y == 0 {
            OpOut::Fail(Error::DivZero(span))
        } else {
            OpOut::Value(Val::BigInt(trunc_div(x, y)))
        },
        (Val::Int(x), Val::Int(y)) => if y == 0 {
            OpOut::Fail(Error::DivZero(span))
        } else if x == i64::MIN && y == -1 {
            OpOut::Value(Val::Int(i64::MIN))
        } else {
            OpOut::Value(Val::Int(trunc_div(x as int, y as int) as i64))
        },
        (Val::Double(x), Val::Double(y)) => OpOut::Value(Val::Double(dbl_div_of(x, y))),
        _ => OpOut::Mismatch,
    }
}

/// What modulo yields: the remainder of truncated division; a zero `Int`
/// or `BigInt` divisor fails with `DivZero`, while `Double` follows IEEE
/// for every divisor, zero included.
pub open spec fn spec_mod(a: Val, b: Val, span: PackageSpan) -> OpOut {
    match (a, b) {
        (Val::BigInt(x), Val::BigInt(y)) => if y == 0 {
            OpOut::Fail(Error::DivZero(span))
        } else {
            OpOut::Value(Val::BigInt(trunc_rem(x, y)))
        },
        (Val::Int(x), Val::Int(y)) => if y == 0 {
            OpOut::Fail(Error::DivZero(span))
        } else {
            OpOut::Value(Val::Int(trunc_rem(x as int, y as int) as i64))
        },
        (Val::Double(x), Val::Double(y)) => OpOut::Value(Val::Double(dbl_rem_of(x, y))),
        _ => OpOut::Mismatch,
    }
}

/// What exponentiation yields: integer bases take an `Int` exponent that
/// must be non-negative (`InvalidNegativeInt`) and fit (`IntTooLarge`); an
/// `Int` result that leaves the range is `IntTooLarge`; `Double` bases take
/// a `Double` exponent.
pub open spec fn spec_exp(a: Val, b: Val, span: PackageSpan) -> OpOut {
    match (a, b) {
        (Val::BigInt(x), Val::Int(e)) => if e < 0 {
            OpOut::Fail(Error::InvalidNegativeInt(e, span))
        } else if e > u32::MAX {
            OpOut::Fail(Error::IntTooLarge(e, span))
        } else {
            OpOut::Value(Val::BigInt(pow_int(x, e as nat)))
        },
        (Val::Int(x), Val::Int(e)) => if e < 0 {
            OpOut::Fail(Error::InvalidNegativeInt(e, span))
        } else if e > u32::MAX {
            OpOut::Fail(Error::IntTooLarge(e, span))
        } else {
            match checked_pow_i64(x, e as nat) {
                Option::Some(v) => OpOut::Value(Val::Int(v)),
                Option::None => OpOut::Fail(Error::IntTooLarge(e, span)),
            }
        },
        (Val::Double(x), Val::Double(y)) => OpOut::Hosted,
        _ => OpOut::Mismatch,
    }
}

/// What a left shift yields. A negative count shifts right by its magnitude.
/// A count whose magnitude reaches 64 (`Int`) or leaves `u32` (`BigInt`)
/// fails with `IntTooLarge`.
pub open spec fn spec_shl(a: Val, b: Val, span: PackageSpan) -> OpOut {
    match (a, b) {
        (Val::BigInt(x), Val::Int(n)) => if n > 0 {
            if n > u32::MAX {
                OpOut::Fail(Error::IntTooLarge(n, span))
            } else {
                OpOut::Value(Val::BigInt(x * pow_int(2, n as nat)))
            }
        } else {
            if n == i64::MIN || -n > u32::MAX {
                OpOut::Fail(Error::IntTooLarge(n, span))
            } else {
                OpOut::Value(Val::BigInt(x / pow_int(2, (-n) as nat)))
            }
        },
        (Val::Int(x), Val::Int(n)) => if n > 0 {
            if n >= 64 {
                OpOut::Fail(Error::IntTooLarge(n, span))
            } else {
                OpOut::Value(Val::Int(x << (n as u32)))
            }
        } else {
            if n == i64::MIN || -n >= 64 {
                OpOut::Fail(Error::IntTooLarge(n, span))
            } else {
                OpOut::Value(Val::Int(x >> (((-n) as i64) as u32)))
            }
        },
        _ => OpOut::Mismatch,
    }
}

/// What a right shift yields; the mirror of [`spec_shl`].
pub open spec fn spec_shr(a: Val, b: Val, span: PackageSpan) -> OpOut {
    match (a, b) {
        (Val::BigInt(x), Val::Int(n)) => if n > 0 {
            if n > u32::MAX {
                OpOut::Fail(Error::IntTooLarge(n, span))
            } else {
                OpOut::Value(Val::BigInt(x / pow_int(2, n as nat)))
            }
        } else {
            if n == i64::MIN || -n > u32::MAX {
                OpOut::Fail(Error::IntTooLarge(n, span))
            } else {
                OpOut::Value(Val::BigInt(x * pow_int(2, (-n) as nat)))
            }
        },
        (Val::Int(x), Val::Int(n)) => if n > 0 {
            if n >= 64 {
                OpOut::Fail(Error::IntTooLarge(n, span))
            } else {
                OpOut::Value(Val::Int(x >> (n as u32)))
            }
        } else {
            if n == i64::MIN || -n >= 64 {
                OpOut::Fail(Error::IntTooLarge(n, span))
            } else {
                OpOut::Value(Val::Int(x << (((-n) as i64) as u32)))
            }
        },
        _ => OpOut::Mismatch,
    }
}

/// What bitwise and yields on `Int` and `BigInt`.
pub open spec fn spec_andb(a: Val, b: Val) -> OpOut {
    match (a, b) {
        (Val::BigInt(x), Val::BigInt(y)) => OpOut::Value(Val::BigInt(big_and_of(x, y))),
        (Val::Int(x), Val::Int(y)) => OpOut::Value(Val::Int(x & y)),
        _ => OpOut::Mismatch,
    }
}

/// What bitwise or yields on `Int` and `BigInt`.
pub open spec fn spec_orb(a: Val, b: Val) -> OpOut {
    match (a, b) {
        (Val::BigInt(x), Val::BigInt(y)) => OpOut::Value(Val::BigInt(big_or_of(x, y))),
        (Val::Int(x), Val::Int(y)) => OpOut::Value(Val::Int(x | y)),
        _ => OpOut::Mismatch,
    }
}

/// What bitwise xor yields on `Int` and `BigInt`.
pub open spec fn spec_xorb(a: Val, b: Val) -> OpOut {
    match (a, b) {
        (Val::BigInt(x), Val::BigInt(y)) => OpOut::Value(Val::BigInt(big_xor_of(x, y))),
        (Val::Int(x), Val::Int(y)) => OpOut::Value(Val::Int(x ^ y)),
        _ => OpOut::Mismatch,
    }
}

/// What `>` yields on the three ordered numeric kinds.
pub open spec fn spec_gt(a: Val, b: Val) -> OpOut {
    match (a, b) {
        (Val::BigInt(x), Val::BigInt(y)) => OpOut::Value(Val::Bool(x > y)),
        (Val::Int(x), Val::Int(y)) => OpOut::Value(Val::Bool(x > y)),
        (Val::Double(x), Val::Double(y)) => OpOut::Value(Val::Bool(dbl_lt_of(y, x))),
        _ => OpOut::Mismatch,
    }
}

/// What `>=` yields on the three ordered numeric kinds.
pub open spec fn spec_gte(a: Val, b: Val) -> OpOut {
    match (a, b) {
        (Val::BigInt(x), Val::BigInt(y)) => OpOut::Value(Val::Bool(x >= y)),
        (Val::Int(x), Val::Int(y)) => OpOut::Value(Val::Bool(x >= y)),
        (Val::Double(x), Val::Double(y)) => OpOut::Value(Val::Bool(dbl_le_of(y, x))),
        _ => OpOut::Mismatch,
    }
}

/// What `<` yields on the three ordered numeric kinds.
pub open spec fn spec_lt(a: Val, b: Val) -> OpOut {
    match (a, b) {
        (Val::BigInt(x), Val::BigInt(y)) => OpOut::Value(Val::Bool(x < y)),
        (Val::Int(x), Val::Int(y)) => OpOut::Value(Val::Bool(x < y)),
        (Val::Double(x), Val::Double(y)) => OpOut::Value(Val::Bool(dbl_lt_of(x, y))),
        _ => OpOut::Mismatch,
    }
}

/// What `<=` yields on the three ordered numeric kinds.
pub open spec fn spec_lte(a: Val, b: Val) -> OpOut {
    match (a, b) {
        (Val::BigInt(x), Val::BigInt(y)) => OpOut::Value(Val::Bool(x <= y)),
        (Val::Int(x), Val::Int(y)) => OpOut::Value(Val::Bool(x <= y)),
        (Val::Double(x), Val::Double(y)) => OpOut::Value(Val::Bool(dbl_le_of(x, y))),
        _ => OpOut::Mismatch,
    }
}

/// Holds when the outcome matches the returned result: the value with the
/// stated view, the stated error, or a type-mismatch fault.
pub open spec fn matches_outcome(o: OpOut, r: Result<Value, Failure>) -> bool {
    match o {
        OpOut::Value(v) => r matches Ok(out) && out@ == v,
        OpOut::Fail(e) => r matches Err(f) && f matches Failure::Program(e2) && e2 == e,
        OpOut::Mismatch => r matches Err(f) && f matches Failure::Fault(ft) && ft
            == Fault::TypeMismatch,
        OpOut::Hosted => r matches Ok(out) && out@ is Double,
    }
}

/// As [`matches_outcome`], for operations that can only mismatch.
pub open spec fn matches_simple_outcome(o: OpOut, r: Result<Value, Fault>) -> bool {
    match o {
        OpOut::Value(v) => r matches Ok(out) && out@ == v,
        OpOut::Fail(_) => false,
        OpOut::Mismatch => r matches Err(f) && f == Fault::TypeMismatch,
        OpOut::Hosted => false,
    }
}

/// Adds two values.
pub fn eval_binop_add(lhs_val: Value, rhs_val: Value) -> (r: Result<Value, Fault>)
    ensures
        matches_simple_outcome(spec_add(lhs_val@, rhs_val@), r),
{
    match (lhs_val, rhs_val) {
        (Value::Array(xs), Value::Array(ys)) => {
            proof {
                lemma_vview_array(xs);
                lemma_vview_array(ys);
            }
            let mut items = xs;
            let mut rest = ys;
            let ghost xsv = views_of(items@);
            let ghost ysv = views_of(rest@);
            items.append(&mut rest);
            proof {
                assert(views_of(items@) =~= xsv.add(ysv));
                lemma_vview_array(items);
            }
            Ok(Value::Array(items))
        },
        (Value::BigInt(x), Value::BigInt(y)) => Ok(Value::BigInt(big_add(&x, &y))),
        (Value::Double(x), Value::Double(y)) => Ok(Value::Double(dbl_add(x, y))),
        (Value::Int(x), Value::Int(y)) => Ok(Value::Int(x.wrapping_add(y))),
        (Value::String(x), Value::String(y)) => {
            let mut s = x;
            crate::val::string_append(&mut s, &y);
            Ok(Value::String(s))
        },
        _ => Err(Fault::TypeMismatch),
    }
}

/// Subtracts the right value from the left.
pub fn eval_binop_sub(lhs_val: Value, rhs_val: Value) -> (r: Result<Value, Fault>)
    ensures
        matches_simple_outcome(spec_sub(lhs_val@, rhs_val@), r),
{
    match (lhs_val, rhs_val) {
        (Value::BigInt(x), Value::BigInt(y)) => Ok(Value::BigInt(big_sub(&x, &y))),
        (Value::Double(x), Value::Double(y)) => Ok(Value::Double(dbl_sub(x, y))),
        (Value::Int(x), Value::Int(y)) => Ok(Value::Int(x.wrapping_sub(y))),
        _ => Err(Fault::TypeMismatch),
    }
}

/// Multiplies two values.
pub fn eval_binop_mul(lhs_val: Value, rhs_val: Value) -> (r: Result<Value, Fault>)
    ensures
        matches_simple_outcome(spec_mul(lhs_val@, rhs_val@), r),
{
    match (lhs_val, rhs_val) {
        (Value::BigInt(x), Value::BigInt(y)) => Ok(Value::BigInt(big_mul(&x, &y))),
        (Value::Double(x), Value::Double(y)) => Ok(Value::Double(dbl_mul(x, y))),
        (Value::Int(x), Value::Int(y)) => Ok(Value::Int(x.wrapping_mul(y))),
        _ => Err(Fault::TypeMismatch),
    }
}

/// Divides the left value by the right; a zero `Int` or `BigInt` divisor is
/// `DivZero`, a zero `Double` divisor follows IEEE.
pub fn eval_binop_div(lhs_val: Value, rhs_val: Value, span: PackageSpan) -> (r: Result<
    Value,
    Failure,
>)
    ensures
        matches_outcome(spec_div(lhs_val@, rhs_val@, span), r),
{
    match (lhs_val, rhs_val) {
        (Value::BigInt(x), Value::BigInt(y)) => {
            if big_is_zero(&y) {
                Err(Failure::Program(Error::DivZero(span)))
            } else {
                Ok(Value::BigInt(big_div(&x, &y)))
            }
        },
        (Value::Int(x), Value::Int(y)) => {
            if y == 0 {
                Err(Failure::Program(Error::DivZero(span)))
            } else {
                Ok(Value::Int(wrapping_div_i64(x, y)))
            }
        },
        (Value::Double(x), Value::Double(y)) => Ok(Value::Double(dbl_div(x, y))),
        _ => Err(Failure::Fault(Fault::TypeMismatch)),
    }
}

/// The remainder of the left value by the right; a zero `Int` or `BigInt`
/// divisor is `DivZero`, a `Double` remainder follows IEEE for every
/// divisor.
pub fn eval_binop_mod(lhs_val: Value, rhs_val: Value, span: PackageSpan) -> (r: Result<
    Value,
    Failure,
>)
    ensures
        matches_outcome(spec_mod(lhs_val@, rhs_val@, span), r),
{
    match (lhs_val, rhs_val) {
        (Value::BigInt(x), Value::BigInt(y)) => {
            if big_is_zero(&y) {
                Err(Failure::Program(Error::DivZero(span)))
            } else {
                Ok(Value::BigInt(big_rem(&x, &y)))
            }
        },
        (Value::Int(x), Value::Int(y)) => {
            if y == 0 {
                Err(Failure::Program(Error::DivZero(span)))
            } else {
                Ok(Value::Int(wrapping_rem_i64(x, y)))
            }
        },
        (Value::Double(x), Value::Double(y)) => Ok(Value::Double(dbl_rem(x, y))),
        _ => Err(Failure::Fault(Fault::TypeMismatch)),
    }
}

/// Raises the left value to the right: exact for `BigInt`, checked for
/// `Int`; a `Double` base and exponent are handed to the host backend,
/// bit patterns in and out.
pub fn eval_binop_exp<B: Backend<R>, R: Receiver>(
    lhs_val: Value,
    rhs_val: Value,
    span: PackageSpan,
    sim: &mut B,
) -> (r: Result<
    Value,
    Failure,
>)
    ensures
        matches_outcome(spec_exp(lhs_val@, rhs_val@, span), r),
{
    match (lhs_val, rhs_val) {
        (Value::BigInt(x), Value::Int(e)) => {
            if e < 0 {
                Err(Failure::Program(Error::InvalidNegativeInt(e, span)))
            } else if e > u32::MAX as i64 {
                Err(Failure::Program(Error::IntTooLarge(e, span)))
            } else {
                Ok(Value::BigInt(big_pow(&x, e as u32)))
            }
        },
        (Value::Int(x), Value::Int(e)) => {
            if e < 0 {
                Err(Failure::Program(Error::InvalidNegativeInt(e, span)))
            } else if e > u32::MAX as i64 {
                Err(Failure::Program(Error::IntTooLarge(e, span)))
            } else {
                match checked_pow_i64_exec(x, e as u32) {
                    Option::Some(v) => Ok(Value::Int(v)),
                    Option::None => Err(Failure::Program(Error::IntTooLarge(e, span))),
                }
            }
        },
        (Value::Double(x), Value::Double(y)) => Ok(Value::Double(sim.double_pow(x, y))),
        _ => Err(Failure::Fault(Fault::TypeMismatch)),
    }
}

/// Shifts the left value left by the right count; a negative count shifts
/// right by its magnitude.
pub fn eval_binop_shl(lhs_val: Value, rhs_val: Value, span: PackageSpan) -> (r: Result<
    Value,
    Failure,
>)
    ensures
        matches_outcome(spec_shl(lhs_val@, rhs_val@, span), r),
{
    match (lhs_val, rhs_val) {
        (Value::BigInt(x), Value::Int(n)) => {
            if n > 0 {
                if n > u32::MAX as i64 {
                    Err(Failure::Program(Error::IntTooLarge(n, span)))
                } else {
                    Ok(Value::BigInt(big_shl(&x, n as u32)))
                }
            } else {
                if n == i64::MIN || -n > u32::MAX as i64 {
                    Err(Failure::Program(Error::IntTooLarge(n, span)))
                } else {
                    Ok(Value::BigInt(big_shr(&x, (-n) as u32)))
                }
            }
        },
        (Value::Int(x), Value::Int(n)) => {
            if n > 0 {
                if n >= 64 {
                    Err(Failure::Program(Error::IntTooLarge(n, span)))
                } else {
                    Ok(Value::Int(x << (n as u32)))
                }
            } else {
                if n == i64::MIN || -n >= 64 {
                    Err(Failure::Program(Error::IntTooLarge(n, span)))
                } else {
                    Ok(Value::Int(x >> ((-n) as u32)))
                }
            }
        },
        _ => Err(Failure::Fault(Fault::TypeMismatch)),
    }
}

/// Shifts the left value right by the right count; a negative count shifts
/// left by its magnitude.
pub fn eval_binop_shr(lhs_val: Value, rhs_val: Value, span: PackageSpan) -> (r: Result<
    Value,
    Failure,
>)
    ensures
        matches_outcome(spec_shr(lhs_val@, rhs_val@, span), r),
{
    match (lhs_val, rhs_val) {
        (Value::BigInt(x), Value::Int(n)) => {
            if n > 0 {
                if n > u32::MAX as i64 {
                    Err(Failure::Program(Error::IntTooLarge(n, span)))
                } else {
                    Ok(Value::BigInt(big_shr(&x, n as u32)))
                }
            } else {
                if n == i64::MIN || -n > u32::MAX as i64 {
                    Err(Failure::Program(Error::IntTooLarge(n, span)))
                } else {
                    Ok(Value::BigInt(big_shl(&x, (-n) as u32)))
                }
            }
        },
        (Value::Int(x), Value::Int(n)) => {
            if n > 0 {
                if n >= 64 {
                    Err(Failure::Program(Error::IntTooLarge(n, span)))
                } else {
                    Ok(Value::Int(x >> (n as u32)))
                }
            } else {
                if n == i64::MIN || -n >= 64 {
                    Err(Failure::Program(Error::IntTooLarge(n, span)))
                } else {
                    Ok(Value::Int(x << ((-n) as u32)))
                }
            }
        },
        _ => Err(Failure::Fault(Fault::TypeMismatch)),
    }
}

/// Bitwise and of two values.
pub fn eval_binop_andb(lhs_val: Value, rhs_val: Value) -> (r: Result<Value, Fault>)
    ensures
        matches_simple_outcome(spec_andb(lhs_val@, rhs_val@), r),
{
    match (lhs_val, rhs_val) {
        (Value::BigInt(x), Value::BigInt(y)) => Ok(Value::BigInt(big_and(&x, &y))),
        (Value::Int(x), Value::Int(y)) => Ok(Value::Int(x & y)),
        _ => Err(Fault::TypeMismatch),
    }
}

/// Bitwise or of two values.
pub fn eval_binop_orb(lhs_val: Value, rhs_val: Value) -> (r: Result<Value, Fault>)
    ensures
        matches_simple_outcome(spec_orb(lhs_val@, rhs_val@), r),
{
    match (lhs_val, rhs_val) {
        (Value::BigInt(x), Value::BigInt(y)) => Ok(Value::BigInt(big_or(&x, &y))),
        (Value::Int(x), Value::Int(y)) => Ok(Value::Int(x | y)),
        _ => Err(Fault::TypeMismatch),
    }
}

/// Bitwise xor of two values.
pub fn eval_binop_xorb(lhs_val: Value, rhs_val: Value) -> (r: Result<Value, Fault>)
    ensures
        matches_simple_outcome(spec_xorb(lhs_val@, rhs_val@), r),
{
    match (lhs_val, rhs_val) {
        (Value::BigInt(x), Value::BigInt(y)) => Ok(Value::BigInt(big_xor(&x, &y))),
        (Value::Int(x), Value::Int(y)) => Ok(Value::Int(x ^ y)),
        _ => Err(Fault::TypeMismatch),
    }
}

/// Compares two values with `>`.
pub fn eval_binop_gt(lhs_val: Value, rhs_val: Value) -> (r: Result<Value, Fault>)
    ensures
        matches_simple_outcome(spec_gt(lhs_val@, rhs_val@), r),
{
    match (lhs_val, rhs_val) {
        (Value::BigInt(x), Value::BigInt(y)) => Ok(Value::Bool(big_lt(&y, &x))),
        (Value::Int(x), Value::Int(y)) => Ok(Value::Bool(x > y)),
        (Value::Double(x), Value::Double(y)) => Ok(Value::Bool(dbl_lt(y, x))),
        _ => Err(Fault::TypeMismatch),
    }
}

/// Compares two values with `>=`.
pub fn eval_binop_gte(lhs_val: Value, rhs_val: Value) -> (r: Result<Value, Fault>)
    ensures
        matches_simple_outcome(spec_gte(lhs_val@, rhs_val@), r),
{
    match (lhs_val, rhs_val) {
        (Value::BigInt(x), Value::BigInt(y)) => Ok(Value::Bool(!big_lt(&x, &y))),
        (Value::Int(x), Value::Int(y)) => Ok(Value::Bool(x >= y)),
        (Value::Double(x), Value::Double(y)) => Ok(Value::Bool(dbl_le(y, x))),
        _ => Err(Fault::TypeMismatch),
    }
}

/// Compares two values with `<`.
pub fn eval_binop_lt(lhs_val: Value, rhs_val: Value) -> (r: Result<Value, Fault>)
    ensures
        matches_simple_outcome(spec_lt(lhs_val@, rhs_val@), r),
{
    match (lhs_val, rhs_val) {
        (Value::BigInt(x), Value::BigInt(y)) => Ok(Value::Bool(big_lt(&x, &y))),
        (Value::Int(x), Value::Int(y)) => Ok(Value::Bool(x < y)),
        (Value::Double(x), Value::Double(y)) => Ok(Value::Bool(dbl_lt(x, y))),
        _ => Err(Fault::TypeMismatch),
    }
}

/// Compares two values with `<=`.
pub fn eval_binop_lte(lhs_val: Value, rhs_val: Value) -> (r: Result<Value, Fault>)
    ensures
        matches_simple_outcome(spec_lte(lhs_val@, rhs_val@), r),
{
    match (lhs_val, rhs_val) {
        (Value::BigInt(x), Value::BigInt(y)) => Ok(Value::Bool(!big_lt(&y, &x))),
        (Value::Int(x), Value::Int(y)) => Ok(Value::Bool(x <= y)),
        (Value::Double(x), Value::Double(y)) => Ok(Value::Bool(dbl_le(x, y))),
        _ => Err(Fault::TypeMismatch),
    }
}

/// What a non-logical binary operation yields on two values; equality and
/// inequality decide structural equality.
pub open spec fn spec_binop(op: crate::fir::BinOp, a: Val, b: Val, span: PackageSpan) -> OpOut {
    match op {
        crate::fir::BinOp::Add => spec_add(a, b),
        crate::fir::BinOp::AndB => spec_andb(a, b),
        crate::fir::BinOp::Div => spec_div(a, b, span),
        crate::fir::BinOp::Eq => OpOut::Value(Val::Bool(crate::val::veq(a, b))),
        crate::fir::BinOp::Exp => spec_exp(a, b, span),
        crate::fir::BinOp::Gt => spec_gt(a, b),
        crate::fir::BinOp::Gte => spec_gte(a, b),
        crate::fir::BinOp::Lt => spec_lt(a, b),
        crate::fir::BinOp::Lte => spec_lte(a, b),
        crate::fir::BinOp::Mod => spec_mod(a, b, span),
        crate::fir::BinOp::Mul => spec_mul(a, b),
        crate::fir::BinOp::Neq => OpOut::Value(Val::Bool(!crate::val::veq(a, b))),
        crate::fir::BinOp::OrB => spec_orb(a, b),
        crate::fir::BinOp::Shl => spec_shl(a, b, span),
        crate::fir::BinOp::Shr => spec_shr(a, b, span),
        crate::fir::BinOp::Sub => spec_sub(a, b),
        crate::fir::BinOp::XorB => spec_xorb(a, b),
        crate::fir::BinOp::AndL => OpOut::Mismatch,
        crate::fir::BinOp::OrL => OpOut::Mismatch,
    }
}

/// Evaluates a non-logical binary operation on two popped values.
pub fn eval_binop_value<B: Backend<R>, R: Receiver>(
    op: crate::fir::BinOp,
    lhs_val: Value,
    rhs_val: Value,
    span: PackageSpan,
    sim: &mut B,
) -> (r: Result<Value, Failure>)
    requires
        !(op is AndL),
        !(op is OrL),
    ensures
        matches_outcome(spec_binop(op, lhs_val@, rhs_val@, span), r),
{
    match op {
        crate::fir::BinOp::Add => lift_simple(eval_binop_add(lhs_val, rhs_val)),
        crate::fir::BinOp::AndB => lift_simple(eval_binop_andb(lhs_val, rhs_val)),
        crate::fir::BinOp::Div => eval_binop_div(lhs_val, rhs_val, span),
        crate::fir::BinOp::Eq => Ok(Value::Bool(crate::val::value_eq(&lhs_val, &rhs_val))),
        crate::fir::BinOp::Exp => eval_binop_exp(lhs_val, rhs_val, span, sim),
        crate::fir::BinOp::Gt => lift_simple(eval_binop_gt(lhs_val, rhs_val)),
        crate::fir::BinOp::Gte => lift_simple(eval_binop_gte(lhs_val, rhs_val)),
        crate::fir::BinOp::Lt => lift_simple(eval_binop_lt(lhs_val, rhs_val)),
        crate::fir::BinOp::Lte => lift_simple(eval_binop_lte(lhs_val, rhs_val)),
        crate::fir::BinOp::Mod => eval_binop_mod(lhs_val, rhs_val, span),
        crate::fir::BinOp::Mul => lift_simple(eval_binop_mul(lhs_val, rhs_val)),
        crate::fir::BinOp::Neq => Ok(Value::Bool(!crate::val::value_eq(&lhs_val, &rhs_val))),
        crate::fir::BinOp::OrB => lift_simple(eval_binop_orb(lhs_val, rhs_val)),
        crate::fir::BinOp::Shl => eval_binop_shl(lhs_val, rhs_val, span),
        crate::fir::BinOp::Shr => eval_binop_shr(lhs_val, rhs_val, span),
        crate::fir::BinOp::Sub => lift_simple(eval_binop_sub(lhs_val, rhs_val)),
        crate::fir::BinOp::XorB => lift_simple(eval_binop_xorb(lhs_val, rhs_val)),
        crate::fir::BinOp::AndL => Err(Failure::Fault(Fault::TypeMismatch)),
        crate::fir::BinOp::OrL => Err(Failure::Fault(Fault::TypeMismatch)),
    }
}

/// Lifts a mismatch-only result into the general failure form.
fn lift_simple(r: Result<Value, Fault>) -> (out: Result<Value, Failure>)
    ensures
        match r {
            Ok(v) => out matches Ok(v2) && v2 == v,
            Err(f) => out matches Err(g) && g matches Failure::Fault(f2) && f2 == f,
        },
{
    match r {
        Ok(v) => Ok(v),
        Err(f) => Err(Failure::Fault(f)),
    }
}

/// What a unary operation yields on a value.
pub open spec fn spec_unop(op: crate::fir::UnOp, v: Val) -> OpOut {
    match op {
        crate::fir::UnOp::Functor(functor) => match v {
            Val::Closure(args, id, app) => OpOut::Value(
                Val::Closure(args, id, spec_update_functor_app(functor, app)),
            ),
            Val::Global(id, app) => OpOut::Value(
                Val::Global(id, spec_update_functor_app(functor, app)),
            ),
            _ => OpOut::Mismatch,
        },
        crate::fir::UnOp::Neg => match v {
            Val::BigInt(x) => OpOut::Value(Val::BigInt(-x)),
            Val::Double(x) => OpOut::Value(Val::Double(dbl_neg_bits(x))),
            Val::Int(x) => OpOut::Value(
                Val::Int(
                    if x == i64::MIN {
                        i64::MIN
                    } else {
                        (-x) as i64
                    },
                ),
            ),
            _ => OpOut::Mismatch,
        },
        crate::fir::UnOp::NotB => match v {
            Val::Int(x) => OpOut::Value(Val::Int((-x - 1) as i64)),
            Val::BigInt(x) => OpOut::Value(Val::BigInt(-x - 1)),
            _ => OpOut::Mismatch,
        },
        crate::fir::UnOp::NotL => match v {
            Val::Bool(b) => OpOut::Value(Val::Bool(!b)),
            _ => OpOut::Mismatch,
        },
        crate::fir::UnOp::Pos => match v {
            Val::BigInt(_) => OpOut::Value(v),
            Val::Int(_) => OpOut::Value(v),
            Val::Double(_) => OpOut::Value(v),
            _ => OpOut::Mismatch,
        },
        crate::fir::UnOp::Unwrap => OpOut::Value(v),
    }
}

/// Applies a unary operation to a value.
pub fn eval_unop_value(op: crate::fir::UnOp, val: Value) -> (r: Result<Value, Fault>)
    ensures
        matches_simple_outcome(spec_unop(op, val@), r),
{
    match op {
        crate::fir::UnOp::Functor(functor) => match val {
            Value::Closure(args, id, app) => {
                let new_app = update_functor_app(functor, app);
                proof {
                    lemma_vview_closure(args, id, app);
                    lemma_vview_closure(args, id, new_app);
                }
                Ok(Value::Closure(args, id, new_app))
            },
            Value::Global(id, app) => Ok(Value::Global(id, update_functor_app(functor, app))),
            _ => Err(Fault::TypeMismatch),
        },
        crate::fir::UnOp::Neg => match val {
            Value::BigInt(x) => Ok(Value::BigInt(big_neg(&x))),
            Value::Double(x) => Ok(Value::Double(dbl_neg(x))),
            Value::Int(x) => Ok(Value::Int(wrapping_neg_i64(x))),
            _ => Err(Fault::TypeMismatch),
        },
        crate::fir::UnOp::NotB => match val {
            Value::Int(x) => Ok(Value::Int(wrapping_neg_i64(x).wrapping_sub(1))),
            Value::BigInt(x) => Ok(Value::BigInt(big_not(&x))),
            _ => Err(Fault::TypeMismatch),
        },
        crate::fir::UnOp::NotL => match val {
            Value::Bool(b) => Ok(Value::Bool(!b)),
            _ => Err(Fault::TypeMismatch),
        },
        crate::fir::UnOp::Pos => match val {
            Value::BigInt(_) => Ok(val),
            Value::Int(_) => Ok(val),
            Value::Double(_) => Ok(val),
            _ => Err(Fault::TypeMismatch),
        },
        crate::fir::UnOp::Unwrap => Ok(val),
    }
}

/// `Int` addition wraps on overflow: the result is the exact sum shifted by
/// a multiple of 2^64 into range; `BigInt` addition is always the exact sum.
pub proof fn lemma_add_numeric(x: i64, y: i64, bx: int, by: int)
    ensures
        spec_add(Val::Int(x), Val::Int(y)) matches OpOut::Value(v) && v matches Val::Int(s) && (
        s as int == x + y || s as int == x + y - 0x10000000000000000 || s as int == x + y
            + 0x10000000000000000),
        spec_add(Val::BigInt(bx), Val::BigInt(by)) == OpOut::Value(Val::BigInt(bx + by)),
{
}

/// `Int` and `BigInt` division and modulo fail exactly on a zero divisor;
/// `Double` division and modulo follow IEEE and never fail.
pub proof fn lemma_div_zero(a: Val, b: Val, span: PackageSpan)
    ensures
        a is Int && b is Int ==> (spec_div(a, b, span) == OpOut::Fail(Error::DivZero(span)) <==> b
            == Val::Int(0i64)),
        a is BigInt && b is BigInt ==> (spec_div(a, b, span) == OpOut::Fail(Error::DivZero(span))
            <==> b == Val::BigInt(0int)),
        a is Int && b is Int ==> (spec_mod(a, b, span) == OpOut::Fail(Error::DivZero(span)) <==> b
            == Val::Int(0i64)),
        a is BigInt && b is BigInt ==> (spec_mod(a, b, span) == OpOut::Fail(Error::DivZero(span))
            <==> b == Val::BigInt(0int)),
        a is Double && b is Double ==> spec_div(a, b, span) matches OpOut::Value(_),
        a is Double && b is Double ==> spec_mod(a, b, span) matches OpOut::Value(_),
{
}

/// `Int` exponentiation: a negative exponent is `InvalidNegativeInt`; an
/// exponent in range whose exact power leaves `i64` is `IntTooLarge`; any
/// other exponent in range yields the exact power.
pub proof fn lemma_exp_int(x: i64, e: i64, span: PackageSpan)
    ensures
        e < 0 ==> spec_exp(Val::Int(x), Val::Int(e), span) == OpOut::Fail(
            Error::InvalidNegativeInt(e, span),
        ),
        0 <= e <= u32::MAX && !fits_i64(pow_int(x as int, e as nat)) ==> spec_exp(
            Val::Int(x),
            Val::Int(e),
            span,
        ) == OpOut::Fail(Error::IntTooLarge(e, span)),
        0 <= e <= u32::MAX && fits_i64(pow_int(x as int, e as nat)) ==> (spec_exp(
            Val::Int(x),
            Val::Int(e),
            span,
        ) matches OpOut::Value(v) && v matches Val::Int(p) && p as int == pow_int(
            x as int,
            e as nat,
        )),
{
    if 0 <= e <= u32::MAX {
        lemma_checked_pow_exact(x, e as nat);
    }
}

/// A shift by a negative count is the opposite-direction shift by its
/// magnitude, for `Int` and `BigInt` alike.
pub proof fn lemma_shift_negative_count(a: Val, n: i64, span: PackageSpan)
    requires
        -64 < n && n < 0,
    ensures
        spec_shl(a, Val::Int(n), span) == spec_shr(a, Val::Int((-n) as i64), span),
        spec_shr(a, Val::Int(n), span) == spec_shl(a, Val::Int((-n) as i64), span),
{
}


} // verus!
