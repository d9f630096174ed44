//! Wrapping and checked 64-bit integer operations that the numeric
//! contracts are stated against: truncated division and remainder, negation,
//! and exponentiation with exact overflow detection.

use vstd::prelude::*;
use crate::big::{abs_int, trunc_div, trunc_rem, pow_int};
use vstd::arithmetic::div_mod::lemma_fundamental_div_mod;

verus! {

/// An integer representable in `i64`.
pub open spec fn fits_i64(x: int) -> bool {
    i64::MIN <= x <= i64::MAX
}

/// The magnitude of a signed value, exactly.
pub fn abs_u64(a: i64) -> (r: u64)
    ensures
        r as int == abs_int(a as int),
{
    if a >= 0 {
        a as u64
    } else {
        (0i128 - (a as i128)) as u64
    }
}

/// Truncated division, wrapping on the single overflowing pair.
pub fn wrapping_div_i64(a: i64, b: i64) -> (r: i64)
    requires
        b != 0,
    ensures
        a == i64::MIN && b == -1 ==> r == i64::MIN,
        !(a == i64::MIN && b == -1) ==> r as int == trunc_div(a as int, b as int),
{
    let ua = abs_u64(a);
    let ub = abs_u64(b);
    let q: u64 = ua / ub;
    proof {
        assert(q as int == (ua as int) / (ub as int));
        lemma_fundamental_div_mod(ua as int, ub as int);
        vstd::arithmetic::div_mod::lemma_mod_bound(ua as int, ub as int);
        if a == i64::MIN && b == -1 {
            assert(ub == 1 && ua == 0x8000000000000000);
            vstd::arithmetic::div_mod::lemma_div_basics(ua as int);
            assert(q == ua);
        }
    }
    if (a < 0) != (b < 0) {
        (0i128 - (q as i128)) as i64
    } else {
        if q >= 0x8000000000000000 {
            proof {
                assert(ub >= 2 ==> (q as int) * (ub as int) >= 0x10000000000000000) by (
                nonlinear_arith)
                    requires
                        q >= 0x8000000000000000,
                ;
                assert((q as int) * (ub as int) <= ua as int);
                assert(ub == 1);
                assert(q == ua);
                assert(a == i64::MIN && b == -1);
            }
            i64::MIN
        } else {
            q as i64
        }
    }
}

/// The remainder that pairs with truncated division; total, as the
/// overflowing quotient still has remainder zero.
pub fn wrapping_rem_i64(a: i64, b: i64) -> (r: i64)
    requires
        b != 0,
    ensures
        r as int == trunc_rem(a as int, b as int),
{
    let ua = abs_u64(a);
    let ub = abs_u64(b);
    let q: u64 = ua / ub;
    let ra: u64 = ua % ub;
    proof {
        lemma_fundamental_div_mod(ua as int, ub as int);
        assert(trunc_rem(a as int, b as int) == a - b * trunc_div(a as int, b as int));
        if ((a as int) >= 0) == ((b as int) >= 0) {
            assert(b * trunc_div(a as int, b as int) == b * (q as int));
            if (a as int) >= 0 {
                assert((ub as int) * (q as int) == b * (q as int)) by (nonlinear_arith)
                    requires
                        b as int == ub as int,
                ;
            } else {
                assert((ub as int) * (q as int) == (-(b as int)) * (q as int));
                assert((-(b as int)) * (q as int) == -(b * (q as int))) by (nonlinear_arith);
            }
        } else {
            assert(b * trunc_div(a as int, b as int) == b * (-(q as int)));
            if (a as int) >= 0 {
                assert(b * (-(q as int)) == (ub as int) * (q as int)) by (nonlinear_arith)
                    requires
                        b as int == -(ub as int),
                ;
            } else {
                assert(b * (-(q as int)) == -((ub as int) * (q as int))) by (nonlinear_arith)
                    requires
                        b as int == ub as int,
                ;
            }
        }
    }
    if a < 0 {
        (0i128 - (ra as i128)) as i64
    } else {
        ra as i64
    }
}

/// Wrapping negation: the minimum negates to itself.
pub fn wrapping_neg_i64(a: i64) -> (r: i64)
    ensures
        a == i64::MIN ==> r == i64::MIN,
        a != i64::MIN ==> r as int == -(a as int),
{
    if a == i64::MIN {
        a
    } else {
        -a
    }
}

/// Exponentiation by iterated multiplication, each step checked: `None` as
/// soon as a product leaves the `i64` range.
pub open spec fn checked_pow_i64(a: i64, e: nat) -> Option<i64>
    decreases e,
{
    if e == 0 {
        Option::Some(1i64)
    } else {
        match checked_pow_i64(a, (e - 1) as nat) {
            Option::Some(p) => if fits_i64(p * a) {
                Option::Some((p * a) as i64)
            } else {
                Option::None
            },
            Option::None => Option::None,
        }
    }
}

/// A base of magnitude at most one never leaves the range.
proof fn lemma_checked_pow_small_base(a: i64, e: nat)
    requires
        -1 <= a <= 1,
    ensures
        checked_pow_i64(a, e) matches Option::Some(p) && -1 <= p <= 1,
    decreases e,
{
    if e > 0 {
        lemma_checked_pow_small_base(a, (e - 1) as nat);
        let p = checked_pow_i64(a, (e - 1) as nat)->Some_0;
        assert(-1 <= p * a <= 1) by (nonlinear_arith)
            requires
                -1 <= p <= 1 && -1 <= a <= 1,
        ;
    }
}

/// The checked power is exact: it returns the mathematical power whenever
/// that fits in an `i64`, and `None` exactly when it does not.
pub proof fn lemma_checked_pow_exact(a: i64, e: nat)
    ensures
        checked_pow_i64(a, e) matches Option::Some(p) ==> p as int == pow_int(a as int, e),
        checked_pow_i64(a, e) is None ==> !fits_i64(pow_int(a as int, e)),
        fits_i64(pow_int(a as int, e)) ==> (checked_pow_i64(a, e) matches Option::Some(p) && p
            as int == pow_int(a as int, e)),
    decreases e,
{
    if e > 0 {
        lemma_checked_pow_exact(a, (e - 1) as nat);
        let prev = pow_int(a as int, (e - 1) as nat);
        match checked_pow_i64(a, (e - 1) as nat) {
            Option::Some(p) => {
                assert(p as int == prev);
                assert(pow_int(a as int, e) == (a as int) * pow_int(a as int, (e - 1) as nat));
            },
            Option::None => {
                // the base cannot be small, else the previous step succeeds
                if -1 <= a <= 1 {
                    lemma_checked_pow_small_base(a, (e - 1) as nat);
                }
                assert(a < -1 || a > 1);
                assert(!fits_i64(prev));
                assert(abs_int(prev) >= 0x8000000000000000);
                assert(pow_int(a as int, e) == (a as int) * pow_int(a as int, (e - 1) as nat));
                assert(abs_int(prev * a) >= 2 * abs_int(prev)) by (nonlinear_arith)
                    requires
                        (a < -1 || a > 1) && (prev < i64::MIN || prev > i64::MAX) && abs_int(prev)
                            == if prev >= 0 {
                            prev
                        } else {
                            -prev
                        } && abs_int(prev * a) == if prev * a >= 0 {
                            prev * a
                        } else {
                            -(prev * a)
                        },
                ;
                assert(!fits_i64(prev * a));
            },
        }
    }
}

/// Runs the checked exponentiation.
pub fn checked_pow_i64_exec(a: i64, e: u32) -> (r: Option<i64>)
    ensures
        r == checked_pow_i64(a, e as nat),
{
    let mut acc: i64 = 1;
    let mut i: u32 = 0;
    while i < e
        invariant
            i <= e,
            checked_pow_i64(a, i as nat) == Option::Some(acc),
        decreases e - i,
    {
        match acc.checked_mul(a) {
            Option::Some(next) => {
                acc = next;
            },
            Option::None => {
                proof {
                    lemma_checked_pow_none_stays(a, (i + 1) as nat, e as nat);
                }
                return None;
            },
        }
        i = i + 1;
    }
    Some(acc)
}

/// Once a step leaves the range, every later step does too.
proof fn lemma_checked_pow_none_stays(a: i64, lo: nat, hi: nat)
    requires
        lo <= hi,
        checked_pow_i64(a, lo) is None,
    ensures
        checked_pow_i64(a, hi) is None,
    decreases hi - lo,
{
    if lo < hi {
        lemma_checked_pow_none_stays(a, (lo + 1) as nat, hi);
    }
}

} // verus!
