//! Fallible fixed-point arithmetic: division and square root.
//!
//! Both operations return an [`Outcome`] rather than a sentinel value:
//! division by zero and square roots of negative numbers are expected
//! domain failures, reported as explicit [`FailureReason`] values that the
//! caller handles by exhaustive matching.

use vstd::arithmetic::div_mod::{lemma_div_is_ordered, lemma_div_multiples_vanish};
use vstd::prelude::*;

use crate::fixed::Fixed;
use crate::fixed::SCALE;
use crate::outcome::FailureReason;
use crate::outcome::Outcome;

verus! {

/// The quotient `n / d` rounded toward zero, the rounding used by
/// fixed-point division.
pub open spec fn quot_trunc(n: int, d: int) -> int
    recommends
        d != 0,
{
    if (n >= 0) == (d >= 0) {
        (vstd::math::abs(n) / vstd::math::abs(d)) as int
    } else {
        -((vstd::math::abs(n) / vstd::math::abs(d)) as int)
    }
}

/// What `divide` promises of its result: failure with `DivisionByZero`
/// exactly when the divisor is zero, otherwise success with the
/// fixed-point quotient.
pub open spec fn divide_post(a: Fixed, b: Fixed, r: Outcome<Fixed>) -> bool {
    match r {
        Outcome::Failure(reason) => b.units == 0 && reason == FailureReason::DivisionByZero,
        Outcome::Success(q) => b.units != 0 && q.units == quot_trunc(
            a.units * SCALE,
            b.units as int,
        ),
    }
}

/// Fixed-point division of `a` by `b`.
///
/// Fails with `DivisionByZero` exactly when `b` is zero; for every other
/// divisor it succeeds with the quotient rounded toward zero. The
/// precondition only keeps the quotient representable in the fixed-point
/// range.
pub fn divide(a: Fixed, b: Fixed) -> (r: Outcome<Fixed>)
    requires
        b.units != 0 ==> vstd::math::abs(
            quot_trunc(a.units * SCALE, b.units as int),
        ) <= i64::MAX,
    ensures
        divide_post(a, b, r),
{
    if b.units == 0 {
        return Outcome::Failure(FailureReason::DivisionByZero);
    }
    let na: u128 = if a.units < 0 {
        (-(a.units as i128)) as u128
    } else {
        a.units as u128
    };
    let nb: u128 = if b.units < 0 {
        (-(b.units as i128)) as u128
    } else {
        b.units as u128
    };
    proof {
        assert(na == vstd::math::abs(a.units as int));
        assert(nb == vstd::math::abs(b.units as int));
        assert(na <= 0x8000_0000_0000_0000u128);
        assert(SCALE as u128 == 1_000_000_000_000u128);
        assert(na * (SCALE as u128) <= 0x8000_0000_0000_0000u128 * 1_000_000_000_000u128)
            by (nonlinear_arith)
            requires
                na <= 0x8000_0000_0000_0000u128,
                SCALE as u128 == 1_000_000_000_000u128,
        ;
    }
    let num: u128 = na * (SCALE as u128);
    let q: u128 = num / nb;
    proof {
        assert(num == vstd::math::abs(a.units * SCALE));
        assert(q == vstd::math::abs(a.units * SCALE) / vstd::math::abs(b.units as int));
        assert(q == vstd::math::abs(quot_trunc(a.units * SCALE, b.units as int)));
        assert(q <= i64::MAX);
    }
    if (a.units < 0) != (b.units < 0) {
        let qi: i128 = -(q as i128);
        Outcome::Success(Fixed { units: qi as i64 })
    } else {
        Outcome::Success(Fixed { units: q as i64 })
    }
}

/// Whether `r` is the fixed-point square root of `n`, both given in
/// units: the largest unit count whose square does not exceed `n * SCALE`.
pub open spec fn is_sqrt_units(n: int, r: int) -> bool {
    &&& 0 <= r
    &&& r * r <= n * SCALE
    &&& n * SCALE < (r + 1) * (r + 1)
}

/// What `sqrt` promises of its result: failure with `NegativeInput`
/// exactly when the operand is negative, otherwise success with the
/// fixed-point square root.
pub open spec fn sqrt_post(n: Fixed, r: Outcome<Fixed>) -> bool {
    match r {
        Outcome::Failure(reason) => n.units < 0 && reason == FailureReason::NegativeInput,
        Outcome::Success(v) => n.units >= 0 && is_sqrt_units(n.units as int, v.units as int),
    }
}

/// The integer square root of `x`: the unique `r` with
/// `r * r <= x < (r + 1) * (r + 1)`.
fn isqrt_u128(x: u128) -> (r: u128)
    ensures
        r * r <= x,
        x < (r + 1) * (r + 1),
{
    let mut lo: u128 = 0;
    let mut hi: u128 = 0xFFFF_FFFF_FFFF_FFFFu128;
    proof {
        assert(x < (hi + 1) * (hi + 1)) by (nonlinear_arith)
            requires
                hi == 0xFFFF_FFFF_FFFF_FFFFu128,
                x <= u128::MAX,
        ;
    }
    while lo < hi
        invariant
            lo <= hi,
            hi <= 0xFFFF_FFFF_FFFF_FFFFu128,
            lo * lo <= x,
            x < (hi + 1) * (hi + 1),
        decreases hi - lo,
    {
        let mid: u128 = lo + (hi - lo + 1) / 2;
        proof {
            assert(lo < mid <= hi);
            assert(mid * mid <= 0xFFFF_FFFF_FFFF_FFFFu128 * 0xFFFF_FFFF_FFFF_FFFFu128)
                by (nonlinear_arith)
                requires
                    mid <= 0xFFFF_FFFF_FFFF_FFFFu128,
            ;
        }
        if mid * mid <= x {
            lo = mid;
        } else {
            hi = mid - 1;
        }
    }
    lo
}

/// Fixed-point square root of `n`.
///
/// Fails with `NegativeInput` exactly when `n` is negative; for every
/// non-negative operand it succeeds with the largest representable value
/// whose square does not exceed `n`.
pub fn sqrt(n: Fixed) -> (r: Outcome<Fixed>)
    ensures
        sqrt_post(n, r),
{
    if n.units < 0 {
        return Outcome::Failure(FailureReason::NegativeInput);
    }
    let x: u128 = (n.units as u128) * (SCALE as u128);
    let root: u128 = isqrt_u128(x);
    proof {
        assert(x <= 0x7FFF_FFFF_FFFF_FFFFu128 * 1_000_000_000_000u128);
        assert(root <= 4_000_000_000_000_000u128) by (nonlinear_arith)
            requires
                root * root <= x,
                x <= 0x7FFF_FFFF_FFFF_FFFFu128 * 1_000_000_000_000u128,
        ;
    }
    Outcome::Success(Fixed { units: root as i64 })
}

/// Fixed-point square roots are unique: two unit counts that both
/// satisfy `is_sqrt_units` for the same operand are equal.
pub proof fn lemma_sqrt_units_unique(n: int, r1: int, r2: int)
    requires
        is_sqrt_units(n, r1),
        is_sqrt_units(n, r2),
    ensures
        r1 == r2,
{
    if r1 < r2 {
        assert((r1 + 1) * (r1 + 1) <= r2 * r2) by (nonlinear_arith)
            requires
                0 <= r1,
                r1 < r2,
        ;
    }
    if r2 < r1 {
        assert((r2 + 1) * (r2 + 1) <= r1 * r1) by (nonlinear_arith)
            requires
                0 <= r2,
                r2 < r1,
        ;
    }
}

/// Division is a function of its operands alone: any two outcomes that
/// satisfy the contract of `divide` for the same operands are identical.
pub proof fn lemma_divide_deterministic(a: Fixed, b: Fixed, r1: Outcome<Fixed>, r2: Outcome<Fixed>)
    requires
        divide_post(a, b, r1),
        divide_post(a, b, r2),
    ensures
        r1 == r2,
{
}

/// Square root is a function of its operand alone: any two outcomes that
/// satisfy the contract of `sqrt` for the same operand are identical.
pub proof fn lemma_sqrt_deterministic(n: Fixed, r1: Outcome<Fixed>, r2: Outcome<Fixed>)
    requires
        sqrt_post(n, r1),
        sqrt_post(n, r2),
    ensures
        r1 == r2,
{
    if r1 is Success && r2 is Success {
        lemma_sqrt_units_unique(
            n.units as int,
            r1->Success_0.units as int,
            r2->Success_0.units as int,
        );
    }
}

/// A square root of a non-negative operand always succeeds, and squaring
/// the result recovers the operand to within one fixed-point unit on
/// either side.
pub proof fn lemma_sqrt_success_round_trip(n: Fixed, r: Outcome<Fixed>)
    requires
        n.units >= 0,
        sqrt_post(n, r),
    ensures
        r is Success,
        (r->Success_0.units * r->Success_0.units) / (SCALE as int) <= n.units,
        n.units <= ((r->Success_0.units + 1) * (r->Success_0.units + 1)) / (SCALE as int),
{
    lemma_sqrt_round_trip(n.units as int, r->Success_0.units as int);
}

/// Round trip: squaring a square root recovers the operand to within one
/// fixed-point unit. `r * r / SCALE` is the fixed-point square of `r`.
pub proof fn lemma_sqrt_round_trip(n: int, r: int)
    requires
        n >= 0,
        is_sqrt_units(n, r),
    ensures
        (r * r) / (SCALE as int) <= n,
        n <= ((r + 1) * (r + 1)) / (SCALE as int),
{
    lemma_div_is_ordered(r * r, n * (SCALE as int), SCALE as int);
    lemma_div_multiples_vanish(n, SCALE as int);
    assert((SCALE as int) * n == n * (SCALE as int));
    lemma_div_is_ordered(n * (SCALE as int) + 1, (r + 1) * (r + 1), SCALE as int);
    assert((n * (SCALE as int) + 1) / (SCALE as int) >= n) by {
        lemma_div_multiples_vanish(n, SCALE as int);
        vstd::arithmetic::div_mod::lemma_div_is_ordered(
            n * (SCALE as int),
            n * (SCALE as int) + 1,
            SCALE as int,
        );
    };
}

} // verus!

