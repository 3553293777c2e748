//! Signed fixed-point arithmetic with six decimal places.
//!
//! Every quantity the library computes with (charge, voltage, percent,
//! seconds) is an `i64` holding the real value multiplied by [`SCALE`].
//! Values are kept within [`FP_MAX`] in magnitude so that every product the
//! derivations form fits comfortably in an `i128`. Division is truncating
//! (toward zero), as [`tdiv`] defines it; [`cdiv`] rounds up and is used for
//! countdowns that must stay positive until their threshold is crossed.

use vstd::prelude::*;

verus! {

/// Fixed-point scale: one unit is represented as `1_000_000`.
pub const SCALE: i64 = 1_000_000;

/// Largest magnitude a fixed-point value may take.
pub const FP_MAX: i64 = 9_007_199_254_740_992;

/// Magnitude of an integer.
pub open spec fn iabs(a: int) -> int {
    if a < 0 {
        -a
    } else {
        a
    }
}

/// A fixed-point value in range.
pub open spec fn fp_ok(v: int) -> bool {
    iabs(v) <= FP_MAX
}

/// An `Option` of a machine integer as an `Option` of a mathematical one.
pub open spec fn opt64(v: Option<i64>) -> Option<int> {
    match v {
        Some(x) => Some(x as int),
        None => None,
    }
}

/// An `Option` of a wide machine integer as an `Option` of a mathematical one.
pub open spec fn opt128(v: Option<i128>) -> Option<int> {
    match v {
        Some(x) => Some(x as int),
        None => None,
    }
}

/// An optional string as its optional sequence of characters.
pub open spec fn opt_str(v: Option<String>) -> Option<Seq<char>> {
    match v {
        Some(x) => Some(x@),
        None => None,
    }
}

/// Every present value of an optional reading is a fixed-point value in range.
pub open spec fn opt_fp_ok(v: Option<i64>) -> bool {
    match v {
        Some(x) => fp_ok(x as int),
        None => true,
    }
}

/// Truncating (toward-zero) division, the rounding rule of the library.
/// Harmlessly 0 when `b == 0`; every caller guards the divisor.
pub open spec fn tdiv(a: int, b: int) -> int {
    let q = iabs(a) / iabs(b);
    if (a < 0) != (b < 0) {
        -q
    } else {
        q
    }
}

/// Ceiling division for a nonnegative dividend and positive divisor.
pub open spec fn cdiv(a: int, b: int) -> int
    recommends
        a >= 0,
        b > 0,
{
    (a + b - 1) / b
}

/// Truncating division on machine integers.
pub fn div_trunc(a: i128, b: i128) -> (r: i128)
    requires
        b != 0,
        a > i128::MIN,
        b > i128::MIN,
    ensures
        r == tdiv(a as int, b as int),
        iabs(r as int) <= iabs(a as int),
{
    let ua: u128 = if a < 0 {
        (-a) as u128
    } else {
        a as u128
    };
    let ub: u128 = if b < 0 {
        (-b) as u128
    } else {
        b as u128
    };
    let q: u128 = ua / ub;
    assert(q <= ua) by {
        assert(ub >= 1);
        assert(ua / ub <= ua / 1 == ua) by (nonlinear_arith)
            requires
                ub >= 1,
        ;
    };
    if (a < 0) != (b < 0) {
        -(q as i128)
    } else {
        q as i128
    }
}

/// Ceiling division on machine integers, for a nonnegative dividend.
pub fn div_ceil(a: i128, b: i128) -> (r: i128)
    requires
        a >= 0,
        b > 0,
        a + b <= i128::MAX,
    ensures
        r == cdiv(a as int, b as int),
        0 <= r,
        r <= a,
        a > 0 ==> r >= 1,
{
    let ua: u128 = a as u128;
    let ub: u128 = b as u128;
    let q: u128 = (ua + (ub - 1)) / ub;
    proof {
        assert((ua as int + (ub as int - 1)) / (ub as int) == cdiv(a as int, b as int));
        assert(cdiv(a as int, b as int) <= a && (a > 0 ==> cdiv(a as int, b as int) >= 1)) by {
            let ai: int = a as int;
            let bi: int = b as int;
            let s: int = ai + bi - 1;
            assert(s / bi >= 1 <==> s >= bi) by (nonlinear_arith)
                requires
                    bi > 0,
            ;
            assert(ai >= 1 ==> s / bi <= ai) by (nonlinear_arith)
                requires
                    bi > 0,
                    s == ai + bi - 1,
            ;
            assert(ai == 0 ==> s / bi == 0) by (nonlinear_arith)
                requires
                    bi > 0,
                    s == ai + bi - 1,
            ;
        };
    }
    q as i128
}

/// A product of two in-range fixed-point values stays well inside `i128`.
pub proof fn lemma_fp_mul_bound(x: int, y: int)
    requires
        fp_ok(x),
        fp_ok(y),
    ensures
        iabs(x * y) <= FP_MAX * FP_MAX,
{
    assert(iabs(x * y) <= FP_MAX * FP_MAX) by (nonlinear_arith)
        requires
            iabs(x) <= FP_MAX,
            iabs(y) <= FP_MAX,
    ;
}

} // verus!
