//! Integer arithmetic of the strategy: the mathematical operations and the checked calls.

use soroban_fixed_point_math::FixedPoint;
use vstd::prelude::*;

verus! {

/// Whether a mathematical integer is representable as an `i128`.
pub open spec fn fits(x: int) -> bool {
    i128::MIN <= x <= i128::MAX
}

/// The quotient rounded toward minus infinity, for a divisor of either sign.
pub open spec fn floor_div(x: int, d: int) -> int {
    if d > 0 {
        x / d
    } else {
        (-x) / (-d)
    }
}

/// The quotient rounded toward zero.
pub open spec fn trunc_div(x: int, d: int) -> int {
    if x >= 0 && d > 0 {
        x / d
    } else if x >= 0 {
        -(x / (-d))
    } else if d > 0 {
        -((-x) / d)
    } else {
        (-x) / (-d)
    }
}

/// What rounding down means.
pub proof fn lemma_floor(x: int, d: int)
    requires
        d > 0,
    ensures
        (x / d) * d <= x < (x / d + 1) * d,
{
    assert((x / d) * d <= x < (x / d + 1) * d) by (nonlinear_arith)
        requires
            d > 0,
    ;
}

/// `floor(x * y / d)`, or nothing where the product or the quotient leaves `i128` or the
/// divisor is zero.
pub open spec fn mul_floor(x: int, y: int, d: int) -> Option<int> {
    if d != 0 && fits(x * y) && fits(floor_div(x * y, d)) {
        Some(floor_div(x * y, d))
    } else {
        None
    }
}

/// Calls `FixedPoint::fixed_mul_floor` of `soroban_fixed_point_math` on `i128`.
///
/// Claimed of it: it never panics; it gives `floor(x * y / denominator)` for every sign of its
/// arguments; it gives `None` exactly where `x * y` leaves `i128`, where `denominator` is zero,
/// or where the quotient leaves `i128`.
#[verifier::external_body]
pub(crate) fn fixed_mul_floor(x: i128, y: i128, denominator: i128) -> (r: Option<i128>)
    ensures
        match r {
            Some(q) => mul_floor(x as int, y as int, denominator as int) == Some(q as int),
            None => mul_floor(x as int, y as int, denominator as int) is None,
        },
{
    x.fixed_mul_floor(y, denominator)
}

} // verus!
