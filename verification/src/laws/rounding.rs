//! What it means to round a quotient, without dividing.

use crate::fixed_point::{floor_div, trunc_div};
use vstd::prelude::*;

verus! {

/// Whether `q` is `x` over `d` rounded toward minus infinity.
pub open spec fn rounds_down(q: int, x: int, d: int) -> bool {
    if d > 0 {
        q * d <= x < (q + 1) * d
    } else {
        (q + 1) * d < x <= q * d
    }
}

/// Whether `q` is `x` over `d` rounded toward zero: what is left has the sign of `x` and is
/// smaller than `d`.
pub open spec fn rounds_toward_zero(q: int, x: int, d: int) -> bool {
    let left = if x >= 0 {
        x - q * d
    } else {
        q * d - x
    };
    0 <= left < if d > 0 {
        d
    } else {
        -d
    }
}

/// A number between two neighbouring multiples is between no others.
proof fn lemma_between_multiples(p: int, q: int, x: int, d: int)
    requires
        d > 0,
        p * d <= x < (p + 1) * d,
        q * d <= x < (q + 1) * d,
    ensures
        p == q,
{
    assert(p == q) by (nonlinear_arith)
        requires
            d > 0,
            p * d <= x < (p + 1) * d,
            q * d <= x < (q + 1) * d,
    ;
}

/// What is between neighbouring multiples is the quotient.
proof fn lemma_quotient(q: int, x: int, d: int)
    requires
        d > 0,
    ensures
        q == x / d <==> q * d <= x < (q + 1) * d,
{
    let p = x / d;
    assert(p * d <= x < (p + 1) * d) by (nonlinear_arith)
        requires
            d > 0,
            p == x / d,
    ;
    if q * d <= x < (q + 1) * d {
        lemma_between_multiples(p, q, x, d);
    }
}

/// Rounding down gives the one number that is rounded down.
pub proof fn law_rounding_down(q: int, x: int, d: int)
    requires
        d != 0,
    ensures
        q == floor_div(x, d) <==> rounds_down(q, x, d),
{
    if d > 0 {
        lemma_quotient(q, x, d);
    } else {
        lemma_quotient(q, -x, -d);
        assert(q * (-d) == -(q * d)) by (nonlinear_arith);
        assert((q + 1) * (-d) == -((q + 1) * d)) by (nonlinear_arith);
    }
}

/// Rounding toward zero gives the one number that is rounded toward zero.
pub proof fn law_rounding_toward_zero(q: int, x: int, d: int)
    requires
        d != 0,
    ensures
        q == trunc_div(x, d) <==> rounds_toward_zero(q, x, d),
{
    let a = if x >= 0 {
        x
    } else {
        -x
    };
    let m = if d > 0 {
        d
    } else {
        -d
    };
    let p = if (x >= 0) == (d > 0) {
        q
    } else {
        -q
    };
    lemma_quotient(p, a, m);
    assert((p + 1) * m == p * m + m) by (nonlinear_arith);
    assert(q * (-d) == -(q * d)) by (nonlinear_arith);
    assert((-q) * d == -(q * d)) by (nonlinear_arith);
    assert((-q) * (-d) == q * d) by (nonlinear_arith);
}

} // verus!
