//! Laws of the health factor.

use crate::constants::SCALAR_12;
use crate::error::StrategyError;
use crate::fixed_point::{fits, lemma_floor, trunc_div};
use crate::laws::rounding::{law_rounding_down, law_rounding_toward_zero, rounds_toward_zero};
use crate::leverage::equity::token_value;
use crate::leverage::health::{position_of, Position};
use vstd::arithmetic::div_mod::{lemma_div_is_ordered, lemma_div_is_ordered_by_denominator};
use vstd::prelude::*;

verus! {

impl Position {
    /// Whether the worth of the position is defined and its debt is worth something.
    pub open spec fn in_debt(self) -> bool {
        &&& self.health() is Ok
        &&& self.d != 0
        &&& self.debt_value()->0 > 0
    }
}

/// A position without debt has the greatest health factor there is.
pub proof fn law_no_debt_is_healthiest(p: Position)
    requires
        p.d == 0,
    ensures
        p.health() == Ok::<int, StrategyError>(i128::MAX as int),
{
}

/// A position in debt has at least a positive health factor `t` exactly where the weighted
/// worth of its supply is at least `t` times the worth of its debt.
pub proof fn law_health_threshold(p: Position, t: int)
    requires
        p.in_debt(),
        t > 0,
    ensures
        p.health()->Ok_0 >= t <==> p.supply_value()->0 * p.c_factor >= t * p.debt_value()->0,
{
    let w = p.supply_value()->0 * p.c_factor;
    let v = p.debt_value()->0;
    let h = trunc_div(w, v);
    if w >= 0 {
        lemma_floor(w, v);
        assert(h >= t <==> w >= t * v) by (nonlinear_arith)
            requires
                v > 0,
                h * v <= w < (h + 1) * v,
        ;
    } else {
        lemma_div_is_ordered(0, -w, v);
        assert(0int / v == 0) by (nonlinear_arith)
            requires
                v > 0,
        ;
        assert(t * v > 0) by (nonlinear_arith)
            requires
                t > 0,
                v > 0,
        ;
    }
}

/// More supply never lowers the health factor, with or without debt.
pub proof fn law_health_grows_with_supply(p: Position, q: Position)
    requires
        p.health() is Ok,
        q.health() is Ok,
        p.b <= q.b,
        p.d == q.d >= 0,
        p.b_rate == q.b_rate >= 0,
        p.d_rate == q.d_rate >= 0,
        p.c_factor == q.c_factor >= 0,
    ensures
        p.health()->Ok_0 <= q.health()->Ok_0,
{
    if p.d != 0 && p.debt_value()->0 != 0 {
        lemma_value_is_not_negative(p.d, p.d_rate);
        lemma_value_grows(p.b, q.b, p.b_rate);
        let x = p.supply_value()->0;
        let y = q.supply_value()->0;
        let c = p.c_factor;
        assert(x * c <= y * c) by (nonlinear_arith)
            requires
                x <= y,
                c >= 0,
        ;
        lemma_trunc_div_grows(x * c, y * c, p.debt_value()->0);
    }
}

/// More debt never raises the health factor, and none at all is no worse than any.
pub proof fn law_health_falls_with_debt(p: Position, q: Position)
    requires
        p.health() is Ok,
        q.health() is Ok,
        0 <= p.d <= q.d,
        p.b == q.b >= 0,
        p.b_rate == q.b_rate >= 0,
        p.d_rate == q.d_rate >= 0,
        p.c_factor == q.c_factor >= 0,
    ensures
        p.health()->Ok_0 >= q.health()->Ok_0,
{
    if p.d != 0 && p.debt_value()->0 != 0 {
        lemma_value_is_not_negative(p.d, p.d_rate);
        lemma_value_is_not_negative(p.b, p.b_rate);
        lemma_value_grows(p.d, q.d, p.d_rate);
        let x = p.supply_value()->0;
        let c = p.c_factor;
        assert(0 <= x * c) by (nonlinear_arith)
            requires
                0 <= x,
                c >= 0,
        ;
        lemma_div_is_ordered_by_denominator(x * c, p.debt_value()->0, q.debt_value()->0);
    }
}

/// Tokens are worth no less than nothing.
proof fn lemma_value_is_not_negative(tokens: int, rate: int)
    requires
        0 <= tokens,
        0 <= rate,
        token_value(tokens, rate) is Some,
    ensures
        0 <= token_value(tokens, rate)->0,
{
    assert(0 <= tokens * rate) by (nonlinear_arith)
        requires
            0 <= tokens,
            0 <= rate,
    ;
}

/// More tokens are worth no less.
proof fn lemma_value_grows(t1: int, t2: int, rate: int)
    requires
        t1 <= t2,
        0 <= rate,
        token_value(t1, rate) is Some,
        token_value(t2, rate) is Some,
    ensures
        token_value(t1, rate)->0 <= token_value(t2, rate)->0,
{
    assert(t1 * rate <= t2 * rate) by (nonlinear_arith)
        requires
            t1 <= t2,
            0 <= rate,
    ;
}

/// Rounding toward zero keeps the order of what is divided.
proof fn lemma_trunc_div_grows(x: int, y: int, d: int)
    requires
        x <= y,
        0 < d,
    ensures
        trunc_div(x, d) <= trunc_div(y, d),
{
    assert(0int / d == 0) by (nonlinear_arith)
        requires
            d > 0,
    ;
    if x >= 0 {
        lemma_div_is_ordered(x, y, d);
    } else {
        lemma_div_is_ordered(0, -x, d);
        if y < 0 {
            lemma_div_is_ordered(-y, -x, d);
        } else {
            lemma_div_is_ordered(0, y, d);
        }
    }
}

/// Each machine integer is the one it is named after.
pub proof fn law_position_is_named(
    b_tokens: i128,
    d_tokens: i128,
    b_rate: i128,
    d_rate: i128,
    c_factor: i128,
)
    ensures
        ({
            let p = position_of(b_tokens, d_tokens, b_rate, d_rate, c_factor);
            &&& p.b == b_tokens
            &&& p.d == d_tokens
            &&& p.b_rate == b_rate
            &&& p.d_rate == d_rate
            &&& p.c_factor == c_factor
        }),
{
}

/// Tokens at a rate have the worth that is their product in twelve decimals, rounded down.
proof fn lemma_worth(tokens: int, rate: int, worth: int)
    requires
        fits(tokens * rate),
        worth * SCALAR_12 <= tokens * rate < (worth + 1) * SCALAR_12,
    ensures
        token_value(tokens, rate) == Some(worth),
{
    law_rounding_down(worth, tokens * rate, SCALAR_12 as int);
}

/// With the supply worth `supply` and the debt worth `debt`, each at its own rate and rounded
/// down, the health factor is the supply times the collateral factor over the debt, rounded
/// toward zero. It is the greatest one where the debt is worth nothing.
pub proof fn law_health_is_weighted_supply_over_debt(
    p: Position,
    supply: int,
    debt: int,
    hf: int,
)
    requires
        p.d != 0,
        fits(p.b * p.b_rate),
        fits(p.d * p.d_rate),
        supply * SCALAR_12 <= p.b * p.b_rate < (supply + 1) * SCALAR_12,
        debt * SCALAR_12 <= p.d * p.d_rate < (debt + 1) * SCALAR_12,
        fits(supply * p.c_factor),
        fits(hf),
        if debt == 0 {
            hf == i128::MAX
        } else {
            rounds_toward_zero(hf, supply * p.c_factor, debt)
        },
    ensures
        p.health() == Ok::<int, StrategyError>(hf),
{
    lemma_worth(p.b, p.b_rate, supply);
    lemma_worth(p.d, p.d_rate, debt);
    if debt != 0 {
        law_rounding_toward_zero(hf, supply * p.c_factor, debt);
    }
}

/// A position in debt has no health factor exactly where one of the products leaves the
/// machine's range, or the quotient does.
pub proof fn law_health_overflows(p: Position)
    requires
        p.d != 0,
    ensures
        ({
            let supply = p.b * p.b_rate / SCALAR_12 as int;
            let debt = p.d * p.d_rate / SCALAR_12 as int;
            let computed = fits(p.b * p.b_rate) && fits(p.d * p.d_rate) && fits(
                supply * p.c_factor,
            );
            &&& p.health() == Err::<int, _>(StrategyError::ArithmeticError) <==> !computed
            &&& p.health() == Err::<int, _>(StrategyError::DivisionByZero) <==> computed && supply
                * p.c_factor == i128::MIN && debt == -1
            &&& p.health() is Err ==> p.health()->Err_0 == StrategyError::ArithmeticError
                || p.health()->Err_0 == StrategyError::DivisionByZero
        }),
{
    let supply = p.b * p.b_rate / SCALAR_12 as int;
    let debt = p.d * p.d_rate / SCALAR_12 as int;
    let w = supply * p.c_factor;
    if fits(p.b * p.b_rate) && fits(p.d * p.d_rate) && fits(w) && debt != 0 {
        let h = trunc_div(w, debt);
        law_rounding_toward_zero(h, w, debt);
        lemma_quotient_of_machine_integers(h, w, debt);
    }
}

/// The one quotient of machine integers that is none itself is that of the least one by minus
/// one.
proof fn lemma_quotient_of_machine_integers(q: int, x: int, d: int)
    requires
        d != 0,
        fits(x),
        rounds_toward_zero(q, x, d),
    ensures
        !fits(q) <==> x == i128::MIN && d == -1,
{
    let least = i128::MIN as int;
    let greatest = i128::MAX as int;
    assert(!(least <= q <= greatest) <==> x == least && d == -1) by (nonlinear_arith)
        requires
            d != 0,
            least == -greatest - 1,
            greatest > 0,
            least <= x <= greatest,
            x >= 0 ==> 0 <= x - q * d,
            x >= 0 && d > 0 ==> x - q * d < d,
            x >= 0 && d < 0 ==> x - q * d < -d,
            x < 0 ==> 0 <= q * d - x,
            x < 0 && d > 0 ==> q * d - x < d,
            x < 0 && d < 0 ==> q * d - x < -d,
    ;
}

/// A position whose debt is worth a unit or more has at least the health factor `t` exactly
/// where its supply tokens at the supply rate, weighted by the collateral factor, are worth
/// `t` times its debt tokens at the debt rate.
pub proof fn law_health_threshold_in_tokens(
    b_tokens: i128,
    d_tokens: i128,
    b_rate: i128,
    d_rate: i128,
    c_factor: i128,
    t: int,
)
    requires
        b_tokens >= 0,
        b_rate >= 0,
        c_factor >= 0,
        d_tokens > 0,
        d_tokens * d_rate >= SCALAR_12,
        fits(b_tokens * b_rate),
        fits(d_tokens * d_rate),
        fits((b_tokens * b_rate / SCALAR_12 as int) * c_factor),
        t > 0,
    ensures
        ({
            let hf = position_of(b_tokens, d_tokens, b_rate, d_rate, c_factor).health();
            let supply = b_tokens * b_rate / SCALAR_12 as int;
            let debt = d_tokens * d_rate / SCALAR_12 as int;
            &&& hf is Ok
            &&& hf->Ok_0 >= t <==> supply * c_factor >= t * debt
        }),
{
    let p = position_of(b_tokens, d_tokens, b_rate, d_rate, c_factor);
    law_health_overflows(p);
    law_health_threshold(p, t);
}

/// A greater worth of a supply token never lowers the health factor.
pub proof fn law_health_grows_with_supply_rate(p: Position, q: Position)
    requires
        p.health() is Ok,
        q.health() is Ok,
        p.b == q.b >= 0,
        p.d == q.d >= 0,
        p.b_rate <= q.b_rate,
        p.d_rate == q.d_rate >= 0,
        p.c_factor == q.c_factor >= 0,
    ensures
        p.health()->Ok_0 <= q.health()->Ok_0,
{
    if p.d != 0 && p.debt_value()->0 != 0 {
        lemma_value_is_not_negative(p.d, p.d_rate);
        lemma_value_grows_with_rate(p.b, p.b_rate, q.b_rate);
        let x = p.supply_value()->0;
        let y = q.supply_value()->0;
        let c = p.c_factor;
        assert(x * c <= y * c) by (nonlinear_arith)
            requires
                x <= y,
                c >= 0,
        ;
        lemma_trunc_div_grows(x * c, y * c, p.debt_value()->0);
    }
}

/// A greater worth of a debt token never raises the health factor.
pub proof fn law_health_falls_with_debt_rate(p: Position, q: Position)
    requires
        p.health() is Ok,
        q.health() is Ok,
        p.b == q.b >= 0,
        p.d == q.d >= 0,
        p.b_rate == q.b_rate >= 0,
        0 <= p.d_rate <= q.d_rate,
        p.c_factor == q.c_factor >= 0,
    ensures
        p.health()->Ok_0 >= q.health()->Ok_0,
{
    if p.d != 0 && p.debt_value()->0 != 0 {
        let x = p.supply_value()->0;
        let c = p.c_factor;
        lemma_value_is_not_negative(p.d, p.d_rate);
        lemma_value_is_not_negative(q.b, q.b_rate);
        lemma_value_grows_with_rate(p.d, p.d_rate, q.d_rate);
        assert(0 <= x * c) by (nonlinear_arith)
            requires
                0 <= x,
                c >= 0,
        ;
        lemma_div_is_ordered_by_denominator(x * c, p.debt_value()->0, q.debt_value()->0);
    }
}

/// A greater collateral factor never lowers the health factor.
pub proof fn law_health_grows_with_collateral_factor(p: Position, q: Position)
    requires
        p.health() is Ok,
        q.health() is Ok,
        p.b == q.b >= 0,
        p.d == q.d >= 0,
        p.b_rate == q.b_rate >= 0,
        p.d_rate == q.d_rate >= 0,
        p.c_factor <= q.c_factor,
    ensures
        p.health()->Ok_0 <= q.health()->Ok_0,
{
    if p.d != 0 && p.debt_value()->0 != 0 {
        let x = p.supply_value()->0;
        lemma_value_is_not_negative(p.d, p.d_rate);
        lemma_value_is_not_negative(q.b, q.b_rate);
        assert(x * p.c_factor <= x * q.c_factor) by (nonlinear_arith)
            requires
                0 <= x,
                p.c_factor <= q.c_factor,
        ;
        lemma_trunc_div_grows(x * p.c_factor, x * q.c_factor, p.debt_value()->0);
    }
}

/// Tokens are worth no less at a greater rate.
proof fn lemma_value_grows_with_rate(tokens: int, r1: int, r2: int)
    requires
        0 <= tokens,
        r1 <= r2,
        token_value(tokens, r1) is Some,
        token_value(tokens, r2) is Some,
    ensures
        token_value(tokens, r1)->0 <= token_value(tokens, r2)->0,
{
    assert(tokens * r1 <= tokens * r2) by (nonlinear_arith)
        requires
            0 <= tokens,
            r1 <= r2,
    ;
}

} // verus!
