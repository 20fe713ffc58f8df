//! Laws of equity and shares.

use crate::constants::SCALAR_12;
use crate::error::{as_int, StrategyError};
use crate::fixed_point::{fits, floor_div, lemma_floor};
use crate::laws::rounding::{law_rounding_down, rounds_down};
use crate::leverage::equity::{equity, shares_for, shares_value, token_value};
use crate::types::LeverageReserves;
use vstd::arithmetic::div_mod::{
    lemma_div_by_multiple, lemma_div_is_ordered, lemma_div_multiples_vanish,
};
use vstd::prelude::*;

verus! {

/// Equity fails only where the worth of the supply or of the debt overflows: the difference of
/// the two always fits.
pub proof fn law_equity_fails_only_on_values(reserves: LeverageReserves)
    ensures
        equity(reserves) is Err <==> {
            ||| token_value(reserves.total_b_tokens as int, reserves.b_rate as int) is None
            ||| token_value(reserves.total_d_tokens as int, reserves.d_rate as int) is None
        },
{
}

/// What shares are worth is representable wherever it is defined.
pub proof fn law_value_fits(shares: int, reserves: LeverageReserves)
    ensures
        shares_value(shares, reserves) is Ok ==> fits(shares_value(shares, reserves)->Ok_0),
{
}

/// All shares together are worth all of the equity, to the unit.
pub proof fn law_all_shares_own_all_equity(reserves: LeverageReserves)
    requires
        reserves.total_shares != 0,
        equity(reserves) is Ok,
        equity(reserves)->Ok_0 > 0,
        fits(reserves.total_shares * equity(reserves)->Ok_0),
    ensures
        shares_value(reserves.total_shares as int, reserves) == equity(reserves),
{
    let e = equity(reserves)->Ok_0;
    let t = reserves.total_shares as int;
    if t > 0 {
        lemma_div_by_multiple(e, t);
        assert(t * e == e * t) by (nonlinear_arith);
    } else {
        lemma_div_by_multiple(e, -t);
        assert(-(t * e) == e * (-t)) by (nonlinear_arith);
    }
}

/// No shares are worth nothing.
pub proof fn law_no_shares_are_worth_nothing(reserves: LeverageReserves)
    requires
        reserves.total_shares == 0 || equity(reserves) is Ok,
    ensures
        shares_value(0, reserves) == Ok::<int, StrategyError>(0),
{
    if reserves.total_shares != 0 && equity(reserves)->Ok_0 > 0 {
        let t = reserves.total_shares as int;
        let e = equity(reserves)->Ok_0;
        assert(0 * e == 0);
        assert(floor_div(0, t) == 0) by (nonlinear_arith)
            requires
                t != 0,
        ;
    }
}

/// More shares are never worth less.
pub proof fn law_value_grows_with_shares(s1: int, s2: int, reserves: LeverageReserves)
    requires
        s1 <= s2,
        reserves.total_shares >= 0,
        shares_value(s1, reserves) is Ok,
        shares_value(s2, reserves) is Ok,
    ensures
        shares_value(s1, reserves)->Ok_0 <= shares_value(s2, reserves)->Ok_0,
{
    if reserves.total_shares != 0 && equity(reserves)->Ok_0 > 0 {
        let t = reserves.total_shares as int;
        let e = equity(reserves)->Ok_0;
        assert(s1 * e <= s2 * e) by (nonlinear_arith)
            requires
                s1 <= s2,
                e > 0,
        ;
        lemma_div_is_ordered(s1 * e, s2 * e, t);
    }
}

/// A part of the shares is worth no less than nothing and no more than the equity.
pub proof fn law_value_within_equity(shares: int, reserves: LeverageReserves)
    requires
        0 <= shares <= reserves.total_shares,
        shares_value(shares, reserves) is Ok,
    ensures
        0 <= shares_value(shares, reserves)->Ok_0,
        reserves.total_shares > 0 && equity(reserves)->Ok_0 > 0 ==> shares_value(
            shares,
            reserves,
        )->Ok_0 <= equity(reserves)->Ok_0,
{
    if reserves.total_shares != 0 && equity(reserves)->Ok_0 > 0 {
        let t = reserves.total_shares as int;
        let e = equity(reserves)->Ok_0;
        assert(0 <= shares * e <= e * t) by (nonlinear_arith)
            requires
                0 <= shares <= t,
                e > 0,
        ;
        lemma_div_is_ordered(0, shares * e, t);
        lemma_div_is_ordered(shares * e, e * t, t);
        lemma_div_by_multiple(e, t);
        lemma_div_by_multiple(0, t);
    }
}

/// Splitting a holding gains nothing and loses at most one unit: the values of two parts add up
/// to the value of the whole or to one less.
pub proof fn law_splitting_gains_nothing(s1: int, s2: int, reserves: LeverageReserves)
    requires
        reserves.total_shares >= 0,
        shares_value(s1, reserves) is Ok,
        shares_value(s2, reserves) is Ok,
        shares_value(s1 + s2, reserves) is Ok,
    ensures
        ({
            let parts = shares_value(s1, reserves)->Ok_0 + shares_value(s2, reserves)->Ok_0;
            parts <= shares_value(s1 + s2, reserves)->Ok_0 <= parts + 1
        }),
{
    if reserves.total_shares != 0 && equity(reserves)->Ok_0 > 0 {
        let t = reserves.total_shares as int;
        let e = equity(reserves)->Ok_0;
        lemma_floor(s1 * e, t);
        lemma_floor(s2 * e, t);
        lemma_floor((s1 + s2) * e, t);
        let v1 = s1 * e / t;
        let v2 = s2 * e / t;
        let v = (s1 + s2) * e / t;
        assert((s1 + s2) * e == s1 * e + s2 * e) by (nonlinear_arith);
        assert(v1 + v2 <= v <= v1 + v2 + 1) by (nonlinear_arith)
            requires
                t > 0,
                v1 * t <= s1 * e < (v1 + 1) * t,
                v2 * t <= s2 * e < (v2 + 1) * t,
                v * t <= s1 * e + s2 * e < (v + 1) * t,
        ;
    }
}

/// An amount turned into shares and back is never more than it was, and falls short of it by
/// less than one unit and the worth of one share.
pub proof fn law_amount_roundtrip(amount: int, reserves: LeverageReserves)
    requires
        reserves.total_shares > 0,
        reserves.total_b_tokens != 0,
        equity(reserves) is Ok,
        equity(reserves)->Ok_0 > 0,
        shares_for(amount, reserves) is Ok,
        shares_value(shares_for(amount, reserves)->Ok_0, reserves) is Ok,
    ensures
        ({
            let back = shares_value(shares_for(amount, reserves)->Ok_0, reserves)->Ok_0;
            &&& back <= amount
            &&& (amount - back) * reserves.total_shares < equity(reserves)->Ok_0
                + reserves.total_shares
        }),
{
    let t = reserves.total_shares as int;
    let e = equity(reserves)->Ok_0;
    let s = amount * t / e;
    let v = s * e / t;
    lemma_floor(amount * t, e);
    lemma_floor(s * e, t);
    assert(v <= amount && (amount - v) * t < e + t) by (nonlinear_arith)
        requires
            t > 0,
            e > 0,
            s * e <= amount * t < (s + 1) * e,
            v * t <= s * e < (v + 1) * t,
    ;
}

/// Shares turned into an amount and back are never more than they were, and fall short by less
/// than one share and the shares that one unit is worth.
pub proof fn law_shares_roundtrip(shares: int, reserves: LeverageReserves)
    requires
        reserves.total_shares > 0,
        reserves.total_b_tokens != 0,
        equity(reserves) is Ok,
        equity(reserves)->Ok_0 > 0,
        shares_value(shares, reserves) is Ok,
        shares_for(shares_value(shares, reserves)->Ok_0, reserves) is Ok,
    ensures
        ({
            let back = shares_for(shares_value(shares, reserves)->Ok_0, reserves)->Ok_0;
            &&& back <= shares
            &&& (shares - back) * equity(reserves)->Ok_0 < equity(reserves)->Ok_0
                + reserves.total_shares
        }),
{
    let t = reserves.total_shares as int;
    let e = equity(reserves)->Ok_0;
    let v = shares * e / t;
    let s = v * t / e;
    lemma_floor(shares * e, t);
    lemma_floor(v * t, e);
    assert(s <= shares && (shares - s) * e < e + t) by (nonlinear_arith)
        requires
            t > 0,
            e > 0,
            v * t <= shares * e < (v + 1) * t,
            s * e <= v * t < (s + 1) * e,
    ;
}

/// The whole equity turned into shares and back is the whole equity.
pub proof fn law_equity_roundtrip(reserves: LeverageReserves)
    requires
        reserves.total_shares != 0,
        reserves.total_b_tokens != 0,
        equity(reserves) is Ok,
        equity(reserves)->Ok_0 > 0,
        fits(reserves.total_shares * equity(reserves)->Ok_0),
    ensures
        shares_for(equity(reserves)->Ok_0, reserves) == Ok::<int, StrategyError>(
            reserves.total_shares as int,
        ),
        shares_value(shares_for(equity(reserves)->Ok_0, reserves)->Ok_0, reserves) == equity(
            reserves,
        ),
{
    let t = reserves.total_shares as int;
    let e = equity(reserves)->Ok_0;
    assert(e * t == t * e) by (nonlinear_arith);
    lemma_div_multiples_vanish(t, e);
    law_all_shares_own_all_equity(reserves);
}

/// A gain in equity without new shares never lowers what a holding is worth, and raises what
/// all shares are worth by the gain.
pub proof fn law_harvest_raises_value(
    shares: int,
    before: LeverageReserves,
    after: LeverageReserves,
)
    requires
        0 <= shares,
        0 <= before.total_shares,
        after.total_shares == before.total_shares,
        equity(before) is Ok,
        equity(after) is Ok,
        equity(before)->Ok_0 <= equity(after)->Ok_0,
        shares_value(shares, before) is Ok,
        shares_value(shares, after) is Ok,
    ensures
        shares_value(shares, before)->Ok_0 <= shares_value(shares, after)->Ok_0,
        0 < shares == before.total_shares && 0 < equity(before)->Ok_0 ==> shares_value(
            shares,
            after,
        )->Ok_0 - shares_value(shares, before)->Ok_0 == equity(after)->Ok_0 - equity(before)->Ok_0,
{
    let t = before.total_shares as int;
    let e1 = equity(before)->Ok_0;
    let e2 = equity(after)->Ok_0;
    if t != 0 && e2 > 0 {
        assert(0 <= shares * e2) by (nonlinear_arith)
            requires
                0 <= shares,
                e2 > 0,
        ;
        lemma_div_is_ordered(0, shares * e2, t);
        lemma_div_by_multiple(0, t);
        if e1 > 0 {
            assert(shares * e1 <= shares * e2) by (nonlinear_arith)
                requires
                    0 <= shares,
                    e1 <= e2,
            ;
            lemma_div_is_ordered(shares * e1, shares * e2, t);
            if shares == t {
                law_all_shares_own_all_equity(before);
                law_all_shares_own_all_equity(after);
            }
        }
    }
}

/// With the supply tokens worth `supply` at the supply rate and the debt tokens worth `debt` at
/// the debt rate, both rounded down, the equity is the difference.
pub proof fn law_equity_is_supply_less_debt(reserves: LeverageReserves, supply: int, debt: int)
    requires
        fits(reserves.total_b_tokens * reserves.b_rate),
        fits(reserves.total_d_tokens * reserves.d_rate),
        supply * SCALAR_12 <= reserves.total_b_tokens * reserves.b_rate < (supply + 1) * SCALAR_12,
        debt * SCALAR_12 <= reserves.total_d_tokens * reserves.d_rate < (debt + 1) * SCALAR_12,
    ensures
        equity(reserves) == Ok::<int, StrategyError>(supply - debt),
{
    law_rounding_down(supply, reserves.total_b_tokens * reserves.b_rate, SCALAR_12 as int);
    law_rounding_down(debt, reserves.total_d_tokens * reserves.d_rate, SCALAR_12 as int);
}

/// Equity fails exactly where one of the two products of tokens and rate leaves the machine's
/// range, and always with the same error.
pub proof fn law_equity_overflows(reserves: LeverageReserves)
    ensures
        equity(reserves) is Ok <==> fits(reserves.total_b_tokens * reserves.b_rate) && fits(
            reserves.total_d_tokens * reserves.d_rate,
        ),
        equity(reserves) is Err ==> equity(reserves)->Err_0 == StrategyError::ArithmeticError,
{
}

/// A holding is worth its part of the equity, rounded down: `value` of the `total` where
/// `shares` are of `total_shares`. It is worth nothing where nothing is in circulation or
/// nothing is left to own.
pub proof fn law_value_is_proportional(
    shares: int,
    reserves: LeverageReserves,
    total: int,
    value: int,
)
    requires
        equity(reserves) == Ok::<int, StrategyError>(total),
    ensures
        reserves.total_shares == 0 || total <= 0 ==> shares_value(shares, reserves) == Ok::<
            int,
            StrategyError,
        >(0),
        reserves.total_shares != 0 && total > 0 && fits(shares * total) && rounds_down(
            value,
            shares * total,
            reserves.total_shares as int,
        ) ==> shares_value(shares, reserves) == if fits(value) {
            Ok::<int, StrategyError>(value)
        } else {
            Err(StrategyError::ArithmeticError)
        },
        reserves.total_shares != 0 && total > 0 && !fits(shares * total) ==> shares_value(
            shares,
            reserves,
        ) == Err::<int, _>(StrategyError::ArithmeticError),
{
    if reserves.total_shares != 0 {
        law_rounding_down(value, shares * total, reserves.total_shares as int);
    }
}

/// What shares are worth is unknown where the equity is, unless there are none at all.
pub proof fn law_value_needs_equity(shares: int, reserves: LeverageReserves)
    requires
        equity(reserves) is Err,
    ensures
        reserves.total_shares == 0 ==> shares_value(shares, reserves) == Ok::<int, StrategyError>(
            0,
        ),
        reserves.total_shares != 0 ==> shares_value(shares, reserves) == equity(reserves),
{
}

/// An amount is worth its part of the shares, rounded down: `shares` of `total_shares` where
/// the amount is of the `total` equity. It is worth as many shares as units where nothing has
/// been deposited or nothing is left to own.
pub proof fn law_shares_are_proportional(
    amount: int,
    reserves: LeverageReserves,
    total: int,
    shares: int,
)
    requires
        equity(reserves) == Ok::<int, StrategyError>(total),
    ensures
        reserves.total_shares == 0 || reserves.total_b_tokens == 0 || total <= 0 ==> shares_for(
            amount,
            reserves,
        ) == Ok::<int, StrategyError>(amount),
        reserves.total_shares != 0 && reserves.total_b_tokens != 0 && total > 0 && fits(
            amount * reserves.total_shares,
        ) && shares * total <= amount * reserves.total_shares < (shares + 1) * total
            ==> shares_for(amount, reserves) == Ok::<int, StrategyError>(shares),
        reserves.total_shares != 0 && reserves.total_b_tokens != 0 && total > 0 && !fits(
            amount * reserves.total_shares,
        ) ==> shares_for(amount, reserves) == Err::<int, _>(StrategyError::ArithmeticError),
{
    let x = amount * reserves.total_shares;
    if total > 0 && fits(x) {
        law_rounding_down(shares, x, total);
        let q = x / total;
        law_rounding_down(q, x, total);
        assert(i128::MIN <= q <= i128::MAX) by (nonlinear_arith)
            requires
                total >= 1,
                q * total <= x < (q + 1) * total,
                i128::MIN <= x <= i128::MAX,
        ;
    }
}

/// How many shares an amount is worth is unknown where the equity is, unless nothing has been
/// deposited.
pub proof fn law_shares_need_equity(amount: int, reserves: LeverageReserves)
    requires
        equity(reserves) is Err,
    ensures
        reserves.total_shares == 0 || reserves.total_b_tokens == 0 ==> shares_for(amount, reserves)
            == Ok::<int, StrategyError>(amount),
        reserves.total_shares != 0 && reserves.total_b_tokens != 0 ==> shares_for(amount, reserves)
            == equity(reserves),
{
}

/// A result read as one on mathematical integers keeps its number or its error.
pub proof fn law_reading_a_result_keeps_it(r: Result<i128, StrategyError>)
    ensures
        r is Ok <==> as_int(r) is Ok,
        r is Ok ==> as_int(r)->Ok_0 == r->Ok_0,
        r is Err ==> as_int(r)->Err_0 == r->Err_0,
{
}

} // verus!
