//! The net equity of the position, and what shares of it are worth.

use crate::constants::SCALAR_12;
use crate::error::{as_int, StrategyError};
use crate::fixed_point::{fits, fixed_mul_floor, mul_floor};
use crate::types::LeverageReserves;
use vstd::prelude::*;

verus! {

/// The underlying worth of pool tokens at a rate, rounded down; nothing where it overflows.
pub open spec fn token_value(tokens: int, rate: int) -> Option<int> {
    mul_floor(tokens, rate, SCALAR_12 as int)
}

/// The net equity of a position: the worth of its supply less the worth of its debt.
pub open spec fn equity(reserves: LeverageReserves) -> Result<int, StrategyError> {
    let supply = token_value(reserves.total_b_tokens as int, reserves.b_rate as int);
    let debt = token_value(reserves.total_d_tokens as int, reserves.d_rate as int);
    if supply is None || debt is None {
        Err(StrategyError::ArithmeticError)
    } else if !fits(supply->0 - debt->0) {
        Err(StrategyError::UnderflowOverflow)
    } else {
        Ok(supply->0 - debt->0)
    }
}

/// The share of the equity that `shares` are worth: nothing while no share is in circulation or
/// the equity is not positive, else `shares * equity / total_shares` rounded down.
pub open spec fn shares_value(shares: int, reserves: LeverageReserves) -> Result<
    int,
    StrategyError,
> {
    if reserves.total_shares == 0 {
        Ok(0)
    } else {
        match equity(reserves) {
            Err(e) => Err(e),
            Ok(total) => if total <= 0 {
                Ok(0)
            } else {
                match mul_floor(shares, total, reserves.total_shares as int) {
                    Some(value) => Ok(value),
                    None => Err(StrategyError::ArithmeticError),
                }
            },
        }
    }
}

/// The shares that an underlying amount is worth: one for one while the position is empty or
/// its equity is not positive, else `amount * total_shares / equity` rounded down.
pub open spec fn shares_for(amount: int, reserves: LeverageReserves) -> Result<
    int,
    StrategyError,
> {
    if reserves.total_shares == 0 || reserves.total_b_tokens == 0 {
        Ok(amount)
    } else {
        match equity(reserves) {
            Err(e) => Err(e),
            Ok(total) => if total <= 0 {
                Ok(amount)
            } else {
                match mul_floor(amount, reserves.total_shares as int, total) {
                    Some(shares) => Ok(shares),
                    None => Err(StrategyError::ArithmeticError),
                }
            },
        }
    }
}

/// The net equity of the strategy's position.
pub fn compute_equity(reserves: &LeverageReserves) -> (r: Result<i128, StrategyError>)
    ensures
        as_int(r) == equity(*reserves),
{
    let supply_value: i128 = fixed_mul_floor(
        reserves.total_b_tokens,
        reserves.b_rate,
        SCALAR_12,
    ).ok_or(StrategyError::ArithmeticError)?;
    let debt_value: i128 = fixed_mul_floor(
        reserves.total_d_tokens,
        reserves.d_rate,
        SCALAR_12,
    ).ok_or(StrategyError::ArithmeticError)?;
    supply_value.checked_sub(debt_value).ok_or(StrategyError::UnderflowOverflow)
}

/// The underlying amount that `shares` are worth.
pub fn shares_to_underlying(shares: i128, reserves: &LeverageReserves) -> (r: Result<
    i128,
    StrategyError,
>)
    ensures
        as_int(r) == shares_value(shares as int, *reserves),
{
    if reserves.total_shares == 0 {
        return Ok(0);
    }
    let total_equity: i128 = compute_equity(reserves)?;
    if total_equity <= 0 {
        return Ok(0);
    }
    fixed_mul_floor(shares, total_equity, reserves.total_shares).ok_or(
        StrategyError::ArithmeticError,
    )
}

/// The shares that an underlying `amount` is worth.
pub fn underlying_to_shares(amount: i128, reserves: &LeverageReserves) -> (r: Result<
    i128,
    StrategyError,
>)
    ensures
        as_int(r) == shares_for(amount as int, *reserves),
{
    if reserves.total_shares == 0 || reserves.total_b_tokens == 0 {
        return Ok(amount);
    }
    let total_equity: i128 = compute_equity(reserves)?;
    if total_equity <= 0 {
        return Ok(amount);
    }
    fixed_mul_floor(amount, reserves.total_shares, total_equity).ok_or(
        StrategyError::ArithmeticError,
    )
}

} // verus!
