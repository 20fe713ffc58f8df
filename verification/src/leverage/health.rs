//! The health factor of a position.

use crate::constants::SCALAR_12;
use crate::error::{as_int, StrategyError};
use crate::fixed_point::{fits, fixed_mul_floor, trunc_div};
use crate::leverage::equity::token_value;
use vstd::prelude::*;

verus! {

/// A leveraged position, as mathematical integers.
pub struct Position {
    /// Supply tokens.
    pub b: int,
    /// Debt tokens.
    pub d: int,
    /// The underlying worth of a supply token, twelve decimals.
    pub b_rate: int,
    /// The underlying worth of a debt token, twelve decimals.
    pub d_rate: int,
    /// The collateral factor, seven decimals.
    pub c_factor: int,
}

/// The position that machine integers describe.
pub open spec fn position_of(
    b_tokens: i128,
    d_tokens: i128,
    b_rate: i128,
    d_rate: i128,
    c_factor: i128,
) -> Position {
    Position {
        b: b_tokens as int,
        d: d_tokens as int,
        b_rate: b_rate as int,
        d_rate: d_rate as int,
        c_factor: c_factor as int,
    }
}

impl Position {
    /// The underlying worth of the supply; nothing where it overflows.
    pub open spec fn supply_value(self) -> Option<int> {
        token_value(self.b, self.b_rate)
    }

    /// The underlying worth of the debt; nothing where it overflows.
    pub open spec fn debt_value(self) -> Option<int> {
        token_value(self.d, self.d_rate)
    }

    /// The health factor, seven decimals: the worth of the supply weighted by the collateral
    /// factor, over the worth of the debt, rounded toward zero. A position without debt, or
    /// whose debt is worth nothing, has the greatest one.
    pub open spec fn health(self) -> Result<int, StrategyError> {
        let supply = self.supply_value();
        let debt = self.debt_value();
        if self.d == 0 {
            Ok(i128::MAX as int)
        } else if supply is None || !fits(supply->0 * self.c_factor) || debt is None {
            Err(StrategyError::ArithmeticError)
        } else if debt->0 == 0 {
            Ok(i128::MAX as int)
        } else if !fits(trunc_div(supply->0 * self.c_factor, debt->0)) {
            Err(StrategyError::DivisionByZero)
        } else {
            Ok(trunc_div(supply->0 * self.c_factor, debt->0))
        }
    }
}

/// The health factor of a position, seven decimals.
pub fn compute_health_factor(
    b_tokens: i128,
    d_tokens: i128,
    b_rate: i128,
    d_rate: i128,
    c_factor: i128,
) -> (r: Result<i128, StrategyError>)
    ensures
        as_int(r) == position_of(b_tokens, d_tokens, b_rate, d_rate, c_factor).health(),
{
    if d_tokens == 0 {
        return Ok(i128::MAX);
    }
    let supply_value: i128 = fixed_mul_floor(b_tokens, b_rate, SCALAR_12).ok_or(
        StrategyError::ArithmeticError,
    )?;
    let weighted_supply: i128 = supply_value.checked_mul(c_factor).ok_or(
        StrategyError::ArithmeticError,
    )?;
    let debt_value: i128 = fixed_mul_floor(d_tokens, d_rate, SCALAR_12).ok_or(
        StrategyError::ArithmeticError,
    )?;
    if debt_value == 0 {
        return Ok(i128::MAX);
    }
    weighted_supply.checked_div(debt_value).ok_or(StrategyError::DivisionByZero)
}

} // verus!
