//! Whether a deposit is safe for the pool and for the position.

use crate::constants::{MAX_SAFE_UTILIZATION, SCALAR_7};
use crate::error::StrategyError;
use crate::fixed_point::{fits, trunc_div};
use crate::leverage::health::{compute_health_factor, position_of};
use crate::types::Config;
use vstd::prelude::*;

verus! {

/// Whether the utilization of a pool with `supply` and `borrow` outstanding is below
/// `MAX_SAFE_UTILIZATION`. A pool without supply counts as unused.
pub open spec fn utilization_verdict(supply: int, borrow: int) -> Result<(), StrategyError> {
    if supply <= 0 {
        Ok(())
    } else if !fits(borrow * SCALAR_7) {
        Err(StrategyError::ArithmeticError)
    } else if trunc_div(borrow * SCALAR_7, supply) >= MAX_SAFE_UTILIZATION {
        Err(StrategyError::ExternalError)
    } else {
        Ok(())
    }
}

/// Whether a position with health factor `hf` is above the minimum.
pub open spec fn health_verdict(hf: Result<int, StrategyError>, min_hf: int) -> Result<
    (),
    StrategyError,
> {
    match hf {
        Err(e) => Err(e),
        Ok(hf) => if hf <= min_hf {
            Err(StrategyError::ExternalError)
        } else {
            Ok(())
        },
    }
}

/// The verdict on a deposit: the first objection among the pool's utilization now, the sums
/// that the deposit leads to, the utilization after it, and the health factor after it.
pub open spec fn deposit_verdict(
    pool_supply: int,
    pool_borrow: int,
    additional_supply: int,
    additional_borrow: int,
    hf: Result<int, StrategyError>,
    min_hf: int,
) -> Result<(), StrategyError> {
    let supply = pool_supply + additional_supply;
    let borrow = pool_borrow + additional_borrow;
    if utilization_verdict(pool_supply, pool_borrow) is Err {
        utilization_verdict(pool_supply, pool_borrow)
    } else if !fits(supply) || !fits(borrow) {
        Err(StrategyError::UnderflowOverflow)
    } else if utilization_verdict(supply, borrow) is Err {
        utilization_verdict(supply, borrow)
    } else {
        health_verdict(hf, min_hf)
    }
}

/// Refuses a pool whose utilization is not below `MAX_SAFE_UTILIZATION`.
pub fn check_utilization(supply: i128, borrow: i128) -> (r: Result<(), StrategyError>)
    ensures
        r == utilization_verdict(supply as int, borrow as int),
{
    if supply > 0 {
        let used: i128 = borrow.checked_mul(SCALAR_7).ok_or(
            StrategyError::ArithmeticError,
        )?.checked_div(supply).ok_or(StrategyError::DivisionByZero)?;
        if used >= MAX_SAFE_UTILIZATION {
            return Err(StrategyError::ExternalError);
        }
    }
    Ok(())
}

/// Refuses a deposit unless the pool's utilization is below `MAX_SAFE_UTILIZATION` both before
/// and after it, and the health factor after it is above the configured minimum.
///
/// An unsafe deposit is refused with `ExternalError`, which no other cause gives.
pub fn check_deposit_safety(
    pool_supply_underlying: i128,
    pool_borrow_underlying: i128,
    additional_supply: i128,
    additional_borrow: i128,
    post_b_tokens: i128,
    post_d_tokens: i128,
    b_rate: i128,
    d_rate: i128,
    config: &Config,
) -> (r: Result<(), StrategyError>)
    ensures
        r == deposit_verdict(
            pool_supply_underlying as int,
            pool_borrow_underlying as int,
            additional_supply as int,
            additional_borrow as int,
            position_of(post_b_tokens, post_d_tokens, b_rate, d_rate, config.c_factor).health(),
            config.min_hf as int,
        ),
{
    check_utilization(pool_supply_underlying, pool_borrow_underlying)?;

    let proj_supply: i128 = pool_supply_underlying.checked_add(additional_supply).ok_or(
        StrategyError::UnderflowOverflow,
    )?;
    let proj_borrow: i128 = pool_borrow_underlying.checked_add(additional_borrow).ok_or(
        StrategyError::UnderflowOverflow,
    )?;
    check_utilization(proj_supply, proj_borrow)?;

    let hf: i128 = compute_health_factor(
        post_b_tokens,
        post_d_tokens,
        b_rate,
        d_rate,
        config.c_factor,
    )?;
    if hf <= config.min_hf {
        return Err(StrategyError::ExternalError);
    }
    Ok(())
}

} // verus!
