//! The calls of the strategy.
//!
//! A call that works with the ledger and the pool is a state that says what it waits for
//! (`request`) and is taken on by the reply (`step`).

pub mod deposit;
pub mod harvest;
pub mod init;
pub mod keeper;
pub mod queries;
pub mod requests;
pub mod unwinding;
pub mod withdraw;

use crate::error::StrategyError;
use vstd::prelude::*;

verus! {

/// The leverage strategy.
pub struct BlendLeverageStrategy;

/// Whether an amount may be moved: only a positive one may.
pub open spec fn amount_verdict(amount: int) -> Result<(), StrategyError> {
    if amount <= 0 {
        Err(StrategyError::OnlyPositiveAmountAllowed)
    } else {
        Ok(())
    }
}

/// Refuses an amount that is not positive.
pub fn check_positive_amount(amount: i128) -> (r: Result<(), StrategyError>)
    ensures
        r == amount_verdict(amount as int),
{
    if amount <= 0 {
        Err(StrategyError::OnlyPositiveAmountAllowed)
    } else {
        Ok(())
    }
}

} // verus!
