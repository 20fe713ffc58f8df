//! The errors with which the strategy answers a request.

use vstd::prelude::*;

verus! {

/// Why a request to the strategy was refused.
///
/// The variants are those of the vault's strategy interface, so that an error reported by the
/// pool or by the share accounting passes through unchanged.
#[derive(Debug, Clone, Copy, PartialEq, Eq, Structural)]
pub enum StrategyError {
    NotInitialized,
    NegativeNotAllowed,
    InvalidArgument,
    InsufficientBalance,
    UnderflowOverflow,
    ArithmeticError,
    DivisionByZero,
    InvalidSharesMinted,
    OnlyPositiveAmountAllowed,
    NotAuthorized,
    ProtocolAddressNotFound,
    DeadlineExpired,
    ExternalError,
    SoroswapPairError,
    AmountBelowMinDust,
    UnderlyingAmountBelowMin,
    BTokensAmountBelowMin,
    InternalSwapError,
    SupplyNotFound,
}

/// A result on machine integers, read as one on mathematical integers.
pub open spec fn as_int(r: Result<i128, StrategyError>) -> Result<int, StrategyError> {
    match r {
        Ok(v) => Ok(v as int),
        Err(e) => Err(e),
    }
}

} // verus!
