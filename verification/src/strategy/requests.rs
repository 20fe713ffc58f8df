//! What a running call asks of the ledger and the pool, and what they reply.

use crate::error::StrategyError;
use crate::types::{Address, Config, LeverageReserves};
use vstd::prelude::*;

verus! {

/// What a deposit is judged by.
#[derive(Debug, PartialEq, Eq)]
pub struct Market {
    pub config: Config,
    /// The strategy's reserves, at the current rates.
    pub reserves: LeverageReserves,
    /// What the pool was supplied with, in the underlying asset.
    pub pool_supply: i128,
    /// What the pool has lent out, in the underlying asset.
    pub pool_borrow: i128,
    pub b_rate: i128,
    pub d_rate: i128,
}

/// The strategy's position in the pool.
#[derive(Debug, Clone, Copy, PartialEq, Eq, Structural)]
pub struct PoolPosition {
    pub b_tokens: i128,
    pub d_tokens: i128,
    pub b_rate: i128,
    pub d_rate: i128,
}

/// What burning shares leaves and releases.
#[derive(Debug, Clone, Copy, PartialEq, Eq, Structural)]
pub struct Withdrawal {
    /// The shares that the holder has left.
    pub remaining_shares: i128,
    /// The supply tokens to withdraw from the pool.
    pub b_tokens: i128,
    /// The debt tokens to repay to it.
    pub d_tokens: i128,
    /// The reserves without them.
    pub reserves: LeverageReserves,
}

/// A step that a running call needs done before it can go on.
#[derive(Debug, Clone, Copy, PartialEq, Eq)]
pub enum Request {
    /// Have the address authorize the call.
    Authorize(Address),
    /// Read the current keeper.
    ReadKeeper,
    /// Read what a deposit is judged by.
    ReadMarket,
    /// Read the strategy's reserves at the current rates.
    ReadReserves,
    /// Read the shares of a holder.
    ReadShares(Address),
    /// Read the configuration and the position in the pool.
    ReadPosition,
    /// Take `amount` of the underlying asset from `from`.
    Transfer { from: Address, amount: i128 },
    /// Run the leverage loop on `amount` in the pool.
    SubmitLoop { amount: i128 },
    /// Mint shares for what the loop added.
    MintShares { to: Address, b_delta: i128, d_delta: i128, reserves: LeverageReserves },
    /// Claim the emissions of both sides.
    Claim,
    /// Swap the emissions for at least `amount_out_min` underlying and lever them.
    Reinvest { amount_out_min: i128 },
    /// Add what reinvesting added to the reserves, without minting.
    RecordHarvest { b_delta: i128, d_delta: i128 },
    /// Burn the shares that `amount` is worth.
    BurnShares { from: Address, amount: i128, reserves: LeverageReserves },
    /// Repay and withdraw in the pool, for the benefit of `to`.
    SubmitUnwind { b_tokens: i128, d_tokens: i128, to: Address },
    /// Peel layers of leverage in the pool.
    SubmitDeleverage { loops: u32 },
    /// Take what peeling removed off the reserves.
    RecordDeleverage { b_removed: i128, d_removed: i128 },
    /// Make the address the keeper.
    StoreKeeper(Address),
    /// Publish a deposit.
    AnnounceDeposit { amount: i128, from: Address },
    /// Publish a harvest.
    AnnounceHarvest { amount: i128, keeper: Address, price_per_share: i128 },
    /// Publish a withdrawal.
    AnnounceWithdraw { amount: i128, from: Address },
}

/// The outcome of a request.
#[derive(Debug, PartialEq, Eq)]
pub enum Reply {
    /// The authorization was given, the transfer made, the keeper stored or the event published.
    Done,
    Keeper(Address),
    Market(Market),
    Reserves(LeverageReserves),
    Shares(i128),
    Position(Config, PoolPosition),
    /// The emissions claimed.
    Claimed(i128),
    /// The supply and debt tokens that an operation in the pool moved.
    Tokens(Result<(i128, i128), StrategyError>),
    /// The shares that the depositor now holds, and the reserves with them.
    Minted(Result<(i128, LeverageReserves), StrategyError>),
    /// The reserves after a harvest.
    Recorded(Result<LeverageReserves, StrategyError>),
    Burned(Result<Withdrawal, StrategyError>),
    /// An operation that succeeds without a value.
    Settled(Result<(), StrategyError>),
}

} // verus!
