//! Calls that only look.

use crate::error::{as_int, StrategyError};
use crate::leverage::equity::{compute_equity, equity, shares_to_underlying, shares_value};
use crate::leverage::health::compute_health_factor;
use crate::strategy::requests::{PoolPosition, Reply, Request};
use crate::strategy::BlendLeverageStrategy;
use crate::types::{Address, Config, LeverageReserves};
use vstd::prelude::*;

verus! {

/// How far a look at a balance has come.
#[derive(Debug, PartialEq, Eq)]
pub enum BalanceState {
    /// The holder's shares have to be read.
    Counting { from: Address },
    /// The reserves have to be read.
    Reading { shares: i128 },
    /// The call is over, with the holder's underlying balance or an error.
    Finished(Result<i128, StrategyError>),
}

impl BlendLeverageStrategy {
    /// Answers the underlying asset.
    pub fn asset(config: &Config) -> (r: Result<Address, StrategyError>)
        ensures
            r == Ok::<Address, StrategyError>(config.asset),
    {
        Ok(config.asset)
    }

    /// Answers the health factor of the position, seven decimals.
    pub fn health_factor(config: &Config, position: &PoolPosition) -> (r: Result<
        i128,
        StrategyError,
    >)
        ensures
            as_int(r) == position.under(*config).health(),
    {
        compute_health_factor(
            position.b_tokens,
            position.d_tokens,
            position.b_rate,
            position.d_rate,
            config.c_factor,
        )
    }

    /// Answers the total equity, the total shares, the supply and debt tokens, and their rates.
    pub fn position(reserves: &LeverageReserves) -> (r: Result<
        (i128, i128, i128, i128, i128, i128),
        StrategyError,
    >)
        ensures
            match r {
                Ok(p) => {
                    &&& equity(*reserves) == Ok::<int, StrategyError>(p.0 as int)
                    &&& p.1 == reserves.total_shares
                    &&& p.2 == reserves.total_b_tokens
                    &&& p.3 == reserves.total_d_tokens
                    &&& p.4 == reserves.b_rate
                    &&& p.5 == reserves.d_rate
                },
                Err(e) => equity(*reserves) == Err::<int, StrategyError>(e),
            },
    {
        let total_equity: i128 = compute_equity(reserves)?;
        Ok(
            (
                total_equity,
                reserves.total_shares,
                reserves.total_b_tokens,
                reserves.total_d_tokens,
                reserves.b_rate,
                reserves.d_rate,
            ),
        )
    }

    /// Starts a look at the underlying balance of `from`.
    pub fn balance(from: Address) -> (r: BalanceState)
        ensures
            r == (BalanceState::Counting { from }),
    {
        BalanceState::Counting { from }
    }
}

impl BalanceState {
    /// What the look waits for.
    pub open spec fn awaits(self) -> Option<Request> {
        match self {
            BalanceState::Counting { from } => Some(Request::ReadShares(from)),
            BalanceState::Reading { shares } => Some(Request::ReadReserves),
            BalanceState::Finished(_) => None,
        }
    }

    /// The state after a reply: a holder without shares has no balance, any other has what the
    /// shares are worth. A reply to something else changes nothing.
    pub open spec fn next(self, reply: Reply) -> BalanceState {
        match (self, reply) {
            (BalanceState::Counting { from }, Reply::Shares(shares)) => if shares <= 0 {
                BalanceState::Finished(Ok(0))
            } else {
                BalanceState::Reading { shares }
            },
            (BalanceState::Reading { shares }, Reply::Reserves(reserves)) => match shares_value(
                shares as int,
                reserves,
            ) {
                Err(e) => BalanceState::Finished(Err(e)),
                Ok(balance) => BalanceState::Finished(Ok(balance as i128)),
            },
            _ => self,
        }
    }

    /// What the look waits for; nothing once it is over.
    pub fn request(&self) -> (r: Option<Request>)
        ensures
            r == self.awaits(),
    {
        match self {
            BalanceState::Counting { from } => Some(Request::ReadShares(*from)),
            BalanceState::Reading { shares } => Some(Request::ReadReserves),
            BalanceState::Finished(_) => None,
        }
    }

    /// Goes on with the reply to what the look waits for.
    pub fn step(self, reply: Reply) -> (r: BalanceState)
        ensures
            r == self.next(reply),
    {
        match (self, reply) {
            (BalanceState::Counting { from }, Reply::Shares(shares)) => if shares <= 0 {
                BalanceState::Finished(Ok(0))
            } else {
                BalanceState::Reading { shares }
            },
            (
                BalanceState::Reading { shares },
                Reply::Reserves(reserves),
            ) => BalanceState::Finished(shares_to_underlying(shares, &reserves)),
            (state, _) => state,
        }
    }
}

/// A holder of shares is answered what they are worth, one without is answered nothing, in at
/// most two replies.
pub proof fn law_balance_is_share_value(from: Address, shares: i128, reserves: LeverageReserves)
    ensures
        shares <= 0 ==> (BalanceState::Counting { from }).next(Reply::Shares(shares))
            == BalanceState::Finished(Ok(0)),
        shares > 0 ==> {
            let end = (BalanceState::Counting { from }).next(Reply::Shares(shares)).next(
                Reply::Reserves(reserves),
            );
            end is Finished && as_int(end->Finished_0) == shares_value(shares as int, reserves)
        },
{
}

} // verus!
