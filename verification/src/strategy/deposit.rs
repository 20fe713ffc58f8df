//! Depositing.

use crate::constants::SCALAR_12;
use crate::error::StrategyError;
use crate::fixed_point::{fits, trunc_div};
use crate::leverage::equity::{shares_to_underlying, shares_value};
use crate::leverage::health::Position;
use crate::leverage::looping::{borrows, compute_totals, kept_sum, supplies};
use crate::leverage::safety::{check_deposit_safety, deposit_verdict};
use crate::strategy::requests::{Market, Reply, Request};
use crate::strategy::{amount_verdict, check_positive_amount, BlendLeverageStrategy};
use crate::types::{Address, LeverageReserves};
use vstd::prelude::*;

verus! {

/// The pool tokens held once `added` underlying has been turned into tokens at `rate` (taken as
/// at least one) and added to `tokens`. An amount too great to scale counts as nothing, and a
/// sum that overflows leaves `tokens` as they are.
pub open spec fn tokens_after(tokens: int, added: int, rate: int) -> int {
    let scaled = if fits(added * SCALAR_12) {
        added * SCALAR_12
    } else {
        0
    };
    let bought = trunc_div(
        scaled,
        if rate > 1 {
            rate
        } else {
            1
        },
    );
    if fits(tokens + bought) {
        tokens + bought
    } else {
        tokens
    }
}

/// The pool tokens held once `added` underlying has been added at `rate`.
pub fn project_tokens(tokens: i128, added: i128, rate: i128) -> (r: i128)
    ensures
        r == tokens_after(tokens as int, added as int, rate as int),
{
    let bought: i128 = added.checked_mul(SCALAR_12).unwrap_or(0).checked_div(
        rate.max(1),
    ).unwrap_or(0);
    tokens.checked_add(bought).unwrap_or(tokens)
}

impl Market {
    /// What the loop on a deposit supplies.
    pub open spec fn supply_added(self, amount: int) -> int {
        kept_sum(supplies(amount, self.config.c_factor as int, self.config.target_loops))
    }

    /// What the loop on a deposit borrows.
    pub open spec fn borrow_added(self, amount: int) -> int {
        kept_sum(borrows(amount, self.config.c_factor as int, self.config.target_loops))
    }

    /// The position that a deposit leads to.
    pub open spec fn position_after(self, amount: int) -> Position {
        Position {
            b: tokens_after(
                self.reserves.total_b_tokens as int,
                self.supply_added(amount),
                self.b_rate as int,
            ),
            d: tokens_after(
                self.reserves.total_d_tokens as int,
                self.borrow_added(amount),
                self.d_rate as int,
            ),
            b_rate: self.b_rate as int,
            d_rate: self.d_rate as int,
            c_factor: self.config.c_factor as int,
        }
    }

    /// The verdict on a deposit into this market.
    pub open spec fn verdict(self, amount: int) -> Result<(), StrategyError> {
        deposit_verdict(
            self.pool_supply as int,
            self.pool_borrow as int,
            self.supply_added(amount),
            self.borrow_added(amount),
            self.position_after(amount).health(),
            self.config.min_hf as int,
        )
    }

    /// Judges a deposit by what its leverage loop will do to the pool and to the position.
    pub fn judge(&self, amount: i128) -> (r: Result<(), StrategyError>)
        requires
            self.config.target_loops < u32::MAX,
        ensures
            r == self.verdict(amount as int),
    {
        let (add_supply, add_borrow) = compute_totals(
            amount,
            self.config.c_factor,
            self.config.target_loops,
        );
        let proj_b: i128 = project_tokens(self.reserves.total_b_tokens, add_supply, self.b_rate);
        let proj_d: i128 = project_tokens(self.reserves.total_d_tokens, add_borrow, self.d_rate);
        check_deposit_safety(
            self.pool_supply,
            self.pool_borrow,
            add_supply,
            add_borrow,
            proj_b,
            proj_d,
            self.b_rate,
            self.d_rate,
            &self.config,
        )
    }
}

/// How far a deposit has come.
#[derive(Debug, PartialEq, Eq)]
pub enum DepositState {
    /// The depositor has to authorize it.
    Authorizing { amount: i128, from: Address },
    /// The market has to be read and the deposit judged by it.
    Reading { amount: i128, from: Address },
    /// The deposit has to be taken from the depositor.
    Transferring { amount: i128, from: Address, reserves: LeverageReserves },
    /// The leverage loop has to run.
    Looping { amount: i128, from: Address, reserves: LeverageReserves },
    /// Shares have to be minted for what the loop added.
    Minting { amount: i128, from: Address, b_delta: i128, d_delta: i128, reserves: LeverageReserves },
    /// The deposit has to be published.
    Announcing { amount: i128, from: Address, balance: i128 },
    /// The call is over, with the depositor's underlying balance or an error.
    Finished(Result<i128, StrategyError>),
}

impl BlendLeverageStrategy {
    /// Starts a deposit of `amount` by `from`. Only a positive amount is accepted.
    pub fn deposit(amount: i128, from: Address) -> (r: DepositState)
        ensures
            r == DepositState::start(amount, from),
    {
        match check_positive_amount(amount) {
            Err(e) => DepositState::Finished(Err(e)),
            Ok(()) => DepositState::Authorizing { amount, from },
        }
    }
}

impl DepositState {
    /// The state in which a deposit starts.
    pub open spec fn start(amount: i128, from: Address) -> DepositState {
        match amount_verdict(amount as int) {
            Err(e) => DepositState::Finished(Err(e)),
            Ok(_) => DepositState::Authorizing { amount, from },
        }
    }

    /// What the deposit waits for.
    pub open spec fn awaits(self) -> Option<Request> {
        match self {
            DepositState::Authorizing { amount, from } => Some(Request::Authorize(from)),
            DepositState::Reading { amount, from } => Some(Request::ReadMarket),
            DepositState::Transferring { amount, from, reserves } => Some(
                Request::Transfer { from, amount },
            ),
            DepositState::Looping { amount, from, reserves } => Some(
                Request::SubmitLoop { amount },
            ),
            DepositState::Minting { amount, from, b_delta, d_delta, reserves } => Some(
                Request::MintShares { to: from, b_delta, d_delta, reserves },
            ),
            DepositState::Announcing { amount, from, balance } => Some(
                Request::AnnounceDeposit { amount, from },
            ),
            DepositState::Finished(_) => None,
        }
    }

    /// The state after a reply. One that is no reply to what the deposit waits for changes
    /// nothing.
    pub open spec fn next(self, reply: Reply) -> DepositState {
        match (self, reply) {
            (DepositState::Authorizing { amount, from }, Reply::Done) => DepositState::Reading {
                amount,
                from,
            },
            (DepositState::Reading { amount, from }, Reply::Market(market)) => match market.verdict(
                amount as int,
            ) {
                Err(e) => DepositState::Finished(Err(e)),
                Ok(_) => DepositState::Transferring { amount, from, reserves: market.reserves },
            },
            (
                DepositState::Transferring { amount, from, reserves },
                Reply::Done,
            ) => DepositState::Looping { amount, from, reserves },
            (
                DepositState::Looping { amount, from, reserves },
                Reply::Tokens(moved),
            ) => match moved {
                Err(e) => DepositState::Finished(Err(e)),
                Ok((b_delta, d_delta)) => DepositState::Minting {
                    amount,
                    from,
                    b_delta,
                    d_delta,
                    reserves,
                },
            },
            (
                DepositState::Minting { amount, from, b_delta, d_delta, reserves },
                Reply::Minted(minted),
            ) => match minted {
                Err(e) => DepositState::Finished(Err(e)),
                Ok((shares, updated)) => match shares_value(shares as int, updated) {
                    Err(e) => DepositState::Finished(Err(e)),
                    Ok(balance) => DepositState::Announcing {
                        amount,
                        from,
                        balance: balance as i128,
                    },
                },
            },
            (
                DepositState::Announcing { amount, from, balance },
                Reply::Done,
            ) => DepositState::Finished(Ok(balance)),
            _ => self,
        }
    }

    /// Whether the number of rounds that a reply configures can be counted.
    pub open spec fn accepts(self, reply: Reply) -> bool {
        match (self, reply) {
            (DepositState::Reading { amount, from }, Reply::Market(market)) => {
                market.config.target_loops < u32::MAX
            },
            _ => true,
        }
    }

    /// What the deposit waits for; nothing once it is over.
    pub fn request(&self) -> (r: Option<Request>)
        ensures
            r == self.awaits(),
    {
        match self {
            DepositState::Authorizing { amount, from } => Some(Request::Authorize(*from)),
            DepositState::Reading { amount, from } => Some(Request::ReadMarket),
            DepositState::Transferring { amount, from, reserves } => Some(
                Request::Transfer { from: *from, amount: *amount },
            ),
            DepositState::Looping { amount, from, reserves } => Some(
                Request::SubmitLoop { amount: *amount },
            ),
            DepositState::Minting { amount, from, b_delta, d_delta, reserves } => Some(
                Request::MintShares {
                    to: *from,
                    b_delta: *b_delta,
                    d_delta: *d_delta,
                    reserves: *reserves,
                },
            ),
            DepositState::Announcing { amount, from, balance } => Some(
                Request::AnnounceDeposit { amount: *amount, from: *from },
            ),
            DepositState::Finished(_) => None,
        }
    }

    /// Goes on with the reply to what the deposit waits for.
    pub fn step(self, reply: Reply) -> (r: DepositState)
        requires
            self.accepts(reply),
        ensures
            r == self.next(reply),
    {
        match (self, reply) {
            (DepositState::Authorizing { amount, from }, Reply::Done) => DepositState::Reading {
                amount,
                from,
            },
            (DepositState::Reading { amount, from }, Reply::Market(market)) => match market.judge(
                amount,
            ) {
                Err(e) => DepositState::Finished(Err(e)),
                Ok(()) => DepositState::Transferring { amount, from, reserves: market.reserves },
            },
            (
                DepositState::Transferring { amount, from, reserves },
                Reply::Done,
            ) => DepositState::Looping { amount, from, reserves },
            (
                DepositState::Looping { amount, from, reserves },
                Reply::Tokens(moved),
            ) => match moved {
                Err(e) => DepositState::Finished(Err(e)),
                Ok((b_delta, d_delta)) => DepositState::Minting {
                    amount,
                    from,
                    b_delta,
                    d_delta,
                    reserves,
                },
            },
            (
                DepositState::Minting { amount, from, b_delta, d_delta, reserves },
                Reply::Minted(minted),
            ) => match minted {
                Err(e) => DepositState::Finished(Err(e)),
                Ok((shares, updated)) => match shares_to_underlying(shares, &updated) {
                    Err(e) => DepositState::Finished(Err(e)),
                    Ok(balance) => DepositState::Announcing { amount, from, balance },
                },
            },
            (
                DepositState::Announcing { amount, from, balance },
                Reply::Done,
            ) => DepositState::Finished(Ok(balance)),
            (state, _) => state,
        }
    }
}

// What holds of every deposit, whatever is replied to it.

impl DepositState {
    /// The state after a series of replies.
    pub open spec fn run(self, replies: Seq<Reply>) -> DepositState
        decreases replies.len(),
    {
        if replies.len() == 0 {
            self
        } else {
            self.run(replies.drop_last()).next(replies.last())
        }
    }

    /// Whether the reply at `i` is the one to `request`.
    pub open spec fn asked(self, request: Request, replies: Seq<Reply>, i: int) -> bool {
        &&& 0 <= i < replies.len()
        &&& self.run(replies.take(i)).awaits() == Some(request)
    }

    /// Whether the deposit has been accepted: it has come to moving funds.
    pub open spec fn is_accepted(self) -> bool {
        match self {
            DepositState::Authorizing { .. } => false,
            DepositState::Reading { .. } => false,
            DepositState::Finished(r) => r is Ok,
            _ => true,
        }
    }

    /// Whether the state is one of a deposit of `amount` by `from`.
    pub open spec fn is_of(self, the_amount: i128, depositor: Address) -> bool {
        match self {
            DepositState::Authorizing { amount, from } => amount == the_amount && from == depositor,
            DepositState::Reading { amount, from } => amount == the_amount && from == depositor,
            DepositState::Transferring { amount, from, reserves } => amount == the_amount && from
                == depositor,
            DepositState::Looping { amount, from, reserves } => amount == the_amount && from
                == depositor,
            DepositState::Minting { amount, from, b_delta, d_delta, reserves } => amount
                == the_amount && from == depositor,
            DepositState::Announcing { amount, from, balance } => amount == the_amount && from
                == depositor,
            DepositState::Finished(_) => true,
        }
    }
}

/// Whether the authorization of `from` was asked for and given, at `i`.
pub open spec fn authorized_at(amount: i128, from: Address, replies: Seq<Reply>, i: int) -> bool {
    &&& DepositState::start(amount, from).asked(Request::Authorize(from), replies, i)
    &&& replies[i] == Reply::Done
}

/// Whether the market was asked for, at `i`, and the deposit is safe in it.
pub open spec fn found_safe_at(amount: i128, from: Address, replies: Seq<Reply>, i: int) -> bool {
    &&& DepositState::start(amount, from).asked(Request::ReadMarket, replies, i)
    &&& replies[i] is Market
    &&& replies[i]->Market_0.verdict(amount as int) is Ok
}

/// Whether the shares that a mint gave the depositor, at `i`, are worth `balance`.
pub open spec fn minted_at(
    amount: i128,
    from: Address,
    balance: int,
    replies: Seq<Reply>,
    i: int,
) -> bool {
    &&& 0 <= i < replies.len()
    &&& DepositState::start(amount, from).run(replies.take(i)) is Minting
    &&& replies[i] is Minted
    &&& replies[i]->Minted_0 is Ok
    &&& shares_value(replies[i]->Minted_0->Ok_0.0 as int, replies[i]->Minted_0->Ok_0.1) == Ok::<
        int,
        StrategyError,
    >(balance)
}

/// A call that is over stays over.
pub proof fn law_finished_deposit_stays(r: Result<i128, StrategyError>, replies: Seq<Reply>)
    ensures
        DepositState::Finished(r).run(replies) == DepositState::Finished(r),
        DepositState::Finished(r).awaits() is None,
    decreases replies.len(),
{
    if replies.len() > 0 {
        law_finished_deposit_stays(r, replies.drop_last());
    }
}

/// A deposit never changes its amount or its depositor.
pub proof fn law_deposit_keeps_terms(amount: i128, from: Address, replies: Seq<Reply>)
    ensures
        DepositState::start(amount, from).run(replies).is_of(amount, from),
    decreases replies.len(),
{
    if replies.len() > 0 {
        law_deposit_keeps_terms(amount, from, replies.drop_last());
    }
}

/// The market is read only after the depositor has authorized the deposit.
proof fn lemma_reading_is_authorized(amount: i128, from: Address, replies: Seq<Reply>) -> (i: int)
    requires
        DepositState::start(amount, from).run(replies) is Reading,
    ensures
        amount > 0,
        authorized_at(amount, from, replies, i),
    decreases replies.len(),
{
    let start = DepositState::start(amount, from);
    assert(replies.len() > 0);
    let before = replies.drop_last();
    let last = replies.len() - 1;
    law_deposit_keeps_terms(amount, from, before);
    if start.run(before) is Reading {
        let i = lemma_reading_is_authorized(amount, from, before);
        assert(replies.take(i) =~= before.take(i));
        i
    } else {
        law_finished_deposit_stays(Err(StrategyError::OnlyPositiveAmountAllowed), before);
        assert(replies.take(last) =~= before);
        last
    }
}

/// Nothing is taken from the depositor, submitted to the pool or minted unless the amount is
/// positive, the depositor has authorized the deposit, and after that the market was found
/// safe for it.
pub proof fn law_deposit_moves_only_what_is_safe(
    amount: i128,
    from: Address,
    replies: Seq<Reply>,
)
    requires
        DepositState::start(amount, from).run(replies).is_accepted(),
    ensures
        amount > 0,
        exists|i: int, j: int|
            i < j && #[trigger] authorized_at(amount, from, replies, i)
                && #[trigger] found_safe_at(amount, from, replies, j),
    decreases replies.len(),
{
    let start = DepositState::start(amount, from);
    assert(replies.len() > 0);
    let before = replies.drop_last();
    let last = replies.len() - 1;
    if start.run(before).is_accepted() {
        law_deposit_moves_only_what_is_safe(amount, from, before);
        let (i, j) = choose|i: int, j: int|
            i < j && #[trigger] authorized_at(amount, from, before, i)
                && #[trigger] found_safe_at(amount, from, before, j);
        assert(replies.take(i) =~= before.take(i));
        assert(replies.take(j) =~= before.take(j));
        assert(authorized_at(amount, from, replies, i));
        assert(found_safe_at(amount, from, replies, j));
    } else {
        law_deposit_keeps_terms(amount, from, before);
        let i = lemma_reading_is_authorized(amount, from, before);
        assert(replies.take(i) =~= before.take(i));
        assert(replies.take(last) =~= before);
        assert(authorized_at(amount, from, replies, i));
        assert(found_safe_at(amount, from, replies, last));
    }
}

/// A deposit that succeeds answers what the shares that the depositor then holds are worth.
pub proof fn law_deposit_answers_balance(
    amount: i128,
    from: Address,
    replies: Seq<Reply>,
    balance: i128,
)
    requires
        ({
            let end = DepositState::start(amount, from).run(replies);
            ||| end == DepositState::Finished(Ok(balance))
            ||| end == (DepositState::Announcing { amount, from, balance })
        }),
    ensures
        exists|i: int| minted_at(amount, from, balance as int, replies, i),
    decreases replies.len(),
{
    let start = DepositState::start(amount, from);
    assert(replies.len() > 0);
    let before = replies.drop_last();
    let last = replies.len() - 1;
    law_deposit_keeps_terms(amount, from, before);
    let at = start.run(before);
    if at == DepositState::Finished(Ok(balance)) || at is Announcing {
        law_deposit_answers_balance(amount, from, before, balance);
        let i = choose|i: int| minted_at(amount, from, balance as int, before, i);
        assert(replies.take(i) =~= before.take(i));
        assert(minted_at(amount, from, balance as int, replies, i));
    } else {
        assert(replies.take(last) =~= before);
        assert(minted_at(amount, from, balance as int, replies, last));
    }
}

/// A positive deposit that is authorized, found safe, transferred, levered and minted for
/// succeeds with the worth of the depositor's shares, where that can be computed.
pub proof fn law_good_deposit_succeeds(
    amount: i128,
    from: Address,
    market: Market,
    b_delta: i128,
    d_delta: i128,
    shares: i128,
    updated: LeverageReserves,
)
    requires
        amount > 0,
        market.config.target_loops < u32::MAX,
        market.verdict(amount as int) is Ok,
        shares_value(shares as int, updated) is Ok,
    ensures
        DepositState::start(amount, from).next(Reply::Done).next(Reply::Market(market)).next(
            Reply::Done,
        ).next(Reply::Tokens(Ok((b_delta, d_delta)))).next(
            Reply::Minted(Ok((shares, updated))),
        ).next(Reply::Done) == DepositState::Finished(
            Ok(shares_value(shares as int, updated)->Ok_0 as i128),
        ),
{
}

} // verus!
