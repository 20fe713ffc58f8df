//! Laws of depositing.

use crate::constants::{SCALAR_12, SCALAR_7};
use crate::error::StrategyError;
use crate::fixed_point::fits;
use crate::laws::equity::law_value_fits;
use crate::laws::exchange::answers_any;
use crate::laws::looping::{is_loop, law_rounds_make_the_loop, law_total_is_sum, sum};
use crate::laws::rounding::{law_rounding_toward_zero, rounds_toward_zero};
use crate::laws::safety::{law_accepted_deposit_is_safe, safely_used};
use crate::leverage::equity::shares_value;
use crate::leverage::health::Position;
use crate::leverage::looping::kept_sum;
use crate::leverage::safety::deposit_verdict;
use crate::strategy::amount_verdict;
use crate::strategy::deposit::{law_deposit_keeps_terms, tokens_after, DepositState};
use crate::strategy::requests::{Market, Reply, Request};
use crate::types::{Address, LeverageReserves};
use vstd::prelude::*;

verus! {

/// Only a positive amount may be moved.
pub proof fn law_only_positive_amounts(amount: int)
    ensures
        amount > 0 ==> amount_verdict(amount) == Ok::<(), StrategyError>(()),
        amount <= 0 ==> amount_verdict(amount) == Err::<(), _>(
            StrategyError::OnlyPositiveAmountAllowed,
        ),
{
}

/// Whether `bought` are the pool tokens for `added` underlying at `rate`: the amount in twelve
/// decimals over the rate, rounded toward zero. The rate is taken as at least one, and an
/// amount too great to scale buys nothing.
pub open spec fn is_bought(bought: int, added: int, rate: int) -> bool {
    if fits(added * SCALAR_12) {
        rounds_toward_zero(
            bought,
            added * SCALAR_12,
            if rate > 1 {
                rate
            } else {
                1
            },
        )
    } else {
        bought == 0
    }
}

/// What is bought is added to what is held, unless the sum overflows.
pub proof fn law_bought_tokens_are_added(tokens: int, added: int, rate: int, bought: int)
    requires
        is_bought(bought, added, rate),
    ensures
        fits(tokens + bought) ==> tokens_after(tokens, added, rate) == tokens + bought,
        !fits(tokens + bought) ==> tokens_after(tokens, added, rate) == tokens,
{
    let r = if rate > 1 {
        rate
    } else {
        1
    };
    law_rounding_toward_zero(bought, added * SCALAR_12, r);
}

/// A deposit adds to the pool what the rounds of its loop supply and borrow, at the configured
/// collateral factor and number of rounds: the sums of them, where these are representable.
pub proof fn law_deposit_adds_its_rounds(market: Market, amount: int, sup: Seq<int>, bor: Seq<int>)
    requires
        is_loop(amount, market.config.c_factor as int, market.config.target_loops, sup, bor),
    ensures
        market.supply_added(amount) == kept_sum(sup),
        market.borrow_added(amount) == kept_sum(bor),
        (forall|k: int| 0 <= k <= sup.len() ==> fits(#[trigger] sum(sup.take(k))))
            ==> market.supply_added(amount) == sum(sup),
        (forall|k: int| 0 <= k <= bor.len() ==> fits(#[trigger] sum(bor.take(k))))
            ==> market.borrow_added(amount) == sum(bor),
{
    law_rounds_make_the_loop(
        amount,
        market.config.c_factor as int,
        market.config.target_loops,
        sup,
        bor,
    );
    if forall|k: int| 0 <= k <= sup.len() ==> fits(#[trigger] sum(sup.take(k))) {
        law_total_is_sum(sup);
    }
    if forall|k: int| 0 <= k <= bor.len() ==> fits(#[trigger] sum(bor.take(k))) {
        law_total_is_sum(bor);
    }
}

/// Whether `after` is the strategy's position, as its reserves have it, with `b_bought` supply
/// tokens and `d_bought` debt tokens more, at the rates of the market. A sum that overflows
/// leaves the tokens as they are.
pub open spec fn is_joined_by(
    after: Position,
    market: Market,
    b_bought: int,
    d_bought: int,
) -> bool {
    &&& after.b == market.reserves.total_b_tokens + if fits(
        market.reserves.total_b_tokens + b_bought,
    ) {
        b_bought
    } else {
        0
    }
    &&& after.d == market.reserves.total_d_tokens + if fits(
        market.reserves.total_d_tokens + d_bought,
    ) {
        d_bought
    } else {
        0
    }
    &&& after.b_rate == market.b_rate
    &&& after.d_rate == market.d_rate
    &&& after.c_factor == market.config.c_factor
}

/// The position that a deposit leads to is the one that the strategy has, joined by the tokens
/// bought for what the loop supplies and borrows.
pub proof fn law_deposit_joins_the_position(
    market: Market,
    amount: int,
    b_bought: int,
    d_bought: int,
)
    requires
        is_bought(b_bought, market.supply_added(amount), market.b_rate as int),
        is_bought(d_bought, market.borrow_added(amount), market.d_rate as int),
    ensures
        is_joined_by(market.position_after(amount), market, b_bought, d_bought),
        fits(market.reserves.total_b_tokens + b_bought) ==> market.position_after(amount).b
            - market.reserves.total_b_tokens == b_bought,
        fits(market.reserves.total_d_tokens + d_bought) ==> market.position_after(amount).d
            - market.reserves.total_d_tokens == d_bought,
{
    law_bought_tokens_are_added(
        market.reserves.total_b_tokens as int,
        market.supply_added(amount),
        market.b_rate as int,
        b_bought,
    );
    law_bought_tokens_are_added(
        market.reserves.total_d_tokens as int,
        market.borrow_added(amount),
        market.d_rate as int,
        d_bought,
    );
}

/// A deposit is accepted exactly where the pool is safely used as it is and with what the loop
/// supplies and borrows, and the strategy's position, joined by the tokens bought for that, is
/// above the configured minimum health factor; all of which has to be computable. In every
/// case it is judged by these numbers.
pub proof fn law_deposit_is_judged_with_what_is_held(
    market: Market,
    amount: int,
    sup: Seq<int>,
    bor: Seq<int>,
    b_bought: int,
    d_bought: int,
    after: Position,
)
    requires
        is_loop(amount, market.config.c_factor as int, market.config.target_loops, sup, bor),
        is_bought(b_bought, kept_sum(sup), market.b_rate as int),
        is_bought(d_bought, kept_sum(bor), market.d_rate as int),
        is_joined_by(after, market, b_bought, d_bought),
    ensures
        market.verdict(amount) is Ok <==> {
            let supply = market.pool_supply + kept_sum(sup);
            let borrow = market.pool_borrow + kept_sum(bor);
            &&& safely_used(market.pool_supply as int, market.pool_borrow as int)
            &&& market.pool_supply > 0 ==> fits(market.pool_borrow * SCALAR_7)
            &&& fits(supply) && fits(borrow)
            &&& safely_used(supply, borrow)
            &&& supply > 0 ==> fits(borrow * SCALAR_7)
            &&& after.health() is Ok
            &&& after.health()->Ok_0 > market.config.min_hf
        },
        market.verdict(amount) == deposit_verdict(
            market.pool_supply as int,
            market.pool_borrow as int,
            kept_sum(sup),
            kept_sum(bor),
            after.health(),
            market.config.min_hf as int,
        ),
{
    law_deposit_adds_its_rounds(market, amount, sup, bor);
    law_deposit_joins_the_position(market, amount, b_bought, d_bought);
    assert(market.position_after(amount) == after);
    law_accepted_deposit_is_safe(
        market.pool_supply as int,
        market.pool_borrow as int,
        kept_sum(sup),
        kept_sum(bor),
        after,
        market.config.min_hf as int,
    );
}

/// The course of a deposit: the depositor authorizes it, the market is read and judges it, the
/// amount is taken from the depositor, levered in the pool, and the depositor is minted shares
/// for what that added to the reserves that were read. The deposit is published and the worth
/// of the depositor's shares answered. It is over with the error of whatever fails.
pub proof fn law_course_of_a_deposit(
    amount: i128,
    from: Address,
    market: Market,
    b_delta: i128,
    d_delta: i128,
    shares: i128,
    updated: LeverageReserves,
    e: StrategyError,
)
    ensures
        ({
            let start = DepositState::start(amount, from);
            let authorized = start.next(Reply::Done);
            let judged = authorized.next(Reply::Market(market));
            let taken = judged.next(Reply::Done);
            let levered = taken.next(Reply::Tokens(Ok((b_delta, d_delta))));
            let minted = levered.next(Reply::Minted(Ok((shares, updated))));
            let verdict = market.verdict(amount as int);
            let balance = shares_value(shares as int, updated);
            &&& amount <= 0 ==> start == DepositState::Finished(
                Err(StrategyError::OnlyPositiveAmountAllowed),
            )
            &&& amount > 0 ==> {
                &&& start.awaits() == Some(Request::Authorize(from))
                &&& authorized.awaits() == Some(Request::ReadMarket)
                &&& verdict is Err ==> judged == DepositState::Finished(Err(verdict->Err_0))
            }
            &&& amount > 0 && verdict is Ok ==> {
                &&& judged.awaits() == Some(Request::Transfer { from, amount })
                &&& taken.awaits() == Some(Request::SubmitLoop { amount })
                &&& taken.next(Reply::Tokens(Err(e))) == DepositState::Finished(Err(e))
                &&& levered.awaits() == Some(
                    Request::MintShares { to: from, b_delta, d_delta, reserves: market.reserves },
                )
                &&& levered.next(Reply::Minted(Err(e))) == DepositState::Finished(Err(e))
                &&& balance is Err ==> minted == DepositState::Finished(Err(balance->Err_0))
                &&& balance is Ok ==> {
                    &&& minted.awaits() == Some(Request::AnnounceDeposit { amount, from })
                    &&& minted.next(Reply::Done) is Finished
                    &&& minted.next(Reply::Done)->Finished_0 is Ok
                    &&& minted.next(Reply::Done)->Finished_0->Ok_0 == balance->Ok_0
                }
            }
        }),
{
    law_value_fits(shares as int, updated);
}

/// A reply to something else than what the deposit waits for changes nothing, and a deposit
/// that is over waits for nothing.
pub proof fn law_deposit_ignores_other_replies(state: DepositState, reply: Reply)
    ensures
        !answers_any(state.awaits(), reply) ==> state.next(reply) == state,
        state.awaits() is None <==> state is Finished,
{
}

/// Whether the market was read, at `i`, with these reserves.
pub open spec fn market_read_at(
    start: DepositState,
    reserves: LeverageReserves,
    replies: Seq<Reply>,
    i: int,
) -> bool {
    &&& start.asked(Request::ReadMarket, replies, i)
    &&& replies[i] is Market
    &&& replies[i]->Market_0.reserves == reserves
}

/// Whether the pool was asked, at `i`, to lever `amount` and reported what that added.
pub open spec fn levered_at(
    start: DepositState,
    amount: i128,
    b_delta: i128,
    d_delta: i128,
    replies: Seq<Reply>,
    i: int,
) -> bool {
    &&& start.asked(Request::SubmitLoop { amount }, replies, i)
    &&& replies[i] == Reply::Tokens(Ok((b_delta, d_delta)))
}

/// The reserves that a deposit goes by from when it is accepted until shares are minted.
pub open spec fn goes_by(state: DepositState, the_reserves: LeverageReserves) -> bool {
    match state {
        DepositState::Transferring { amount, from, reserves } => reserves == the_reserves,
        DepositState::Looping { amount, from, reserves } => reserves == the_reserves,
        DepositState::Minting { amount, from, b_delta, d_delta, reserves } => reserves
            == the_reserves,
        _ => false,
    }
}

/// The reserves that a deposit goes by are those of the market that was read.
proof fn lemma_reserves_were_read(
    amount: i128,
    from: Address,
    reserves: LeverageReserves,
    replies: Seq<Reply>,
) -> (i: int)
    requires
        goes_by(DepositState::start(amount, from).run(replies), reserves),
    ensures
        market_read_at(DepositState::start(amount, from), reserves, replies, i),
    decreases replies.len(),
{
    let start = DepositState::start(amount, from);
    assert(replies.len() > 0);
    let before = replies.drop_last();
    let last = replies.len() - 1;
    if goes_by(start.run(before), reserves) {
        let i = lemma_reserves_were_read(amount, from, reserves, before);
        assert(replies.take(i) =~= before.take(i));
        i
    } else {
        assert(replies.take(last) =~= before);
        last
    }
}

/// Whatever is replied to a deposit, what it asks for is asked for the depositor and the
/// amount: the amount is taken from the depositor, no more and no less is levered, and it is
/// what is published.
pub proof fn law_deposit_moves_its_amount(amount: i128, from: Address, replies: Seq<Reply>)
    ensures
        match DepositState::start(amount, from).run(replies).awaits() {
            Some(Request::Authorize(who)) => who == from,
            Some(Request::ReadMarket) => true,
            Some(Request::Transfer { from: who, amount: moved }) => who == from && moved == amount,
            Some(Request::SubmitLoop { amount: moved }) => moved == amount,
            Some(Request::MintShares { to, b_delta, d_delta, reserves }) => to == from,
            Some(Request::AnnounceDeposit { amount: moved, from: who }) => who == from && moved
                == amount,
            Some(_) => false,
            None => true,
        },
{
    law_deposit_keeps_terms(amount, from, replies);
}

/// Shares are minted for what the pool reported that levering the amount added, on the
/// reserves that the deposit was judged by.
pub proof fn law_deposit_mints_for_what_was_added(
    amount: i128,
    from: Address,
    b_delta: i128,
    d_delta: i128,
    reserves: LeverageReserves,
    to: Address,
    replies: Seq<Reply>,
)
    requires
        DepositState::start(amount, from).run(replies).awaits() == Some(
            Request::MintShares { to, b_delta, d_delta, reserves },
        ),
    ensures
        to == from,
        exists|i: int|
            levered_at(DepositState::start(amount, from), amount, b_delta, d_delta, replies, i),
        exists|i: int| market_read_at(DepositState::start(amount, from), reserves, replies, i),
    decreases replies.len(),
{
    let start = DepositState::start(amount, from);
    assert(replies.len() > 0);
    let before = replies.drop_last();
    let last = replies.len() - 1;
    law_deposit_moves_its_amount(amount, from, replies);
    law_deposit_moves_its_amount(amount, from, before);
    let j = lemma_reserves_were_read(amount, from, reserves, replies);
    assert(market_read_at(start, reserves, replies, j));
    if start.run(before) is Minting {
        law_deposit_mints_for_what_was_added(amount, from, b_delta, d_delta, reserves, to, before);
        let i = choose|i: int| levered_at(start, amount, b_delta, d_delta, before, i);
        assert(replies.take(i) =~= before.take(i));
        assert(levered_at(start, amount, b_delta, d_delta, replies, i));
    } else {
        assert(replies.take(last) =~= before);
        assert(levered_at(start, amount, b_delta, d_delta, replies, last));
    }
}

} // verus!
