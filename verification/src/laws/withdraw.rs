//! Laws of withdrawing.

use crate::error::StrategyError;
use crate::laws::equity::law_value_fits;
use crate::laws::exchange::answers_any;
use crate::leverage::equity::shares_value;
use crate::strategy::requests::{Reply, Request, Withdrawal};
use crate::strategy::withdraw::{law_withdrawal_keeps_terms, WithdrawState};
use crate::types::{Address, LeverageReserves};
use vstd::prelude::*;

verus! {

/// The course of a withdrawal: the holder authorizes it, the reserves are read, and shares of
/// the holder are burned for the underlying amount asked for, on those reserves. What that
/// released is unwound for the receiver. The withdrawal is published and the worth of the
/// shares left to the holder answered. It is over with the error of whatever fails.
pub proof fn law_course_of_a_withdrawal(
    amount: i128,
    from: Address,
    to: Address,
    reserves: LeverageReserves,
    released: Withdrawal,
    e: StrategyError,
)
    ensures
        ({
            let start = WithdrawState::start(amount, from, to);
            let authorized = start.next(Reply::Done);
            let read = authorized.next(Reply::Reserves(reserves));
            let burned = read.next(Reply::Burned(Ok(released)));
            let unwound = burned.next(Reply::Settled(Ok(())));
            let balance = shares_value(released.remaining_shares as int, released.reserves);
            &&& amount <= 0 ==> start == WithdrawState::Finished(
                Err(StrategyError::OnlyPositiveAmountAllowed),
            )
            &&& amount > 0 ==> {
                &&& start.awaits() == Some(Request::Authorize(from))
                &&& authorized.awaits() == Some(Request::ReadReserves)
                &&& read.awaits() == Some(Request::BurnShares { from, amount, reserves })
                &&& read.next(Reply::Burned(Err(e))) == WithdrawState::Finished(Err(e))
                &&& burned.awaits() == Some(
                    Request::SubmitUnwind {
                        b_tokens: released.b_tokens,
                        d_tokens: released.d_tokens,
                        to,
                    },
                )
                &&& burned.next(Reply::Settled(Err(e))) == WithdrawState::Finished(Err(e))
                &&& balance is Err ==> unwound == WithdrawState::Finished(Err(balance->Err_0))
                &&& balance is Ok ==> {
                    &&& unwound.awaits() == Some(Request::AnnounceWithdraw { amount, from })
                    &&& unwound.next(Reply::Done) is Finished
                    &&& unwound.next(Reply::Done)->Finished_0 is Ok
                    &&& unwound.next(Reply::Done)->Finished_0->Ok_0 == balance->Ok_0
                }
            }
        }),
{
    law_value_fits(released.remaining_shares as int, released.reserves);
}

/// A reply to something else than what the withdrawal waits for changes nothing, and a
/// withdrawal that is over waits for nothing.
pub proof fn law_withdrawal_ignores_other_replies(state: WithdrawState, reply: Reply)
    ensures
        !answers_any(state.awaits(), reply) ==> state.next(reply) == state,
        state.awaits() is None <==> state is Finished,
{
}

/// Whatever is replied to a withdrawal, what it asks for is asked for the holder, the
/// underlying amount and the receiver: shares of the holder are burned for that amount, what
/// they stood for goes to the receiver, and the amount is what is published.
pub proof fn law_withdrawal_moves_its_amount(
    amount: i128,
    from: Address,
    to: Address,
    replies: Seq<Reply>,
)
    ensures
        match WithdrawState::start(amount, from, to).run(replies).awaits() {
            Some(Request::Authorize(who)) => who == from,
            Some(Request::ReadReserves) => true,
            Some(Request::BurnShares { from: who, amount: burned, reserves }) => who == from
                && burned == amount,
            Some(Request::SubmitUnwind { b_tokens, d_tokens, to: whom }) => whom == to,
            Some(Request::AnnounceWithdraw { amount: moved, from: who }) => who == from && moved
                == amount,
            Some(_) => false,
            None => true,
        },
{
    law_withdrawal_keeps_terms(amount, from, to, replies);
}

/// Whether the reserves were asked for, at `i`, and are these.
pub open spec fn reserves_read_at(
    start: WithdrawState,
    reserves: LeverageReserves,
    replies: Seq<Reply>,
    i: int,
) -> bool {
    &&& start.asked(Request::ReadReserves, replies, i)
    &&& replies[i] == Reply::Reserves(reserves)
}

/// A withdrawal burns shares of the holder for exactly the underlying amount asked for, on the
/// reserves that were read, whenever it burns any; and it does so in the step after they were
/// read.
pub proof fn law_withdrawal_burns_for_its_amount(
    amount: i128,
    from: Address,
    to: Address,
    replies: Seq<Reply>,
)
    requires
        ({
            let asked = WithdrawState::start(amount, from, to).run(replies).awaits();
            ||| WithdrawState::start(amount, from, to).run(replies) is Burning
            ||| asked is Some && asked->0 is BurnShares
        }),
    ensures
        exists|reserves: LeverageReserves, i: int|
            WithdrawState::start(amount, from, to).run(replies).awaits() == Some(
                Request::BurnShares { from, amount, reserves },
            ) && #[trigger] reserves_read_at(
                WithdrawState::start(amount, from, to),
                reserves,
                replies,
                i,
            ),
    decreases replies.len(),
{
    let start = WithdrawState::start(amount, from, to);
    assert(replies.len() > 0);
    let before = replies.drop_last();
    let last = replies.len() - 1;
    law_withdrawal_keeps_terms(amount, from, to, replies);
    if start.run(before) is Burning {
        law_withdrawal_burns_for_its_amount(amount, from, to, before);
        let (reserves, i) = choose|reserves: LeverageReserves, i: int|
            start.run(before).awaits() == Some(Request::BurnShares { from, amount, reserves })
                && #[trigger] reserves_read_at(start, reserves, before, i);
        assert(replies.take(i) =~= before.take(i));
        assert(reserves_read_at(start, reserves, replies, i));
    } else {
        assert(replies.take(last) =~= before);
        let reserves = replies.last()->Reserves_0;
        assert(reserves_read_at(start, reserves, replies, last));
    }
}

/// Whether shares of `from` were burned for `amount`, at `i`, and that released `released`.
pub open spec fn released_at(
    start: WithdrawState,
    amount: i128,
    from: Address,
    released: Withdrawal,
    replies: Seq<Reply>,
    i: int,
) -> bool {
    &&& 0 <= i < replies.len()
    &&& start.run(replies.take(i)).awaits() is Some
    &&& start.run(replies.take(i)).awaits()->0 is BurnShares
    &&& start.run(replies.take(i)).awaits()->0->BurnShares_from == from
    &&& start.run(replies.take(i)).awaits()->0->BurnShares_amount == amount
    &&& replies[i] == Reply::Burned(Ok(released))
}

/// What is unwound in the pool is what burning shares for the amount released.
pub proof fn law_withdrawal_unwinds_what_was_released(
    amount: i128,
    from: Address,
    to: Address,
    b_tokens: i128,
    d_tokens: i128,
    whom: Address,
    replies: Seq<Reply>,
)
    requires
        WithdrawState::start(amount, from, to).run(replies).awaits() == Some(
            Request::SubmitUnwind { b_tokens, d_tokens, to: whom },
        ),
    ensures
        whom == to,
        exists|released: Withdrawal, i: int|
            released.b_tokens == b_tokens && released.d_tokens == d_tokens
                && #[trigger] released_at(
                WithdrawState::start(amount, from, to),
                amount,
                from,
                released,
                replies,
                i,
            ),
    decreases replies.len(),
{
    let start = WithdrawState::start(amount, from, to);
    assert(replies.len() > 0);
    let before = replies.drop_last();
    let last = replies.len() - 1;
    law_withdrawal_moves_its_amount(amount, from, to, replies);
    law_withdrawal_moves_its_amount(amount, from, to, before);
    if start.run(before) is Unwinding {
        law_withdrawal_unwinds_what_was_released(
            amount,
            from,
            to,
            b_tokens,
            d_tokens,
            whom,
            before,
        );
        let (released, i) = choose|released: Withdrawal, i: int|
            released.b_tokens == b_tokens && released.d_tokens == d_tokens
                && #[trigger] released_at(start, amount, from, released, before, i);
        assert(replies.take(i) =~= before.take(i));
        assert(released_at(start, amount, from, released, replies, i));
    } else {
        assert(replies.take(last) =~= before);
        let released = replies.last()->Burned_0->Ok_0;
        assert(released_at(start, amount, from, released, replies, last));
    }
}

} // verus!
