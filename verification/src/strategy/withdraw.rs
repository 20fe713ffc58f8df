//! Withdrawing.

use crate::error::StrategyError;
use crate::leverage::equity::{shares_to_underlying, shares_value};
use crate::strategy::requests::{Reply, Request, Withdrawal};
use crate::strategy::{amount_verdict, check_positive_amount, BlendLeverageStrategy};
use crate::types::{Address, LeverageReserves};
use vstd::prelude::*;

verus! {

/// How far a withdrawal has come.
#[derive(Debug, PartialEq, Eq)]
pub enum WithdrawState {
    /// The holder has to authorize it.
    Authorizing { amount: i128, from: Address, to: Address },
    /// The reserves have to be read.
    Reading { amount: i128, from: Address, to: Address },
    /// The shares that the amount is worth have to be burned.
    Burning { amount: i128, from: Address, to: Address, reserves: LeverageReserves },
    /// The part of the position that they stood for has to be unwound.
    Unwinding { amount: i128, from: Address, to: Address, released: Withdrawal },
    /// The withdrawal has to be published.
    Announcing { amount: i128, from: Address, balance: i128 },
    /// The call is over, with the holder's remaining underlying balance or an error.
    Finished(Result<i128, StrategyError>),
}

impl BlendLeverageStrategy {
    /// Starts a withdrawal of `amount` from `from` to `to`. Only a positive amount is accepted.
    pub fn withdraw(amount: i128, from: Address, to: Address) -> (r: WithdrawState)
        ensures
            r == WithdrawState::start(amount, from, to),
    {
        match check_positive_amount(amount) {
            Err(e) => WithdrawState::Finished(Err(e)),
            Ok(()) => WithdrawState::Authorizing { amount, from, to },
        }
    }
}

impl WithdrawState {
    /// The state in which a withdrawal starts.
    pub open spec fn start(amount: i128, from: Address, to: Address) -> WithdrawState {
        match amount_verdict(amount as int) {
            Err(e) => WithdrawState::Finished(Err(e)),
            Ok(_) => WithdrawState::Authorizing { amount, from, to },
        }
    }

    /// What the withdrawal waits for.
    pub open spec fn awaits(self) -> Option<Request> {
        match self {
            WithdrawState::Authorizing { amount, from, to } => Some(Request::Authorize(from)),
            WithdrawState::Reading { amount, from, to } => Some(Request::ReadReserves),
            WithdrawState::Burning { amount, from, to, reserves } => Some(
                Request::BurnShares { from, amount, reserves },
            ),
            WithdrawState::Unwinding { amount, from, to, released } => Some(
                Request::SubmitUnwind {
                    b_tokens: released.b_tokens,
                    d_tokens: released.d_tokens,
                    to,
                },
            ),
            WithdrawState::Announcing { amount, from, balance } => Some(
                Request::AnnounceWithdraw { amount, from },
            ),
            WithdrawState::Finished(_) => None,
        }
    }

    /// The state after a reply. One that is no reply to what the withdrawal waits for changes
    /// nothing.
    pub open spec fn next(self, reply: Reply) -> WithdrawState {
        match (self, reply) {
            (
                WithdrawState::Authorizing { amount, from, to },
                Reply::Done,
            ) => WithdrawState::Reading { amount, from, to },
            (
                WithdrawState::Reading { amount, from, to },
                Reply::Reserves(reserves),
            ) => WithdrawState::Burning { amount, from, to, reserves },
            (
                WithdrawState::Burning { amount, from, to, reserves },
                Reply::Burned(burned),
            ) => match burned {
                Err(e) => WithdrawState::Finished(Err(e)),
                Ok(released) => WithdrawState::Unwinding { amount, from, to, released },
            },
            (
                WithdrawState::Unwinding { amount, from, to, released },
                Reply::Settled(unwound),
            ) => match unwound {
                Err(e) => WithdrawState::Finished(Err(e)),
                Ok(_) => match shares_value(
                    released.remaining_shares as int,
                    released.reserves,
                ) {
                    Err(e) => WithdrawState::Finished(Err(e)),
                    Ok(balance) => WithdrawState::Announcing {
                        amount,
                        from,
                        balance: balance as i128,
                    },
                },
            },
            (
                WithdrawState::Announcing { amount, from, balance },
                Reply::Done,
            ) => WithdrawState::Finished(Ok(balance)),
            _ => self,
        }
    }

    /// What the withdrawal waits for; nothing once it is over.
    pub fn request(&self) -> (r: Option<Request>)
        ensures
            r == self.awaits(),
    {
        match self {
            WithdrawState::Authorizing { amount, from, to } => Some(Request::Authorize(*from)),
            WithdrawState::Reading { amount, from, to } => Some(Request::ReadReserves),
            WithdrawState::Burning { amount, from, to, reserves } => Some(
                Request::BurnShares { from: *from, amount: *amount, reserves: *reserves },
            ),
            WithdrawState::Unwinding { amount, from, to, released } => Some(
                Request::SubmitUnwind {
                    b_tokens: released.b_tokens,
                    d_tokens: released.d_tokens,
                    to: *to,
                },
            ),
            WithdrawState::Announcing { amount, from, balance } => Some(
                Request::AnnounceWithdraw { amount: *amount, from: *from },
            ),
            WithdrawState::Finished(_) => None,
        }
    }

    /// Goes on with the reply to what the withdrawal waits for.
    pub fn step(self, reply: Reply) -> (r: WithdrawState)
        ensures
            r == self.next(reply),
    {
        match (self, reply) {
            (
                WithdrawState::Authorizing { amount, from, to },
                Reply::Done,
            ) => WithdrawState::Reading { amount, from, to },
            (
                WithdrawState::Reading { amount, from, to },
                Reply::Reserves(reserves),
            ) => WithdrawState::Burning { amount, from, to, reserves },
            (
                WithdrawState::Burning { amount, from, to, reserves },
                Reply::Burned(burned),
            ) => match burned {
                Err(e) => WithdrawState::Finished(Err(e)),
                Ok(released) => WithdrawState::Unwinding { amount, from, to, released },
            },
            (
                WithdrawState::Unwinding { amount, from, to, released },
                Reply::Settled(unwound),
            ) => match unwound {
                Err(e) => WithdrawState::Finished(Err(e)),
                Ok(()) => match shares_to_underlying(
                    released.remaining_shares,
                    &released.reserves,
                ) {
                    Err(e) => WithdrawState::Finished(Err(e)),
                    Ok(balance) => WithdrawState::Announcing { amount, from, balance },
                },
            },
            (
                WithdrawState::Announcing { amount, from, balance },
                Reply::Done,
            ) => WithdrawState::Finished(Ok(balance)),
            (state, _) => state,
        }
    }
}

// What holds of every withdrawal, whatever is replied to it.

impl WithdrawState {
    /// The state after a series of replies.
    pub open spec fn run(self, replies: Seq<Reply>) -> WithdrawState
        decreases replies.len(),
    {
        if replies.len() == 0 {
            self
        } else {
            self.run(replies.drop_last()).next(replies.last())
        }
    }

    /// Whether the reply at `i` is the one to `request`.
    pub open spec fn asked(self, request: Request, replies: Seq<Reply>, i: int) -> bool {
        &&& 0 <= i < replies.len()
        &&& self.run(replies.take(i)).awaits() == Some(request)
    }

    /// Whether the withdrawal has been authorized.
    pub open spec fn is_authorized(self) -> bool {
        match self {
            WithdrawState::Authorizing { .. } => false,
            WithdrawState::Finished(r) => r is Ok,
            _ => true,
        }
    }

    /// Whether the state is one of a withdrawal of `amount` from `holder` to `receiver`.
    pub open spec fn is_of(self, the_amount: i128, holder: Address, receiver: Address) -> bool {
        match self {
            WithdrawState::Authorizing { amount, from, to } => amount == the_amount && from
                == holder && to == receiver,
            WithdrawState::Reading { amount, from, to } => amount == the_amount && from == holder
                && to == receiver,
            WithdrawState::Burning { amount, from, to, reserves } => amount == the_amount && from
                == holder && to == receiver,
            WithdrawState::Unwinding { amount, from, to, released } => amount == the_amount && from
                == holder && to == receiver,
            WithdrawState::Announcing { amount, from, balance } => amount == the_amount && from
                == holder,
            WithdrawState::Finished(_) => true,
        }
    }
}

/// Whether the authorization of `from` was asked for and given, at `i`.
pub open spec fn authorized_at(
    amount: i128,
    from: Address,
    to: Address,
    replies: Seq<Reply>,
    i: int,
) -> bool {
    &&& WithdrawState::start(amount, from, to).asked(Request::Authorize(from), replies, i)
    &&& replies[i] == Reply::Done
}

/// Whether burning shares of the withdrawal, at `i`, released `released`.
pub open spec fn burned_at(
    amount: i128,
    from: Address,
    to: Address,
    released: Withdrawal,
    replies: Seq<Reply>,
    i: int,
) -> bool {
    &&& 0 <= i < replies.len()
    &&& WithdrawState::start(amount, from, to).run(replies.take(i)) is Burning
    &&& replies[i] == Reply::Burned(Ok(released))
}

/// A withdrawal of an amount that is not positive asks for nothing and is refused.
pub proof fn law_refused_withdrawal_stays(
    amount: i128,
    from: Address,
    to: Address,
    replies: Seq<Reply>,
)
    ensures
        amount <= 0 ==> WithdrawState::start(amount, from, to).run(replies)
            == WithdrawState::Finished(Err(StrategyError::OnlyPositiveAmountAllowed)),
        amount <= 0 ==> WithdrawState::start(amount, from, to).awaits() is None,
    decreases replies.len(),
{
    if replies.len() > 0 {
        law_refused_withdrawal_stays(amount, from, to, replies.drop_last());
    }
}

/// A withdrawal never changes its amount, its holder or its receiver.
pub proof fn law_withdrawal_keeps_terms(
    amount: i128,
    from: Address,
    to: Address,
    replies: Seq<Reply>,
)
    ensures
        WithdrawState::start(amount, from, to).run(replies).is_of(amount, from, to),
    decreases replies.len(),
{
    if replies.len() > 0 {
        law_withdrawal_keeps_terms(amount, from, to, replies.drop_last());
    }
}

/// Nothing is burned or unwound unless the amount is positive and the holder has authorized
/// the withdrawal.
pub proof fn law_withdrawal_is_authorized(
    amount: i128,
    from: Address,
    to: Address,
    replies: Seq<Reply>,
)
    requires
        WithdrawState::start(amount, from, to).run(replies).is_authorized(),
    ensures
        amount > 0,
        exists|i: int| authorized_at(amount, from, to, replies, i),
    decreases replies.len(),
{
    let start = WithdrawState::start(amount, from, to);
    assert(replies.len() > 0);
    let before = replies.drop_last();
    let last = replies.len() - 1;
    law_withdrawal_keeps_terms(amount, from, to, before);
    if start.run(before).is_authorized() {
        law_withdrawal_is_authorized(amount, from, to, before);
        let i = choose|i: int| authorized_at(amount, from, to, before, i);
        assert(replies.take(i) =~= before.take(i));
        assert(authorized_at(amount, from, to, replies, i));
    } else {
        law_refused_withdrawal_stays(amount, from, to, before);
        assert(replies.take(last) =~= before);
        assert(authorized_at(amount, from, to, replies, last));
    }
}

/// The pool is unwound only by what burning shares released, and for the receiver.
pub proof fn law_withdrawal_unwinds_what_was_burned(
    amount: i128,
    from: Address,
    to: Address,
    replies: Seq<Reply>,
)
    requires
        WithdrawState::start(amount, from, to).run(replies) is Unwinding,
    ensures
        ({
            let released = WithdrawState::start(amount, from, to).run(replies)->released;
            &&& WithdrawState::start(amount, from, to).run(replies).awaits() == Some(
                Request::SubmitUnwind {
                    b_tokens: released.b_tokens,
                    d_tokens: released.d_tokens,
                    to,
                },
            )
            &&& exists|i: int| burned_at(amount, from, to, released, replies, i)
        }),
    decreases replies.len(),
{
    let start = WithdrawState::start(amount, from, to);
    assert(replies.len() > 0);
    let before = replies.drop_last();
    let last = replies.len() - 1;
    let released = start.run(replies)->released;
    law_withdrawal_keeps_terms(amount, from, to, replies);
    if start.run(before) is Unwinding {
        law_withdrawal_unwinds_what_was_burned(amount, from, to, before);
        let i = choose|i: int| burned_at(amount, from, to, released, before, i);
        assert(replies.take(i) =~= before.take(i));
        assert(burned_at(amount, from, to, released, replies, i));
    } else {
        assert(replies.take(last) =~= before);
        assert(burned_at(amount, from, to, released, replies, last));
    }
}

/// A withdrawal that succeeds answers what the shares left to the holder are worth.
pub proof fn law_withdrawal_answers_balance(
    amount: i128,
    from: Address,
    to: Address,
    replies: Seq<Reply>,
    balance: i128,
)
    requires
        ({
            let end = WithdrawState::start(amount, from, to).run(replies);
            ||| end == WithdrawState::Finished(Ok(balance))
            ||| end == (WithdrawState::Announcing { amount, from, balance })
        }),
    ensures
        exists|i: int, released: Withdrawal| #[trigger]
            burned_at(amount, from, to, released, replies, i) && shares_value(
                released.remaining_shares as int,
                released.reserves,
            ) == Ok::<int, StrategyError>(balance as int),
    decreases replies.len(),
{
    let start = WithdrawState::start(amount, from, to);
    assert(replies.len() > 0);
    let before = replies.drop_last();
    law_withdrawal_keeps_terms(amount, from, to, before);
    let at = start.run(before);
    if at is Unwinding {
        let released = at->released;
        law_withdrawal_unwinds_what_was_burned(amount, from, to, before);
        let i = choose|i: int| burned_at(amount, from, to, released, before, i);
        assert(replies.take(i) =~= before.take(i));
        assert(burned_at(amount, from, to, released, replies, i));
    } else {
        law_withdrawal_answers_balance(amount, from, to, before, balance);
        let (i, released) = choose|i: int, released: Withdrawal| #[trigger]
            burned_at(amount, from, to, released, before, i) && shares_value(
                released.remaining_shares as int,
                released.reserves,
            ) == Ok::<int, StrategyError>(balance as int);
        assert(replies.take(i) =~= before.take(i));
        assert(burned_at(amount, from, to, released, replies, i));
    }
}

/// A positive withdrawal that is authorized, burned for and unwound succeeds with the worth of
/// the shares left to the holder, where that can be computed.
pub proof fn law_good_withdrawal_succeeds(
    amount: i128,
    from: Address,
    to: Address,
    reserves: LeverageReserves,
    released: Withdrawal,
)
    requires
        amount > 0,
        shares_value(released.remaining_shares as int, released.reserves) is Ok,
    ensures
        WithdrawState::start(amount, from, to).next(Reply::Done).next(
            Reply::Reserves(reserves),
        ).next(Reply::Burned(Ok(released))).next(Reply::Settled(Ok(()))).next(Reply::Done)
            == WithdrawState::Finished(
            Ok(shares_value(released.remaining_shares as int, released.reserves)->Ok_0 as i128),
        ),
{
}

} // verus!
