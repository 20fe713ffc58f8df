//! Unwinding part of the position to protect it from liquidation.

use crate::error::StrategyError;
use crate::laws::unwind::law_healthy_is_left_alone;
use crate::leverage::health::{compute_health_factor, position_of, Position};
use crate::leverage::unwind::compute_unwind_loops;
use crate::strategy::requests::{PoolPosition, Reply, Request};
use crate::strategy::BlendLeverageStrategy;
use crate::types::{Address, Config};
use vstd::prelude::*;

verus! {

impl PoolPosition {
    /// The position that a configured collateral factor makes of this.
    pub open spec fn under(self, config: Config) -> Position {
        position_of(self.b_tokens, self.d_tokens, self.b_rate, self.d_rate, config.c_factor)
    }

    /// Whether the position is worse than the orange-zone threshold.
    pub open spec fn is_in_danger(self, config: Config) -> bool {
        self.under(config).health() is Ok && self.under(config).health()->Ok_0 < config.orange_hf
    }

    /// How many layers to unwind: none without debt or from the orange-zone threshold on, else
    /// the fewest that restore the minimum health factor.
    pub open spec fn planned(self, config: Config) -> Result<u32, StrategyError> {
        if self.under(config).health() is Err {
            Err(self.under(config).health()->Err_0)
        } else if self.is_in_danger(config) {
            self.under(config).layers_to_peel(config.min_hf as int)
        } else {
            Ok(0)
        }
    }

    /// Whether the number of layers can be computed where it is needed.
    pub open spec fn plan_defined(self, config: Config) -> bool {
        self.is_in_danger(config) ==> self.under(config).unwind_defined(config.min_hf as int)
    }

    /// How many layers to unwind: none without debt or with a health factor of at least
    /// `orange_hf`, else the fewest that restore `min_hf`.
    pub fn plan(&self, config: &Config) -> (r: Result<u32, StrategyError>)
        requires
            self.plan_defined(*config),
        ensures
            r == self.planned(*config),
    {
        if self.d_tokens == 0 {
            return Ok(0);
        }
        let hf: i128 = compute_health_factor(
            self.b_tokens,
            self.d_tokens,
            self.b_rate,
            self.d_rate,
            config.c_factor,
        )?;
        if hf >= config.orange_hf {
            return Ok(0);
        }
        compute_unwind_loops(
            self.b_tokens,
            self.d_tokens,
            self.b_rate,
            self.d_rate,
            config.c_factor,
            config.min_hf,
        )
    }
}

/// How far an unwinding call has come. A call with a `caller` answers the number of layers
/// unwound, one without answers nothing.
#[derive(Debug, PartialEq, Eq)]
pub enum UnwindState {
    /// The caller has to authorize it.
    Authorizing { caller: Address },
    /// The position has to be read and judged.
    Reading { caller: Option<Address> },
    /// The layers have to be peeled in the pool.
    Submitting { caller: Option<Address>, loops: u32 },
    /// What that removed has to be recorded.
    Recording { caller: Option<Address>, loops: u32, b_removed: i128, d_removed: i128 },
    /// A rebalancing is over.
    Rebalanced(Result<(), StrategyError>),
    /// A partial unwinding is over, with the number of layers unwound.
    Unwound(Result<u32, StrategyError>),
}

impl BlendLeverageStrategy {
    /// Starts a rebalancing, which anyone may ask for: below `orange_hf` the fewest layers are
    /// unwound that restore `min_hf`.
    pub fn rebalance() -> (r: UnwindState)
        ensures
            r == (UnwindState::Reading { caller: None }),
    {
        UnwindState::Reading { caller: None }
    }

    /// Starts a partial unwinding, which any caller may authorize: below `orange_hf` the fewest
    /// layers are unwound that restore `min_hf`, and their number is answered.
    pub fn partial_unwind(caller: Address) -> (r: UnwindState)
        ensures
            r == (UnwindState::Authorizing { caller }),
    {
        UnwindState::Authorizing { caller }
    }
}

impl UnwindState {
    /// The end of the call of `caller` with `r`.
    pub open spec fn over(caller: Option<Address>, r: Result<u32, StrategyError>) -> UnwindState {
        match caller {
            Some(_) => UnwindState::Unwound(r),
            None => match r {
                Ok(_) => UnwindState::Rebalanced(Ok(())),
                Err(e) => UnwindState::Rebalanced(Err(e)),
            },
        }
    }

    /// Ends the call of `caller` with `r`.
    fn finish(caller: Option<Address>, r: Result<u32, StrategyError>) -> (s: UnwindState)
        ensures
            s == UnwindState::over(caller, r),
    {
        match caller {
            Some(_) => UnwindState::Unwound(r),
            None => match r {
                Ok(_) => UnwindState::Rebalanced(Ok(())),
                Err(e) => UnwindState::Rebalanced(Err(e)),
            },
        }
    }

    /// What the call waits for.
    pub open spec fn awaits(self) -> Option<Request> {
        match self {
            UnwindState::Authorizing { caller } => Some(Request::Authorize(caller)),
            UnwindState::Reading { caller } => Some(Request::ReadPosition),
            UnwindState::Submitting { caller, loops } => Some(Request::SubmitDeleverage { loops }),
            UnwindState::Recording { caller, loops, b_removed, d_removed } => Some(
                Request::RecordDeleverage { b_removed, d_removed },
            ),
            UnwindState::Rebalanced(_) => None,
            UnwindState::Unwound(_) => None,
        }
    }

    /// The state after a reply. One that is no reply to what the call waits for changes nothing.
    pub open spec fn next(self, reply: Reply) -> UnwindState {
        match (self, reply) {
            (UnwindState::Authorizing { caller }, Reply::Done) => UnwindState::Reading {
                caller: Some(caller),
            },
            (
                UnwindState::Reading { caller },
                Reply::Position(config, position),
            ) => match position.planned(config) {
                Err(e) => UnwindState::over(caller, Err(e)),
                Ok(loops) => if loops == 0 {
                    UnwindState::over(caller, Ok(0))
                } else {
                    UnwindState::Submitting { caller, loops }
                },
            },
            (UnwindState::Submitting { caller, loops }, Reply::Tokens(moved)) => match moved {
                Err(e) => UnwindState::over(caller, Err(e)),
                Ok((b_removed, d_removed)) => UnwindState::Recording {
                    caller,
                    loops,
                    b_removed,
                    d_removed,
                },
            },
            (
                UnwindState::Recording { caller, loops, b_removed, d_removed },
                Reply::Settled(recorded),
            ) => match recorded {
                Err(e) => UnwindState::over(caller, Err(e)),
                Ok(_) => UnwindState::over(caller, Ok(loops)),
            },
            _ => self,
        }
    }

    /// Whether the number of layers that a reply calls for can be computed.
    pub open spec fn accepts(self, reply: Reply) -> bool {
        match (self, reply) {
            (UnwindState::Reading { caller }, Reply::Position(config, position)) => {
                position.plan_defined(config)
            },
            _ => true,
        }
    }

    /// What the call waits for; nothing once it is over.
    pub fn request(&self) -> (r: Option<Request>)
        ensures
            r == self.awaits(),
    {
        match self {
            UnwindState::Authorizing { caller } => Some(Request::Authorize(*caller)),
            UnwindState::Reading { caller } => Some(Request::ReadPosition),
            UnwindState::Submitting { caller, loops } => Some(
                Request::SubmitDeleverage { loops: *loops },
            ),
            UnwindState::Recording { caller, loops, b_removed, d_removed } => Some(
                Request::RecordDeleverage { b_removed: *b_removed, d_removed: *d_removed },
            ),
            UnwindState::Rebalanced(_) => None,
            UnwindState::Unwound(_) => None,
        }
    }

    /// Goes on with the reply to what the call waits for.
    pub fn step(self, reply: Reply) -> (r: UnwindState)
        requires
            self.accepts(reply),
        ensures
            r == self.next(reply),
    {
        match (self, reply) {
            (UnwindState::Authorizing { caller }, Reply::Done) => UnwindState::Reading {
                caller: Some(caller),
            },
            (
                UnwindState::Reading { caller },
                Reply::Position(config, position),
            ) => match position.plan(&config) {
                Err(e) => Self::finish(caller, Err(e)),
                Ok(loops) => if loops == 0 {
                    Self::finish(caller, Ok(0))
                } else {
                    UnwindState::Submitting { caller, loops }
                },
            },
            (UnwindState::Submitting { caller, loops }, Reply::Tokens(moved)) => match moved {
                Err(e) => Self::finish(caller, Err(e)),
                Ok((b_removed, d_removed)) => UnwindState::Recording {
                    caller,
                    loops,
                    b_removed,
                    d_removed,
                },
            },
            (
                UnwindState::Recording { caller, loops, b_removed, d_removed },
                Reply::Settled(recorded),
            ) => match recorded {
                Err(e) => Self::finish(caller, Err(e)),
                Ok(()) => Self::finish(caller, Ok(loops)),
            },
            (state, _) => state,
        }
    }
}

// What holds of every unwinding, whatever is replied to it.

impl UnwindState {
    /// The state after a series of replies.
    pub open spec fn run(self, replies: Seq<Reply>) -> UnwindState
        decreases replies.len(),
    {
        if replies.len() == 0 {
            self
        } else {
            self.run(replies.drop_last()).next(replies.last())
        }
    }

    /// Whether the reply at `i` is the one to `request`.
    pub open spec fn asked(self, request: Request, replies: Seq<Reply>, i: int) -> bool {
        &&& 0 <= i < replies.len()
        &&& self.run(replies.take(i)).awaits() == Some(request)
    }

    /// Whether the state is that of a call of `the_caller`, or of no one in particular.
    pub open spec fn is_of(self, the_caller: Option<Address>) -> bool {
        match self {
            UnwindState::Authorizing { caller } => the_caller == Some(caller),
            UnwindState::Reading { caller } => caller == the_caller,
            UnwindState::Submitting { caller, loops } => caller == the_caller && loops > 0,
            UnwindState::Recording { caller, loops, b_removed, d_removed } => caller == the_caller
                && loops > 0,
            UnwindState::Rebalanced(_) => the_caller is None,
            UnwindState::Unwound(_) => the_caller is Some,
        }
    }

    /// The number of layers that the call unwinds or has unwound.
    pub open spec fn unwinds(self, n: u32) -> bool {
        match self {
            UnwindState::Submitting { caller, loops } => loops == n,
            UnwindState::Recording { caller, loops, b_removed, d_removed } => loops == n,
            UnwindState::Unwound(Ok(loops)) => loops == n && n > 0,
            _ => false,
        }
    }
}

/// Whether the position was asked for, at `i`, and calls for `n` layers to be unwound.
pub open spec fn planned_at(start: UnwindState, n: u32, replies: Seq<Reply>, i: int) -> bool {
    &&& start.asked(Request::ReadPosition, replies, i)
    &&& replies[i] is Position
    &&& replies[i]->Position_1.planned(replies[i]->Position_0) == Ok::<u32, StrategyError>(n)
}

/// A rebalancing ends without a number, a partial unwinding with one, for its own caller.
pub proof fn law_unwinding_keeps_caller(
    start: UnwindState,
    caller: Option<Address>,
    replies: Seq<Reply>,
)
    requires
        start.is_of(caller),
    ensures
        start.run(replies).is_of(caller),
    decreases replies.len(),
{
    if replies.len() > 0 {
        law_unwinding_keeps_caller(start, caller, replies.drop_last());
    }
}

/// What is unwound is what the position that was read calls for, and a partial unwinding
/// answers just that number.
pub proof fn law_unwinds_what_was_planned(start: UnwindState, n: u32, replies: Seq<Reply>)
    requires
        start is Authorizing || start is Reading,
        start.run(replies).unwinds(n),
    ensures
        exists|i: int| planned_at(start, n, replies, i),
    decreases replies.len(),
{
    assert(replies.len() > 0);
    let before = replies.drop_last();
    let last = replies.len() - 1;
    if start.run(before).unwinds(n) {
        law_unwinds_what_was_planned(start, n, before);
        let i = choose|i: int| planned_at(start, n, before, i);
        assert(replies.take(i) =~= before.take(i));
        assert(planned_at(start, n, replies, i));
    } else {
        assert(replies.take(last) =~= before);
        assert(planned_at(start, n, replies, last));
    }
}

/// Layers are unwound only from a position that is below both the orange-zone threshold and
/// the minimum health factor: from the minimum on, the fewest layers that restore it are none.
pub proof fn law_only_endangered_is_unwound(position: PoolPosition, config: Config)
    requires
        position.planned(config) is Ok,
    ensures
        position.planned(config)->Ok_0 > 0 <==> position.is_in_danger(config) && position.under(
            config,
        ).health()->Ok_0 < config.min_hf,
{
    law_healthy_is_left_alone(position.under(config), config.min_hf as int);
}

/// The reading of the position waits for the caller of a partial unwinding to authorize it.
pub proof fn law_partial_unwind_is_authorized(caller: Address, replies: Seq<Reply>)
    requires
        !((UnwindState::Authorizing { caller }).run(replies) is Authorizing),
    ensures
        exists|i: int|
            (UnwindState::Authorizing { caller }).asked(Request::Authorize(caller), replies, i)
                && replies[i] == Reply::Done,
    decreases replies.len(),
{
    let start = UnwindState::Authorizing { caller };
    assert(replies.len() > 0);
    let before = replies.drop_last();
    let last = replies.len() - 1;
    law_unwinding_keeps_caller(start, Some(caller), before);
    if start.run(before) is Authorizing {
        assert(replies.take(last) =~= before);
        assert(start.asked(Request::Authorize(caller), replies, last));
    } else {
        law_partial_unwind_is_authorized(caller, before);
        let i = choose|i: int|
            start.asked(Request::Authorize(caller), before, i) && before[i] == Reply::Done;
        assert(replies.take(i) =~= before.take(i));
        assert(start.asked(Request::Authorize(caller), replies, i));
    }
}

/// A rebalancing and a partial unwinding of the same position peel the same number of layers,
/// and the latter answers it.
pub proof fn law_good_unwinding_succeeds(
    caller: Address,
    config: Config,
    position: PoolPosition,
    b_removed: i128,
    d_removed: i128,
)
    requires
        position.plan_defined(config),
        position.planned(config) is Ok,
        position.planned(config)->Ok_0 > 0,
    ensures
        ({
            let n = position.planned(config)->Ok_0;
            let read = Reply::Position(config, position);
            let moved = Reply::Tokens(Ok((b_removed, d_removed)));
            let rebalancing = (UnwindState::Reading { caller: None }).next(read);
            let unwinding = (UnwindState::Authorizing { caller }).next(Reply::Done).next(read);
            &&& rebalancing.awaits() == Some(Request::SubmitDeleverage { loops: n })
            &&& unwinding.awaits() == Some(Request::SubmitDeleverage { loops: n })
            &&& rebalancing.next(moved).next(Reply::Settled(Ok(()))) == UnwindState::Rebalanced(
                Ok(()),
            )
            &&& unwinding.next(moved).next(Reply::Settled(Ok(()))) == UnwindState::Unwound(Ok(n))
        }),
{
}

} // verus!
