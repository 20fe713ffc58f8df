//! Laws of rebalancing and partial unwinding.

use crate::error::StrategyError;
use crate::laws::exchange::answers_any;
use crate::laws::unwind::{
    has_health, law_healthy_is_left_alone, law_unwind_is_minimal, law_unwind_reaches_target,
    never_healthy,
};
use crate::leverage::health::Position;
use crate::strategy::requests::{PoolPosition, Reply, Request};
use crate::strategy::unwinding::{law_unwinds_what_was_planned, planned_at, UnwindState};
use crate::types::{Address, Config};
use vstd::prelude::*;

verus! {

/// Whether `p` is what the pool holds for the strategy, weighted by the configured collateral
/// factor.
pub open spec fn is_position_of(p: Position, position: PoolPosition, config: Config) -> bool {
    &&& p.b == position.b_tokens
    &&& p.d == position.d_tokens
    &&& p.b_rate == position.b_rate
    &&& p.d_rate == position.d_rate
    &&& p.c_factor == config.c_factor
}

/// The position whose health is answered and judged is the one in the pool.
pub proof fn law_judged_position_is_the_one_in_the_pool(
    p: Position,
    position: PoolPosition,
    config: Config,
)
    ensures
        position.under(config) == p <==> is_position_of(p, position, config),
{
}

/// Whether peeling `n` layers off `p` is the least that restores the health factor `min_hf`: it
/// does restore it, unless the layers run out or the cap is reached before, and no fewer layers
/// do.
pub open spec fn least_to_restore(p: Position, min_hf: int, n: u32) -> bool {
    &&& n <= 20
    &&& {
        ||| has_health(p.peeled(n as nat), min_hf)
        ||| n > 0 && p.peeled((n - 1) as nat).outer_layer() == 0
        ||| n == 20 && never_healthy(p, min_hf)
    }
    &&& forall|k: nat| #![trigger p.peeled(k)] k < n ==> !has_health(p.peeled(k), min_hf)
}

/// Nothing is unwound without debt or from the orange-zone threshold on. Below it, what is
/// unwound is the least that restores the minimum health factor.
pub proof fn law_plan_restores_the_minimum(p: Position, position: PoolPosition, config: Config)
    requires
        is_position_of(p, position, config),
        position.planned(config) is Ok,
    ensures
        p.health() is Ok,
        p.d == 0 || p.health()->Ok_0 >= config.orange_hf ==> position.planned(config)->Ok_0 == 0,
        p.d != 0 && p.health()->Ok_0 < config.orange_hf ==> least_to_restore(
            p,
            config.min_hf as int,
            position.planned(config)->Ok_0,
        ),
        p.d != 0 && p.health()->Ok_0 < config.orange_hf ==> position.planned(config)
            == p.layers_to_peel(config.min_hf as int),
{
    let n = position.planned(config)->Ok_0;
    let min_hf = config.min_hf as int;
    assert(position.under(config) == p);
    law_healthy_is_left_alone(p, min_hf);
    if p.d != 0 && p.health()->Ok_0 < config.orange_hf {
        law_unwind_reaches_target(p, min_hf);
        assert forall|k: nat| #![trigger p.peeled(k)] k < n implies !has_health(
            p.peeled(k),
            min_hf,
        ) by {
            law_unwind_is_minimal(p, min_hf, k);
        }
    }
}

/// No number of layers is planned exactly where the health factor cannot be computed, or, below
/// the orange-zone threshold, the layers cannot; the error is theirs.
pub proof fn law_plan_fails_with_its_parts(p: Position, position: PoolPosition, config: Config)
    requires
        is_position_of(p, position, config),
    ensures
        p.health() is Err ==> position.planned(config) == Err::<u32, _>(p.health()->Err_0),
        p.health() is Ok ==> (position.planned(config) is Err <==> p.health()->Ok_0
            < config.orange_hf && p.layers_to_peel(config.min_hf as int) is Err),
        p.health() is Ok && position.planned(config) is Err ==> position.planned(config)
            == p.layers_to_peel(config.min_hf as int),
{
    assert(position.under(config) == p);
}

/// Whether the position in the pool was read, at `i`, and `n` is the least number of layers
/// that restores the configured minimum health factor from below the orange-zone threshold.
pub open spec fn called_for_at(start: UnwindState, n: u32, replies: Seq<Reply>, i: int) -> bool {
    &&& start.asked(Request::ReadPosition, replies, i)
    &&& replies[i] is Position
    &&& {
        let config = replies[i]->Position_0;
        let position = replies[i]->Position_1;
        let p = Position {
            b: position.b_tokens as int,
            d: position.d_tokens as int,
            b_rate: position.b_rate as int,
            d_rate: position.d_rate as int,
            c_factor: config.c_factor as int,
        };
        &&& p.health() is Ok
        &&& p.health()->Ok_0 < config.orange_hf
        &&& p.health()->Ok_0 < config.min_hf
        &&& least_to_restore(p, config.min_hf as int, n)
    }
}

/// Whatever is replied to a rebalancing or a partial unwinding, the layers that the pool is
/// asked to peel, and those that are answered as unwound, are the least number that restores
/// the minimum health factor of the position that was read.
pub proof fn law_unwinding_restores_the_minimum(start: UnwindState, n: u32, replies: Seq<Reply>)
    requires
        start is Authorizing || start is Reading,
        n > 0,
        start.run(replies).awaits() == Some(Request::SubmitDeleverage { loops: n })
            || start.run(replies) == UnwindState::Unwound(Ok(n)),
    ensures
        exists|i: int| called_for_at(start, n, replies, i),
{
    law_unwinds_what_was_planned(start, n, replies);
    let i = choose|i: int| planned_at(start, n, replies, i);
    let config = replies[i]->Position_0;
    let position = replies[i]->Position_1;
    let p = Position {
        b: position.b_tokens as int,
        d: position.d_tokens as int,
        b_rate: position.b_rate as int,
        d_rate: position.d_rate as int,
        c_factor: config.c_factor as int,
    };
    law_plan_restores_the_minimum(p, position, config);
    law_healthy_is_left_alone(p, config.min_hf as int);
    assert(called_for_at(start, n, replies, i));
}

/// Whether the pool was asked, at `i`, to peel layers and reported what that removed.
pub open spec fn removed_at(
    start: UnwindState,
    b_removed: i128,
    d_removed: i128,
    replies: Seq<Reply>,
    i: int,
) -> bool {
    &&& 0 <= i < replies.len()
    &&& start.run(replies.take(i)).awaits() is Some
    &&& start.run(replies.take(i)).awaits()->0 is SubmitDeleverage
    &&& replies[i] == Reply::Tokens(Ok((b_removed, d_removed)))
}

/// What is taken off the reserves is what the pool reported as removed.
pub proof fn law_unwinding_records_what_was_removed(
    start: UnwindState,
    b_removed: i128,
    d_removed: i128,
    replies: Seq<Reply>,
)
    requires
        start is Authorizing || start is Reading,
        start.run(replies).awaits() == Some(Request::RecordDeleverage { b_removed, d_removed }),
    ensures
        exists|i: int| removed_at(start, b_removed, d_removed, replies, i),
    decreases replies.len(),
{
    assert(replies.len() > 0);
    let before = replies.drop_last();
    let last = replies.len() - 1;
    if start.run(before) is Recording {
        law_unwinding_records_what_was_removed(start, b_removed, d_removed, before);
        let i = choose|i: int| removed_at(start, b_removed, d_removed, before, i);
        assert(replies.take(i) =~= before.take(i));
        assert(removed_at(start, b_removed, d_removed, replies, i));
    } else {
        assert(replies.take(last) =~= before);
        assert(removed_at(start, b_removed, d_removed, replies, last));
    }
}

/// The course of a rebalancing: the position is read, the planned layers are peeled in the
/// pool, what that removed is recorded, and nothing is answered. It is over at once where no
/// layers are planned, and with the error of whatever fails.
pub proof fn law_course_of_a_rebalancing(
    config: Config,
    position: PoolPosition,
    b_removed: i128,
    d_removed: i128,
    e: StrategyError,
)
    ensures
        ({
            let start = UnwindState::Reading { caller: None };
            let judged = start.next(Reply::Position(config, position));
            let peeled = judged.next(Reply::Tokens(Ok((b_removed, d_removed))));
            let plan = position.planned(config);
            &&& start.awaits() == Some(Request::ReadPosition)
            &&& plan is Err ==> judged == UnwindState::Rebalanced(Err(plan->Err_0))
            &&& plan == Ok::<u32, StrategyError>(0) ==> judged == UnwindState::Rebalanced(Ok(()))
            &&& plan is Ok && plan->Ok_0 > 0 ==> {
                &&& judged.awaits() == Some(Request::SubmitDeleverage { loops: plan->Ok_0 })
                &&& judged.next(Reply::Tokens(Err(e))) == UnwindState::Rebalanced(Err(e))
                &&& peeled.awaits() == Some(Request::RecordDeleverage { b_removed, d_removed })
                &&& peeled.next(Reply::Settled(Err(e))) == UnwindState::Rebalanced(Err(e))
                &&& peeled.next(Reply::Settled(Ok(()))) == UnwindState::Rebalanced(Ok(()))
            }
        }),
{
}

/// The course of a partial unwinding: the caller authorizes it, the position is read, the
/// planned layers are peeled in the pool, what that removed is recorded, and the number of
/// layers is answered. It is over at once, with zero, where no layers are planned, and with the
/// error of whatever fails.
pub proof fn law_course_of_a_partial_unwinding(
    caller: Address,
    config: Config,
    position: PoolPosition,
    b_removed: i128,
    d_removed: i128,
    e: StrategyError,
)
    ensures
        ({
            let start = UnwindState::Authorizing { caller };
            let authorized = start.next(Reply::Done);
            let judged = authorized.next(Reply::Position(config, position));
            let peeled = judged.next(Reply::Tokens(Ok((b_removed, d_removed))));
            let plan = position.planned(config);
            &&& start.awaits() == Some(Request::Authorize(caller))
            &&& authorized.awaits() == Some(Request::ReadPosition)
            &&& plan is Err ==> judged == UnwindState::Unwound(Err(plan->Err_0))
            &&& plan == Ok::<u32, StrategyError>(0) ==> judged == UnwindState::Unwound(Ok(0))
            &&& plan is Ok && plan->Ok_0 > 0 ==> {
                &&& judged.awaits() == Some(Request::SubmitDeleverage { loops: plan->Ok_0 })
                &&& judged.next(Reply::Tokens(Err(e))) == UnwindState::Unwound(Err(e))
                &&& peeled.awaits() == Some(Request::RecordDeleverage { b_removed, d_removed })
                &&& peeled.next(Reply::Settled(Err(e))) == UnwindState::Unwound(Err(e))
                &&& peeled.next(Reply::Settled(Ok(()))) == UnwindState::Unwound(Ok(plan->Ok_0))
            }
        }),
{
}

/// A reply to something else than what the call waits for changes nothing, and a call that is
/// over waits for nothing.
pub proof fn law_unwinding_ignores_other_replies(state: UnwindState, reply: Reply)
    ensures
        !answers_any(state.awaits(), reply) ==> state.next(reply) == state,
        state.awaits() is None <==> state is Rebalanced || state is Unwound,
{
}

} // verus!
