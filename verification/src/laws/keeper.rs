//! Laws of the change of keeper.

use crate::laws::exchange::answers_any;
use crate::strategy::keeper::KeeperState;
use crate::strategy::requests::{Reply, Request};
use crate::types::Address;
use vstd::prelude::*;

verus! {

/// The course of a change of keeper: the keeper is read and authorizes it, and the new keeper
/// is stored.
pub proof fn law_course_of_a_change_of_keeper(new_keeper: Address, old_keeper: Address)
    ensures
        ({
            let start = KeeperState::Identifying { new_keeper };
            let read = start.next(Reply::Keeper(old_keeper));
            let authorized = read.next(Reply::Done);
            &&& start.awaits() == Some(Request::ReadKeeper)
            &&& read.awaits() == Some(Request::Authorize(old_keeper))
            &&& authorized.awaits() == Some(Request::StoreKeeper(new_keeper))
            &&& authorized.next(Reply::Done) == KeeperState::Finished(Ok(()))
        }),
{
}

/// A reply to something else than what the change waits for changes nothing, and a change that
/// is over waits for nothing.
pub proof fn law_change_of_keeper_ignores_other_replies(state: KeeperState, reply: Reply)
    ensures
        !answers_any(state.awaits(), reply) ==> state.next(reply) == state,
        state.awaits() is None <==> state is Finished,
{
}

} // verus!
