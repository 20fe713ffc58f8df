//! The keeper.

use crate::error::StrategyError;
use crate::strategy::requests::{Reply, Request};
use crate::strategy::BlendLeverageStrategy;
use crate::types::Address;
use vstd::prelude::*;

verus! {

/// How far a change of keeper has come.
#[derive(Debug, PartialEq, Eq)]
pub enum KeeperState {
    /// The current keeper has to be read.
    Identifying { new_keeper: Address },
    /// The current keeper has to authorize the change.
    Authorizing { new_keeper: Address, old_keeper: Address },
    /// The new keeper has to be stored.
    Storing { new_keeper: Address },
    /// The call is over.
    Finished(Result<(), StrategyError>),
}

impl BlendLeverageStrategy {
    /// Starts a change of keeper, which only the current keeper may authorize.
    pub fn set_keeper(new_keeper: Address) -> (r: KeeperState)
        ensures
            r == (KeeperState::Identifying { new_keeper }),
    {
        KeeperState::Identifying { new_keeper }
    }

    /// Answers the stored keeper.
    pub fn get_keeper(keeper: Address) -> (r: Result<Address, StrategyError>)
        ensures
            r == Ok::<Address, StrategyError>(keeper),
    {
        Ok(keeper)
    }
}

impl KeeperState {
    /// What the change waits for.
    pub open spec fn awaits(self) -> Option<Request> {
        match self {
            KeeperState::Identifying { new_keeper } => Some(Request::ReadKeeper),
            KeeperState::Authorizing { new_keeper, old_keeper } => Some(
                Request::Authorize(old_keeper),
            ),
            KeeperState::Storing { new_keeper } => Some(Request::StoreKeeper(new_keeper)),
            KeeperState::Finished(_) => None,
        }
    }

    /// The state after a reply. One that is no reply to what the change waits for changes
    /// nothing.
    pub open spec fn next(self, reply: Reply) -> KeeperState {
        match (self, reply) {
            (
                KeeperState::Identifying { new_keeper },
                Reply::Keeper(old_keeper),
            ) => KeeperState::Authorizing { new_keeper, old_keeper },
            (
                KeeperState::Authorizing { new_keeper, old_keeper },
                Reply::Done,
            ) => KeeperState::Storing { new_keeper },
            (KeeperState::Storing { new_keeper }, Reply::Done) => KeeperState::Finished(Ok(())),
            _ => self,
        }
    }

    /// What the change waits for; nothing once it is over.
    pub fn request(&self) -> (r: Option<Request>)
        ensures
            r == self.awaits(),
    {
        match self {
            KeeperState::Identifying { new_keeper } => Some(Request::ReadKeeper),
            KeeperState::Authorizing { new_keeper, old_keeper } => Some(
                Request::Authorize(*old_keeper),
            ),
            KeeperState::Storing { new_keeper } => Some(Request::StoreKeeper(*new_keeper)),
            KeeperState::Finished(_) => None,
        }
    }

    /// Goes on with the reply to what the change waits for.
    pub fn step(self, reply: Reply) -> (r: KeeperState)
        ensures
            r == self.next(reply),
    {
        match (self, reply) {
            (
                KeeperState::Identifying { new_keeper },
                Reply::Keeper(old_keeper),
            ) => KeeperState::Authorizing { new_keeper, old_keeper },
            (
                KeeperState::Authorizing { new_keeper, old_keeper },
                Reply::Done,
            ) => KeeperState::Storing { new_keeper },
            (KeeperState::Storing { new_keeper }, Reply::Done) => KeeperState::Finished(Ok(())),
            (state, _) => state,
        }
    }
}

// What holds of every change of keeper, whatever is replied to it.

impl KeeperState {
    /// The state after a series of replies.
    pub open spec fn run(self, replies: Seq<Reply>) -> KeeperState
        decreases replies.len(),
    {
        if replies.len() == 0 {
            self
        } else {
            self.run(replies.drop_last()).next(replies.last())
        }
    }

    /// Whether the reply at `i` is the one to `request`.
    pub open spec fn asked(self, request: Request, replies: Seq<Reply>, i: int) -> bool {
        &&& 0 <= i < replies.len()
        &&& self.run(replies.take(i)).awaits() == Some(request)
    }
}

/// Whether `keeper` was read as the keeper, at `i`.
pub open spec fn keeper_read_at(
    start: KeeperState,
    keeper: Address,
    replies: Seq<Reply>,
    i: int,
) -> bool {
    &&& start.asked(Request::ReadKeeper, replies, i)
    &&& replies[i] == Reply::Keeper(keeper)
}

/// Whether the authorization of `keeper` was asked for and given, at `i`.
pub open spec fn authorized_at(
    start: KeeperState,
    keeper: Address,
    replies: Seq<Reply>,
    i: int,
) -> bool {
    &&& start.asked(Request::Authorize(keeper), replies, i)
    &&& replies[i] == Reply::Done
}

/// The keeper whose authorization is asked for is the one that was read.
proof fn lemma_authorizing_is_identified(new_keeper: Address, replies: Seq<Reply>) -> (i: int)
    requires
        (KeeperState::Identifying { new_keeper }).run(replies) is Authorizing,
    ensures
        ({
            let start = KeeperState::Identifying { new_keeper };
            keeper_read_at(start, start.run(replies)->old_keeper, replies, i)
        }),
    decreases replies.len(),
{
    let start = KeeperState::Identifying { new_keeper };
    assert(replies.len() > 0);
    let before = replies.drop_last();
    let last = replies.len() - 1;
    if start.run(before) is Authorizing {
        let i = lemma_authorizing_is_identified(new_keeper, before);
        assert(replies.take(i) =~= before.take(i));
        i
    } else {
        assert(replies.take(last) =~= before);
        last
    }
}

/// A new keeper is stored only after the current keeper has authorized the change, and what is
/// stored is the keeper that was asked for.
pub proof fn law_keeper_changes_by_consent(new_keeper: Address, replies: Seq<Reply>)
    requires
        (KeeperState::Identifying { new_keeper }).run(replies) is Storing || (
        KeeperState::Identifying { new_keeper }).run(replies) is Finished,
    ensures
        ({
            let start = KeeperState::Identifying { new_keeper };
            &&& start.run(replies) is Storing ==> start.run(replies).awaits() == Some(
                Request::StoreKeeper(new_keeper),
            )
            &&& exists|old: Address, i: int, j: int| #[trigger]
                keeper_read_at(start, old, replies, i) && #[trigger] authorized_at(
                    start,
                    old,
                    replies,
                    j,
                )
        }),
    decreases replies.len(),
{
    let start = KeeperState::Identifying { new_keeper };
    assert(replies.len() > 0);
    let before = replies.drop_last();
    let last = replies.len() - 1;
    lemma_keeps_new_keeper(new_keeper, replies);
    if start.run(before) is Authorizing {
        let i = lemma_authorizing_is_identified(new_keeper, before);
        let old = start.run(before)->old_keeper;
        assert(replies.take(i) =~= before.take(i));
        assert(replies.take(last) =~= before);
        assert(keeper_read_at(start, old, replies, i));
        assert(authorized_at(start, old, replies, last));
    } else {
        law_keeper_changes_by_consent(new_keeper, before);
        let (old, i, j) = choose|old: Address, i: int, j: int| #[trigger]
            keeper_read_at(start, old, before, i) && #[trigger] authorized_at(
                start,
                old,
                before,
                j,
            );
        assert(replies.take(i) =~= before.take(i));
        assert(replies.take(j) =~= before.take(j));
        assert(keeper_read_at(start, old, replies, i));
        assert(authorized_at(start, old, replies, j));
    }
}

/// The keeper that was asked for stays the same.
proof fn lemma_keeps_new_keeper(new_keeper: Address, replies: Seq<Reply>)
    ensures
        match (KeeperState::Identifying { new_keeper }).run(replies) {
            KeeperState::Identifying { new_keeper: k } => k == new_keeper,
            KeeperState::Authorizing { new_keeper: k, old_keeper } => k == new_keeper,
            KeeperState::Storing { new_keeper: k } => k == new_keeper,
            KeeperState::Finished(r) => r is Ok,
        },
    decreases replies.len(),
{
    if replies.len() > 0 {
        lemma_keeps_new_keeper(new_keeper, replies.drop_last());
    }
}

} // verus!
