//! Harvesting emissions.

use crate::constants::SCALAR_12;
use crate::error::StrategyError;
use crate::fixed_point::fits;
use crate::leverage::equity::{shares_to_underlying, shares_value};
use crate::strategy::requests::{Reply, Request};
use crate::strategy::BlendLeverageStrategy;
use crate::types::{Address, LeverageReserves};
use vstd::prelude::*;

verus! {

/// The number of bytes of an encoded least swap output.
pub const AMOUNT_BYTES: usize = 16;

/// The number that bytes write in base 256, the most significant first.
pub open spec fn be_value(bytes: Seq<u8>) -> int
    decreases bytes.len(),
{
    if bytes.len() == 0 {
        0
    } else {
        be_value(bytes.drop_last()) * 256 + bytes.last()
    }
}

/// The number that 128 bits stand for in two's complement.
pub open spec fn twos_complement(x: int) -> int {
    if x <= i128::MAX {
        x
    } else {
        x - u128::MAX - 1
    }
}

/// The least swap output that harvest data ask for: none where there are no data, else the
/// big-endian two's complement number.
pub open spec fn min_out(data: Option<Seq<u8>>) -> int {
    match data {
        None => 0,
        Some(bytes) => if bytes.len() == 0 {
            0
        } else {
            twos_complement(be_value(bytes))
        },
    }
}

/// The bytes of harvest data.
pub open spec fn bytes_of(data: Option<Vec<u8>>) -> Option<Seq<u8>> {
    match data {
        None => None,
        Some(bytes) => Some(bytes@),
    }
}

/// Whether harvest data are absent, empty or a whole number.
pub open spec fn well_sized(data: Option<Seq<u8>>) -> bool {
    match data {
        None => true,
        Some(bytes) => bytes.len() == 0 || bytes.len() == AMOUNT_BYTES,
    }
}

/// Bytes write less than 256 to the power of their number; sixteen fill 128 bits.
proof fn lemma_be_value_bound(bytes: Seq<u8>)
    requires
        bytes.len() <= AMOUNT_BYTES,
    ensures
        0 <= be_value(bytes) <= u128::MAX,
        bytes.len() < AMOUNT_BYTES ==> be_value(bytes) * 256 + 255 <= u128::MAX,
{
    reveal_with_fuel(be_value, 17);
}

/// Data of a right size ask for something representable.
pub proof fn law_min_out_fits(data: Option<Seq<u8>>)
    requires
        well_sized(data),
    ensures
        fits(min_out(data)),
{
    if data is Some {
        lemma_be_value_bound(data->0);
    }
}

/// The least swap output that harvest data ask for.
pub fn parse_min_out(data: &Option<Vec<u8>>) -> (r: i128)
    requires
        well_sized(bytes_of(*data)),
    ensures
        r == min_out(bytes_of(*data)),
{
    match data {
        None => 0,
        Some(bytes) => {
            if bytes.len() == 0 {
                return 0;
            }
            let mut value: u128 = 0;
            let mut i: usize = 0;
            while i < bytes.len()
                invariant
                    0 <= i <= bytes.len() == AMOUNT_BYTES,
                    value == be_value(bytes@.take(i as int)),
                decreases bytes.len() - i,
            {
                proof {
                    lemma_be_value_bound(bytes@.take(i as int));
                    assert(bytes@.take(i + 1).drop_last() =~= bytes@.take(i as int));
                }
                value = value * 256 + bytes[i] as u128;
                i += 1;
            }
            assert(bytes@.take(i as int) =~= bytes@);
            if value <= i128::MAX as u128 {
                value as i128
            } else {
                -((u128::MAX - value) as i128) - 1
            }
        },
    }
}

/// How far a harvest has come.
#[derive(Debug, PartialEq, Eq)]
pub enum HarvestState {
    /// The keeper has to be read.
    Identifying { from: Address, data: Option<Vec<u8>> },
    /// The keeper has to authorize the call.
    Authorizing { from: Address, keeper: Address, data: Option<Vec<u8>> },
    /// The emissions have to be claimed.
    Claiming { keeper: Address, data: Option<Vec<u8>> },
    /// The emissions have to be swapped and levered.
    Reinvesting { keeper: Address, claimed: i128, amount_out_min: i128 },
    /// What that added has to be recorded.
    Recording { keeper: Address, claimed: i128, b_delta: i128, d_delta: i128 },
    /// The harvest has to be published.
    Announcing { keeper: Address, claimed: i128, price_per_share: i128 },
    /// The call is over.
    Finished(Result<(), StrategyError>),
}

impl BlendLeverageStrategy {
    /// Starts a harvest by `from`, which only the keeper may make. The data may hold the least
    /// swap output.
    pub fn harvest(from: Address, data: Option<Vec<u8>>) -> (r: HarvestState)
        ensures
            r == (HarvestState::Identifying { from, data }),
    {
        HarvestState::Identifying { from, data }
    }
}

impl HarvestState {
    /// What the harvest waits for.
    pub open spec fn awaits(self) -> Option<Request> {
        match self {
            HarvestState::Identifying { from, data } => Some(Request::ReadKeeper),
            HarvestState::Authorizing { from, keeper, data } => Some(Request::Authorize(keeper)),
            HarvestState::Claiming { keeper, data } => Some(Request::Claim),
            HarvestState::Reinvesting { keeper, claimed, amount_out_min } => Some(
                Request::Reinvest { amount_out_min },
            ),
            HarvestState::Recording { keeper, claimed, b_delta, d_delta } => Some(
                Request::RecordHarvest { b_delta, d_delta },
            ),
            HarvestState::Announcing { keeper, claimed, price_per_share } => Some(
                Request::AnnounceHarvest { amount: claimed, keeper, price_per_share },
            ),
            HarvestState::Finished(_) => None,
        }
    }

    /// The state after a reply. One that is no reply to what the harvest waits for changes
    /// nothing.
    pub open spec fn next(self, reply: Reply) -> HarvestState {
        match (self, reply) {
            (
                HarvestState::Identifying { from, data },
                Reply::Keeper(keeper),
            ) => HarvestState::Authorizing { from, keeper, data },
            (HarvestState::Authorizing { from, keeper, data }, Reply::Done) => if from == keeper {
                HarvestState::Claiming { keeper, data }
            } else {
                HarvestState::Finished(Err(StrategyError::NotAuthorized))
            },
            (
                HarvestState::Claiming { keeper, data },
                Reply::Claimed(claimed),
            ) => HarvestState::Reinvesting {
                keeper,
                claimed,
                amount_out_min: min_out(bytes_of(data)) as i128,
            },
            (
                HarvestState::Reinvesting { keeper, claimed, amount_out_min },
                Reply::Tokens(moved),
            ) => match moved {
                Err(e) => HarvestState::Finished(Err(e)),
                Ok((b_delta, d_delta)) => if b_delta > 0 {
                    HarvestState::Recording { keeper, claimed, b_delta, d_delta }
                } else {
                    HarvestState::Finished(Ok(()))
                },
            },
            (
                HarvestState::Recording { keeper, claimed, b_delta, d_delta },
                Reply::Recorded(recorded),
            ) => match recorded {
                Err(e) => HarvestState::Finished(Err(e)),
                Ok(updated) => match shares_value(SCALAR_12 as int, updated) {
                    Err(e) => HarvestState::Finished(Err(e)),
                    Ok(price) => HarvestState::Announcing {
                        keeper,
                        claimed,
                        price_per_share: price as i128,
                    },
                },
            },
            (
                HarvestState::Announcing { keeper, claimed, price_per_share },
                Reply::Done,
            ) => HarvestState::Finished(Ok(())),
            _ => self,
        }
    }

    /// Whether the data are well sized by the time that they are read.
    pub open spec fn accepts(self, reply: Reply) -> bool {
        match (self, reply) {
            (HarvestState::Claiming { keeper, data }, Reply::Claimed(_)) => well_sized(
                bytes_of(data),
            ),
            _ => true,
        }
    }

    /// What the harvest waits for; nothing once it is over.
    pub fn request(&self) -> (r: Option<Request>)
        ensures
            r == self.awaits(),
    {
        match self {
            HarvestState::Identifying { from, data } => Some(Request::ReadKeeper),
            HarvestState::Authorizing { from, keeper, data } => Some(Request::Authorize(*keeper)),
            HarvestState::Claiming { keeper, data } => Some(Request::Claim),
            HarvestState::Reinvesting { keeper, claimed, amount_out_min } => Some(
                Request::Reinvest { amount_out_min: *amount_out_min },
            ),
            HarvestState::Recording { keeper, claimed, b_delta, d_delta } => Some(
                Request::RecordHarvest { b_delta: *b_delta, d_delta: *d_delta },
            ),
            HarvestState::Announcing { keeper, claimed, price_per_share } => Some(
                Request::AnnounceHarvest {
                    amount: *claimed,
                    keeper: *keeper,
                    price_per_share: *price_per_share,
                },
            ),
            HarvestState::Finished(_) => None,
        }
    }

    /// Goes on with the reply to what the harvest waits for.
    pub fn step(self, reply: Reply) -> (r: HarvestState)
        requires
            self.accepts(reply),
        ensures
            r == self.next(reply),
    {
        match (self, reply) {
            (
                HarvestState::Identifying { from, data },
                Reply::Keeper(keeper),
            ) => HarvestState::Authorizing { from, keeper, data },
            (HarvestState::Authorizing { from, keeper, data }, Reply::Done) => if from.same_as(
                &keeper,
            ) {
                HarvestState::Claiming { keeper, data }
            } else {
                HarvestState::Finished(Err(StrategyError::NotAuthorized))
            },
            (
                HarvestState::Claiming { keeper, data },
                Reply::Claimed(claimed),
            ) => HarvestState::Reinvesting {
                keeper,
                claimed,
                amount_out_min: parse_min_out(&data),
            },
            (
                HarvestState::Reinvesting { keeper, claimed, amount_out_min },
                Reply::Tokens(moved),
            ) => match moved {
                Err(e) => HarvestState::Finished(Err(e)),
                Ok((b_delta, d_delta)) => if b_delta > 0 {
                    HarvestState::Recording { keeper, claimed, b_delta, d_delta }
                } else {
                    HarvestState::Finished(Ok(()))
                },
            },
            (
                HarvestState::Recording { keeper, claimed, b_delta, d_delta },
                Reply::Recorded(recorded),
            ) => match recorded {
                Err(e) => HarvestState::Finished(Err(e)),
                Ok(updated) => match shares_to_underlying(SCALAR_12, &updated) {
                    Err(e) => HarvestState::Finished(Err(e)),
                    Ok(price) => HarvestState::Announcing {
                        keeper,
                        claimed,
                        price_per_share: price,
                    },
                },
            },
            (
                HarvestState::Announcing { keeper, claimed, price_per_share },
                Reply::Done,
            ) => HarvestState::Finished(Ok(())),
            (state, _) => state,
        }
    }
}

// What holds of every harvest, whatever is replied to it.

impl HarvestState {
    /// The state after a series of replies.
    pub open spec fn run(self, replies: Seq<Reply>) -> HarvestState
        decreases replies.len(),
    {
        if replies.len() == 0 {
            self
        } else {
            self.run(replies.drop_last()).next(replies.last())
        }
    }

    /// Whether the reply at `i` is the one to `request`.
    pub open spec fn asked(self, request: Request, replies: Seq<Reply>, i: int) -> bool {
        &&& 0 <= i < replies.len()
        &&& self.run(replies.take(i)).awaits() == Some(request)
    }

    /// Whether the harvest is let through: it has come to claiming, or is past it.
    pub open spec fn is_let_through(self) -> bool {
        match self {
            HarvestState::Identifying { .. } => false,
            HarvestState::Authorizing { .. } => false,
            HarvestState::Finished(r) => r is Ok,
            _ => true,
        }
    }

    /// Whether the state is one of a harvest by `caller` with `the_data`.
    pub open spec fn is_of(self, caller: Address, the_data: Option<Vec<u8>>) -> bool {
        match self {
            HarvestState::Identifying { from, data } => from == caller && data == the_data,
            HarvestState::Authorizing { from, keeper, data } => from == caller && data == the_data,
            HarvestState::Claiming { keeper, data } => keeper == caller && data == the_data,
            HarvestState::Reinvesting { keeper, claimed, amount_out_min } => keeper == caller
                && amount_out_min == min_out(bytes_of(the_data)) as i128,
            HarvestState::Recording { keeper, claimed, b_delta, d_delta } => keeper == caller
                && b_delta > 0,
            HarvestState::Announcing { keeper, claimed, price_per_share } => keeper == caller,
            HarvestState::Finished(_) => true,
        }
    }
}

/// Whether `keeper` was read as the keeper, at `i`.
pub open spec fn keeper_read_at(
    start: HarvestState,
    keeper: Address,
    replies: Seq<Reply>,
    i: int,
) -> bool {
    &&& start.asked(Request::ReadKeeper, replies, i)
    &&& replies[i] == Reply::Keeper(keeper)
}

/// Whether the authorization of `keeper` was asked for and given, at `i`.
pub open spec fn authorized_at(
    start: HarvestState,
    keeper: Address,
    replies: Seq<Reply>,
    i: int,
) -> bool {
    &&& start.asked(Request::Authorize(keeper), replies, i)
    &&& replies[i] == Reply::Done
}

/// A harvest never changes its caller or its data: it publishes the caller as the keeper, swaps
/// for at least what the data ask for, and records only what added to the supply.
pub proof fn law_harvest_keeps_terms(from: Address, data: Option<Vec<u8>>, replies: Seq<Reply>)
    ensures
        (HarvestState::Identifying { from, data }).run(replies).is_of(from, data),
    decreases replies.len(),
{
    if replies.len() > 0 {
        law_harvest_keeps_terms(from, data, replies.drop_last());
    }
}

/// The authorization that is asked for is that of the keeper that was read.
proof fn lemma_authorizing_is_identified(
    from: Address,
    data: Option<Vec<u8>>,
    replies: Seq<Reply>,
) -> (i: int)
    requires
        (HarvestState::Identifying { from, data }).run(replies) is Authorizing,
    ensures
        ({
            let start = HarvestState::Identifying { from, data };
            keeper_read_at(start, start.run(replies)->Authorizing_keeper, replies, i)
        }),
    decreases replies.len(),
{
    let start = HarvestState::Identifying { from, data };
    assert(replies.len() > 0);
    let before = replies.drop_last();
    let last = replies.len() - 1;
    if start.run(before) is Authorizing {
        let i = lemma_authorizing_is_identified(from, data, before);
        assert(replies.take(i) =~= before.take(i));
        i
    } else {
        assert(replies.take(last) =~= before);
        last
    }
}

/// Nothing is claimed, swapped, levered or recorded unless the caller is the keeper and the
/// keeper has authorized the call.
pub proof fn law_only_the_keeper_harvests(
    from: Address,
    data: Option<Vec<u8>>,
    replies: Seq<Reply>,
)
    requires
        (HarvestState::Identifying { from, data }).run(replies).is_let_through(),
    ensures
        exists|i: int, j: int| #[trigger]
            keeper_read_at(HarvestState::Identifying { from, data }, from, replies, i)
                && #[trigger] authorized_at(
                HarvestState::Identifying { from, data },
                from,
                replies,
                j,
            ),
    decreases replies.len(),
{
    let start = HarvestState::Identifying { from, data };
    assert(replies.len() > 0);
    let before = replies.drop_last();
    let last = replies.len() - 1;
    if start.run(before).is_let_through() {
        law_only_the_keeper_harvests(from, data, before);
        let (i, j) = choose|i: int, j: int| #[trigger]
            keeper_read_at(start, from, before, i) && #[trigger] authorized_at(
                start,
                from,
                before,
                j,
            );
        assert(replies.take(i) =~= before.take(i));
        assert(replies.take(j) =~= before.take(j));
        assert(keeper_read_at(start, from, replies, i));
        assert(authorized_at(start, from, replies, j));
    } else {
        law_harvest_keeps_terms(from, data, before);
        let i = lemma_authorizing_is_identified(from, data, before);
        assert(replies.take(i) =~= before.take(i));
        assert(replies.take(last) =~= before);
        assert(keeper_read_at(start, from, replies, i));
        assert(authorized_at(start, from, replies, last));
    }
}

/// A caller other than the keeper is refused, whatever the keeper authorizes.
pub proof fn law_others_are_not_authorized(
    from: Address,
    keeper: Address,
    data: Option<Vec<u8>>,
)
    requires
        from != keeper,
    ensures
        (HarvestState::Identifying { from, data }).next(Reply::Keeper(keeper)).next(Reply::Done)
            == HarvestState::Finished(Err(StrategyError::NotAuthorized)),
{
}

/// A harvest never asks for shares to be minted or burned.
pub proof fn law_harvest_mints_nothing(state: HarvestState)
    ensures
        !(state.awaits() is Some && state.awaits()->0 is MintShares),
        !(state.awaits() is Some && state.awaits()->0 is BurnShares),
{
}

/// A harvest by the keeper, with data of a right size, that adds to the supply succeeds, and
/// publishes the worth of one share in twelve decimals, where that can be computed.
pub proof fn law_good_harvest_succeeds(
    keeper: Address,
    data: Option<Vec<u8>>,
    claimed: i128,
    b_delta: i128,
    d_delta: i128,
    updated: LeverageReserves,
)
    requires
        well_sized(bytes_of(data)),
        b_delta > 0,
        shares_value(SCALAR_12 as int, updated) is Ok,
    ensures
        ({
            let published = (HarvestState::Identifying { from: keeper, data }).next(
                Reply::Keeper(keeper),
            ).next(Reply::Done).next(Reply::Claimed(claimed)).next(
                Reply::Tokens(Ok((b_delta, d_delta))),
            ).next(Reply::Recorded(Ok(updated)));
            &&& published.awaits() == Some(
                Request::AnnounceHarvest {
                    amount: claimed,
                    keeper,
                    price_per_share: shares_value(SCALAR_12 as int, updated)->Ok_0 as i128,
                },
            )
            &&& published.next(Reply::Done) == HarvestState::Finished(Ok(()))
        }),
{
}

} // verus!
