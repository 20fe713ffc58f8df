//! Which reply belongs to which request.

use crate::strategy::requests::{Reply, Request};
use vstd::prelude::*;

verus! {

/// Whether a reply is of the kind that answers a request.
pub open spec fn answers(request: Request, reply: Reply) -> bool {
    match request {
        Request::Authorize(_) => reply is Done,
        Request::ReadKeeper => reply is Keeper,
        Request::ReadMarket => reply is Market,
        Request::ReadReserves => reply is Reserves,
        Request::ReadShares(_) => reply is Shares,
        Request::ReadPosition => reply is Position,
        Request::Transfer { .. } => reply is Done,
        Request::SubmitLoop { .. } => reply is Tokens,
        Request::MintShares { .. } => reply is Minted,
        Request::Claim => reply is Claimed,
        Request::Reinvest { .. } => reply is Tokens,
        Request::RecordHarvest { .. } => reply is Recorded,
        Request::BurnShares { .. } => reply is Burned,
        Request::SubmitUnwind { .. } => reply is Settled,
        Request::SubmitDeleverage { .. } => reply is Tokens,
        Request::RecordDeleverage { .. } => reply is Settled,
        Request::StoreKeeper(_) => reply is Done,
        Request::AnnounceDeposit { .. } => reply is Done,
        Request::AnnounceHarvest { .. } => reply is Done,
        Request::AnnounceWithdraw { .. } => reply is Done,
    }
}

/// Whether a reply answers what is asked for, if anything is.
pub open spec fn answers_any(request: Option<Request>, reply: Reply) -> bool {
    request is Some && answers(request->0, reply)
}

} // verus!
