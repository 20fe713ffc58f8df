//! Laws of the calls that only look.

use crate::laws::equity::law_value_fits;
use crate::laws::exchange::answers_any;
use crate::leverage::equity::shares_value;
use crate::strategy::queries::BalanceState;
use crate::strategy::requests::{Reply, Request};
use crate::types::{Address, LeverageReserves};
use vstd::prelude::*;

verus! {

/// The course of a look at a balance: the holder's shares are read, then the reserves, and what
/// the shares are worth is answered. A holder without shares is answered zero at once.
pub proof fn law_course_of_a_look_at_a_balance(
    from: Address,
    shares: i128,
    reserves: LeverageReserves,
)
    ensures
        ({
            let start = BalanceState::Counting { from };
            let counted = start.next(Reply::Shares(shares));
            let end = counted.next(Reply::Reserves(reserves));
            let balance = shares_value(shares as int, reserves);
            &&& start.awaits() == Some(Request::ReadShares(from))
            &&& shares <= 0 ==> counted == BalanceState::Finished(Ok(0))
            &&& shares > 0 ==> {
                &&& counted.awaits() == Some(Request::ReadReserves)
                &&& end is Finished
                &&& balance is Err ==> end == BalanceState::Finished(Err(balance->Err_0))
                &&& balance is Ok ==> end->Finished_0 is Ok && end->Finished_0->Ok_0
                    == balance->Ok_0
            }
        }),
{
    law_value_fits(shares as int, reserves);
}

/// A reply to something else than what the look waits for changes nothing, and a look that is
/// over waits for nothing.
pub proof fn law_look_at_a_balance_ignores_other_replies(state: BalanceState, reply: Reply)
    ensures
        !answers_any(state.awaits(), reply) ==> state.next(reply) == state,
        state.awaits() is None <==> state is Finished,
{
}

} // verus!
