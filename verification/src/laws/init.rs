//! Laws of creating the strategy.

use crate::strategy::init::{first_objection, objection_at, InitArg, InitError};
use vstd::prelude::*;

verus! {

/// Nine arguments are needed: three addresses, an amount, an address, an amount, a count and
/// two amounts, in this order. One that is not there is missing, one of another type is of the
/// wrong type.
pub proof fn law_arguments_in_order(args: Seq<InitArg>, i: int)
    requires
        0 <= i < 9,
    ensures
        i >= args.len() ==> objection_at(args, i) == Some(InitError::Missing(i as usize)),
        i < args.len() ==> objection_at(args, i) == {
            let right = match args[i] {
                InitArg::Address(_) => i <= 2 || i == 4,
                InitArg::I128(_) => i == 3 || i == 5 || i >= 7,
                InitArg::U32(_) => i == 6,
                InitArg::Other => false,
            };
            if right {
                None
            } else {
                Some(InitError::WrongType(i as usize))
            }
        },
{
}

/// The objection that is made is the one to the first argument to which there is one, among the
/// nine.
pub proof fn law_first_objection_is_made(args: Seq<InitArg>, i: int, e: InitError)
    requires
        0 <= i < 9,
        objection_at(args, i) is Some,
        forall|j: int| 0 <= j < i ==> #[trigger] objection_at(args, j) is None,
    ensures
        first_objection(args, e) <==> objection_at(args, i) == Some(e),
{
    if first_objection(args, e) {
        let k = choose|k: int|
            0 <= k < 9 && #[trigger] objection_at(args, k) == Some(e) && forall|j: int|
                0 <= j < k ==> #[trigger] objection_at(args, j) is None;
        if k < i {
            assert(objection_at(args, k) is None);
        }
        if i < k {
            assert(objection_at(args, i) is None);
        }
    }
}

} // verus!
