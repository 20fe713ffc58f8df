//! Laws of deposit safety.

use crate::constants::{MAX_SAFE_UTILIZATION, SCALAR_7};
use crate::error::StrategyError;
use crate::fixed_point::{fits, lemma_floor, trunc_div};
use crate::leverage::health::Position;
use crate::leverage::safety::{deposit_verdict, utilization_verdict};
use vstd::arithmetic::div_mod::lemma_div_is_ordered;
use vstd::prelude::*;

verus! {

/// Whether less than `MAX_SAFE_UTILIZATION` of what a pool was supplied with is lent out. A pool
/// without supply has nothing lent out.
pub open spec fn safely_used(supply: int, borrow: int) -> bool {
    supply > 0 ==> borrow * SCALAR_7 < MAX_SAFE_UTILIZATION * supply
}

/// A pool is passed exactly where it is safely used, and its use can be computed.
pub proof fn law_utilization(supply: int, borrow: int)
    ensures
        utilization_verdict(supply, borrow) is Ok <==> safely_used(supply, borrow) && (supply > 0
            ==> fits(borrow * SCALAR_7)),
        utilization_verdict(supply, borrow) == Err::<(), _>(StrategyError::ExternalError)
            <==> !safely_used(supply, borrow) && fits(borrow * SCALAR_7),
{
    if supply > 0 {
        let x = borrow * SCALAR_7;
        let u = trunc_div(x, supply);
        if x >= 0 {
            lemma_floor(x, supply);
            assert(u >= 9_500_000 <==> x >= 9_500_000 * supply) by (nonlinear_arith)
                requires
                    supply > 0,
                    u * supply <= x < (u + 1) * supply,
            ;
        } else {
            lemma_div_is_ordered(0, -x, supply);
            assert(0int / supply == 0) by (nonlinear_arith)
                requires
                    supply > 0,
            ;
        }
    }
}

/// A deposit is accepted exactly where the pool is safely used before it and after it, the
/// position it leads to is above the minimum health factor, and all of this can be computed.
pub proof fn law_accepted_deposit_is_safe(
    pool_supply: int,
    pool_borrow: int,
    additional_supply: int,
    additional_borrow: int,
    after: Position,
    min_hf: int,
)
    ensures
        deposit_verdict(
            pool_supply,
            pool_borrow,
            additional_supply,
            additional_borrow,
            after.health(),
            min_hf,
        ) is Ok <==> {
            let supply = pool_supply + additional_supply;
            let borrow = pool_borrow + additional_borrow;
            &&& safely_used(pool_supply, pool_borrow)
            &&& pool_supply > 0 ==> fits(pool_borrow * SCALAR_7)
            &&& fits(supply) && fits(borrow)
            &&& safely_used(supply, borrow)
            &&& supply > 0 ==> fits(borrow * SCALAR_7)
            &&& after.health() is Ok
            &&& after.health()->Ok_0 > min_hf
        },
{
    law_utilization(pool_supply, pool_borrow);
    law_utilization(pool_supply + additional_supply, pool_borrow + additional_borrow);
}

/// A deposit is refused as unsafe only where the pool is not safely used before it or after
/// it, or the position it leads to is not above the minimum health factor.
pub proof fn law_unsafe_refusal_has_a_cause(
    pool_supply: int,
    pool_borrow: int,
    additional_supply: int,
    additional_borrow: int,
    after: Position,
    min_hf: int,
)
    requires
        deposit_verdict(
            pool_supply,
            pool_borrow,
            additional_supply,
            additional_borrow,
            after.health(),
            min_hf,
        ) == Err::<(), _>(StrategyError::ExternalError),
    ensures
        ({
            ||| !safely_used(pool_supply, pool_borrow)
            ||| !safely_used(pool_supply + additional_supply, pool_borrow + additional_borrow)
            ||| after.health() is Ok && after.health()->Ok_0 <= min_hf
        }),
{
    law_utilization(pool_supply, pool_borrow);
    law_utilization(pool_supply + additional_supply, pool_borrow + additional_borrow);
}

/// Each refusal of a deposit has its own causes, and what the pool is used for now is objected
/// to before the sums that the deposit leads to, these before the use after it, and that before
/// the health of the position.
pub proof fn law_refusals_of_a_deposit(
    pool_supply: int,
    pool_borrow: int,
    additional_supply: int,
    additional_borrow: int,
    after: Position,
    min_hf: int,
)
    ensures
        ({
            let verdict = deposit_verdict(
                pool_supply,
                pool_borrow,
                additional_supply,
                additional_borrow,
                after.health(),
                min_hf,
            );
            let supply = pool_supply + additional_supply;
            let borrow = pool_borrow + additional_borrow;
            let known_now = pool_supply <= 0 || fits(pool_borrow * SCALAR_7);
            let known_then = supply <= 0 || fits(borrow * SCALAR_7);
            let safe_now = known_now && safely_used(pool_supply, pool_borrow);
            let summed = safe_now && fits(supply) && fits(borrow);
            let safe_then = summed && known_then && safely_used(supply, borrow);
            &&& verdict == Err::<(), _>(StrategyError::ExternalError) <==> {
                ||| known_now && !safely_used(pool_supply, pool_borrow)
                ||| summed && known_then && !safely_used(supply, borrow)
                ||| safe_then && after.health() is Ok && after.health()->Ok_0 <= min_hf
            }
            &&& verdict == Err::<(), _>(StrategyError::UnderflowOverflow) <==> safe_now && !(fits(
                supply,
            ) && fits(borrow))
            &&& verdict == Err::<(), _>(StrategyError::DivisionByZero) <==> safe_then
                && after.health() == Err::<int, _>(StrategyError::DivisionByZero)
            &&& verdict == Err::<(), _>(StrategyError::ArithmeticError) <==> {
                ||| !known_now
                ||| summed && !known_then
                ||| safe_then && after.health() == Err::<int, _>(StrategyError::ArithmeticError)
            }
        }),
{
    law_utilization(pool_supply, pool_borrow);
    law_utilization(pool_supply + additional_supply, pool_borrow + additional_borrow);
}

} // verus!
