//! The leverage loop.
//!
//! Round 0 supplies the deposit and borrows a fraction of it; each later round supplies what the
//! round before it borrowed. The final round only supplies.

use crate::constants::SCALAR_7;
use crate::fixed_point::{fits, trunc_div};
use vstd::prelude::*;

verus! {

/// The most rounds that supply and borrow.
pub const MAX_LOOPS: u32 = 20;

/// The fraction `c_factor` of a balance, rounded toward zero; zero where the product overflows.
pub open spec fn borrow_against(balance: int, c_factor: int) -> int {
    if fits(balance * c_factor) {
        trunc_div(balance * c_factor, SCALAR_7 as int)
    } else {
        0
    }
}

/// What round `i` of the loop supplies.
pub open spec fn supplied_in(initial: int, c_factor: int, i: nat) -> int
    decreases i,
{
    if i == 0 {
        initial
    } else {
        borrow_against(supplied_in(initial, c_factor, (i - 1) as nat), c_factor)
    }
}

/// The index of the final, supply-only round.
pub open spec fn final_round(n_loops: u32) -> nat {
    if n_loops < MAX_LOOPS {
        n_loops as nat
    } else {
        MAX_LOOPS as nat
    }
}

/// The supplies of all rounds.
pub open spec fn supplies(initial: int, c_factor: int, n_loops: u32) -> Seq<int> {
    Seq::new(final_round(n_loops) + 1, |i: int| supplied_in(initial, c_factor, i as nat))
}

/// The borrows of all rounds: each round borrows what the next one supplies, the final round
/// nothing.
pub open spec fn borrows(initial: int, c_factor: int, n_loops: u32) -> Seq<int> {
    Seq::new(
        final_round(n_loops) + 1,
        |i: int|
            if i == final_round(n_loops) {
                0
            } else {
                supplied_in(initial, c_factor, (i + 1) as nat)
            },
    )
}

/// The running sum of `terms` from which every term is dropped that would take it out of
/// `i128`.
pub open spec fn kept_sum(terms: Seq<int>) -> int
    decreases terms.len(),
{
    if terms.len() == 0 {
        0
    } else {
        let sum = kept_sum(terms.drop_last());
        if fits(sum + terms.last()) {
            sum + terms.last()
        } else {
            sum
        }
    }
}

/// The supply and the borrow of one round that starts with `balance`.
pub fn compute_step(balance: i128, c_factor: i128, is_final: bool) -> (r: (i128, i128))
    ensures
        r.0 == balance,
        r.1 == if is_final {
            0
        } else {
            borrow_against(balance as int, c_factor as int)
        },
{
    if is_final {
        (balance, 0)
    } else {
        let borrow: i128 = balance.checked_mul(c_factor).unwrap_or(0) / SCALAR_7;
        (balance, borrow)
    }
}

/// The number of rounds of a loop: those that borrow, at most twenty, and the final one.
pub fn loop_step_count(n_loops: u32) -> (r: u32)
    requires
        n_loops < u32::MAX,
    ensures
        r == final_round(n_loops) + 1,
{
    (n_loops + 1).min(MAX_LOOPS + 1)
}

/// The supply and the borrow of every round, and the number of rounds. Entries past the last
/// round are zero.
pub fn compute_loop_pairs(initial_amount: i128, c_factor: i128, n_loops: u32) -> (r: (
    [i128; 21],
    [i128; 21],
    u32,
))
    requires
        n_loops < u32::MAX,
    ensures
        r.2 == final_round(n_loops) + 1,
        forall|i: int|
            0 <= i < r.2 ==> #[trigger] r.0[i] == supplies(
                initial_amount as int,
                c_factor as int,
                n_loops,
            )[i],
        forall|i: int|
            0 <= i < r.2 ==> #[trigger] r.1[i] == borrows(
                initial_amount as int,
                c_factor as int,
                n_loops,
            )[i],
        forall|i: int| r.2 <= i < 21 ==> #[trigger] r.0[i] == 0,
        forall|i: int| r.2 <= i < 21 ==> #[trigger] r.1[i] == 0,
{
    let mut supply_of = [0i128; 21];
    let mut borrow_of = [0i128; 21];
    let count: u32 = loop_step_count(n_loops);
    let ghost sup = supplies(initial_amount as int, c_factor as int, n_loops);
    let ghost bor = borrows(initial_amount as int, c_factor as int, n_loops);

    let mut balance: i128 = initial_amount;
    let mut i: u32 = 0;
    while i < count
        invariant
            0 <= i <= count <= 21,
            count == final_round(n_loops) + 1,
            sup == supplies(initial_amount as int, c_factor as int, n_loops),
            bor == borrows(initial_amount as int, c_factor as int, n_loops),
            i < count ==> balance == supplied_in(initial_amount as int, c_factor as int, i as nat),
            forall|j: int| 0 <= j < i ==> #[trigger] supply_of[j] == sup[j],
            forall|j: int| 0 <= j < i ==> #[trigger] borrow_of[j] == bor[j],
            forall|j: int| i <= j < 21 ==> #[trigger] supply_of[j] == 0,
            forall|j: int| i <= j < 21 ==> #[trigger] borrow_of[j] == 0,
        decreases count - i,
    {
        let is_final = i == n_loops.min(MAX_LOOPS);
        let (s, b) = compute_step(balance, c_factor, is_final);
        supply_of[i as usize] = s;
        borrow_of[i as usize] = b;
        balance = b;
        i += 1;
    }
    (supply_of, borrow_of, count)
}

/// The total supply and the total borrow of the loop. An addend that would take a total out of
/// `i128` is left out of it.
pub fn compute_totals(initial_amount: i128, c_factor: i128, n_loops: u32) -> (r: (i128, i128))
    requires
        n_loops < u32::MAX,
    ensures
        r.0 == kept_sum(supplies(initial_amount as int, c_factor as int, n_loops)),
        r.1 == kept_sum(borrows(initial_amount as int, c_factor as int, n_loops)),
{
    let count: u32 = loop_step_count(n_loops);
    let mut total_supply: i128 = 0;
    let mut total_borrow: i128 = 0;
    let mut balance: i128 = initial_amount;
    let ghost sup = supplies(initial_amount as int, c_factor as int, n_loops);
    let ghost bor = borrows(initial_amount as int, c_factor as int, n_loops);

    let mut i: u32 = 0;
    while i < count
        invariant
            0 <= i <= count <= 21,
            count == final_round(n_loops) + 1,
            sup == supplies(initial_amount as int, c_factor as int, n_loops),
            bor == borrows(initial_amount as int, c_factor as int, n_loops),
            i < count ==> balance == supplied_in(initial_amount as int, c_factor as int, i as nat),
            total_supply == kept_sum(sup.take(i as int)),
            total_borrow == kept_sum(bor.take(i as int)),
        decreases count - i,
    {
        let is_final = i == n_loops.min(MAX_LOOPS);
        let (s, b) = compute_step(balance, c_factor, is_final);
        total_supply = total_supply.checked_add(s).unwrap_or(total_supply);
        total_borrow = total_borrow.checked_add(b).unwrap_or(total_borrow);
        balance = b;
        proof {
            assert(sup.take(i + 1).drop_last() =~= sup.take(i as int));
            assert(bor.take(i + 1).drop_last() =~= bor.take(i as int));
        }
        i += 1;
    }
    proof {
        assert(sup.take(count as int) =~= sup);
        assert(bor.take(count as int) =~= bor);
    }
    (total_supply, total_borrow)
}

} // verus!
