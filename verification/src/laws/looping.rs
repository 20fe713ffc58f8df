//! Laws of the leverage loop.

use crate::constants::SCALAR_7;
use crate::fixed_point::fits;
use crate::laws::rounding::{law_rounding_toward_zero, rounds_toward_zero};
use crate::leverage::looping::{
    borrow_against, borrows, final_round, kept_sum, supplied_in, supplies, MAX_LOOPS,
};
use vstd::arithmetic::power::{lemma_pow0, lemma_pow_positive, pow};
use vstd::prelude::*;

verus! {

/// The sum of all terms.
pub open spec fn sum(terms: Seq<int>) -> int
    decreases terms.len(),
{
    if terms.len() == 0 {
        0
    } else {
        sum(terms.drop_last()) + terms.last()
    }
}

/// The sum of the terms that `kept_sum` drops.
pub open spec fn dropped_sum(terms: Seq<int>) -> int
    decreases terms.len(),
{
    if terms.len() == 0 {
        0
    } else {
        let rest = terms.drop_last();
        dropped_sum(rest) + if fits(kept_sum(rest) + terms.last()) {
            0
        } else {
            terms.last()
        }
    }
}

/// A total falls short of the sum of its terms by the terms dropped from it, and by nothing
/// else. So the totals of a loop are the sums of its rounds where nothing overflows.
pub proof fn law_total_is_sum_less_dropped(terms: Seq<int>)
    ensures
        kept_sum(terms) == sum(terms) - dropped_sum(terms),
    decreases terms.len(),
{
    if terms.len() > 0 {
        law_total_is_sum_less_dropped(terms.drop_last());
    }
}

/// The first `k` supplies exceed the first `k` borrows by the deposit less what the next round
/// would supply.
proof fn lemma_telescope(initial: int, c_factor: int, n_loops: u32, k: nat)
    requires
        k <= final_round(n_loops),
    ensures
        sum(supplies(initial, c_factor, n_loops).take(k as int)) - sum(
            borrows(initial, c_factor, n_loops).take(k as int),
        ) == initial - supplied_in(initial, c_factor, k),
    decreases k,
{
    let sup = supplies(initial, c_factor, n_loops);
    let bor = borrows(initial, c_factor, n_loops);
    if k > 0 {
        lemma_telescope(initial, c_factor, n_loops, (k - 1) as nat);
        assert(sup.take(k as int).drop_last() =~= sup.take(k - 1));
        assert(bor.take(k as int).drop_last() =~= bor.take(k - 1));
    }
}

/// For any number of rounds the rounds together supply the deposit more than they borrow.
pub proof fn law_rounds_net_to_deposit(initial: int, c_factor: int, n_loops: u32)
    ensures
        sum(supplies(initial, c_factor, n_loops)) - sum(borrows(initial, c_factor, n_loops))
            == initial,
{
    let sup = supplies(initial, c_factor, n_loops);
    let bor = borrows(initial, c_factor, n_loops);
    let last = final_round(n_loops);
    lemma_telescope(initial, c_factor, n_loops, last);
    assert(sup.drop_last() =~= sup.take(last as int));
    assert(bor.drop_last() =~= bor.take(last as int));
}

/// The total supply less the total borrow is the deposit, for any number of rounds, exactly
/// where what overflow drops from the two totals is equal.
pub proof fn law_totals_net_to_deposit(initial: int, c_factor: int, n_loops: u32)
    ensures
        kept_sum(supplies(initial, c_factor, n_loops)) - kept_sum(
            borrows(initial, c_factor, n_loops),
        ) == initial <==> dropped_sum(supplies(initial, c_factor, n_loops)) == dropped_sum(
            borrows(initial, c_factor, n_loops),
        ),
{
    law_rounds_net_to_deposit(initial, c_factor, n_loops);
    law_total_is_sum_less_dropped(supplies(initial, c_factor, n_loops));
    law_total_is_sum_less_dropped(borrows(initial, c_factor, n_loops));
}

/// With a collateral factor of at most one, no round of a deposit borrows more than it
/// supplies, and none borrows a negative amount.
pub proof fn law_rounds_shrink(initial: int, c_factor: int, i: nat)
    requires
        0 <= initial,
        0 <= c_factor <= SCALAR_7,
    ensures
        0 <= supplied_in(initial, c_factor, i + 1) <= supplied_in(initial, c_factor, i) <= initial,
    decreases i,
{
    if i > 0 {
        law_rounds_shrink(initial, c_factor, (i - 1) as nat);
    }
    let s = supplied_in(initial, c_factor, i);
    assert(supplied_in(initial, c_factor, i + 1) == borrow_against(s, c_factor));
    assert(0 <= s * c_factor <= s * 10_000_000) by (nonlinear_arith)
        requires
            0 <= s,
            0 <= c_factor <= 10_000_000,
    ;
}

/// The most that a round borrows, in either direction.
pub open spec fn most_borrowed() -> int {
    i128::MAX as int / SCALAR_7 as int + 1
}

/// No round borrows more than the scale leaves of the greatest product.
pub proof fn law_borrow_is_bounded(balance: int, c_factor: int)
    ensures
        -most_borrowed() <= borrow_against(balance, c_factor) <= most_borrowed(),
{
}

/// Terms are all kept where even their greatest magnitudes, `first` for the first and `other`
/// for each of the others, add up to something representable.
proof fn lemma_small_terms_kept(terms: Seq<int>, first: int, other: int)
    requires
        terms.len() > 0 ==> -first <= terms[0] <= first,
        forall|i: int| 0 < i < terms.len() ==> -other <= #[trigger] terms[i] <= other,
        0 <= first,
        0 <= other,
        first + other * (terms.len() - 1) <= i128::MAX,
    ensures
        dropped_sum(terms) == 0,
        terms.len() > 0 ==> -(first + other * (terms.len() - 1)) <= kept_sum(terms) <= first + other
            * (terms.len() - 1),
    decreases terms.len(),
{
    if terms.len() == 1 {
        assert(kept_sum(terms.drop_last()) == 0);
        assert(dropped_sum(terms.drop_last()) == 0);
    } else if terms.len() > 1 {
        assert(other * (terms.len() - 1) == other * (terms.len() - 2) + other) by (nonlinear_arith);
        lemma_small_terms_kept(terms.drop_last(), first, other);
    }
}

/// Whatever the collateral factor, the totals are the sums of the rounds and differ by the
/// deposit, as long as the deposit leaves room in `i128` for the borrows of twenty rounds.
pub proof fn law_ordinary_totals(initial: int, c_factor: int, n_loops: u32)
    requires
        -i128::MAX <= initial - MAX_LOOPS * most_borrowed(),
        initial + MAX_LOOPS * most_borrowed() <= i128::MAX,
    ensures
        kept_sum(supplies(initial, c_factor, n_loops)) == sum(
            supplies(initial, c_factor, n_loops),
        ),
        kept_sum(borrows(initial, c_factor, n_loops)) == sum(borrows(initial, c_factor, n_loops)),
        kept_sum(supplies(initial, c_factor, n_loops)) - kept_sum(
            borrows(initial, c_factor, n_loops),
        ) == initial,
{
    let sup = supplies(initial, c_factor, n_loops);
    let bor = borrows(initial, c_factor, n_loops);
    let q = most_borrowed();
    let first = if initial < 0 {
        -initial
    } else {
        initial
    };
    assert(q * (sup.len() - 1) <= q * 20) by (nonlinear_arith)
        requires
            0 <= q,
            sup.len() <= 21,
    ;
    assert forall|i: int| 0 < i < sup.len() implies -q <= #[trigger] sup[i] <= q by {
        law_borrow_is_bounded(supplied_in(initial, c_factor, (i - 1) as nat), c_factor);
    }
    assert forall|i: int| 0 <= i < bor.len() implies -q <= #[trigger] bor[i] <= q by {
        law_borrow_is_bounded(supplied_in(initial, c_factor, i as nat), c_factor);
    }
    lemma_small_terms_kept(sup, first, q);
    lemma_small_terms_kept(bor, q, q);
    law_total_is_sum_less_dropped(sup);
    law_total_is_sum_less_dropped(bor);
    law_rounds_net_to_deposit(initial, c_factor, n_loops);
}

/// A loop of more than twenty rounds is the loop of twenty.
pub proof fn law_rounds_capped(initial: int, c_factor: int, n_loops: u32)
    requires
        n_loops >= MAX_LOOPS,
    ensures
        supplies(initial, c_factor, n_loops) == supplies(initial, c_factor, MAX_LOOPS),
        borrows(initial, c_factor, n_loops) == borrows(initial, c_factor, MAX_LOOPS),
{
    assert(supplies(initial, c_factor, n_loops) =~= supplies(initial, c_factor, MAX_LOOPS));
    assert(borrows(initial, c_factor, n_loops) =~= borrows(initial, c_factor, MAX_LOOPS));
}

/// Round `i` supplies the deposit times the `i`-th power of the collateral factor, to within
/// `i` units below.
pub proof fn law_rounds_are_geometric(initial: int, c_factor: int, i: nat)
    requires
        0 <= initial,
        0 <= c_factor <= SCALAR_7,
        fits(initial * c_factor),
    ensures
        supplied_in(initial, c_factor, i) * pow(SCALAR_7 as int, i) <= initial * pow(c_factor, i),
        initial * pow(c_factor, i) <= (supplied_in(initial, c_factor, i) + i) * pow(
            SCALAR_7 as int,
            i,
        ),
    decreases i,
{
    reveal(pow);
    let one = SCALAR_7 as int;
    if i > 0 {
        let j = (i - 1) as nat;
        law_rounds_are_geometric(initial, c_factor, j);
        law_rounds_shrink(initial, c_factor, j);
        let s = supplied_in(initial, c_factor, j);
        let t = supplied_in(initial, c_factor, i);
        let p = pow(one, j);
        let q = pow(c_factor, j);
        lemma_pow_positive(one, j);
        assert(0 <= s * c_factor <= initial * c_factor) by (nonlinear_arith)
            requires
                0 <= s <= initial,
                0 <= c_factor,
        ;
        assert(t * one <= s * c_factor < (t + 1) * one);
        assert(pow(one, i) == one * p);
        assert(pow(c_factor, i) == c_factor * q);
        assert(t * (one * p) <= initial * (c_factor * q)) by (nonlinear_arith)
            requires
                t * one <= s * c_factor,
                s * p <= initial * q,
                p > 0,
                c_factor >= 0,
        {
            assert(t * (one * p) == (t * one) * p);
            assert((t * one) * p <= (s * c_factor) * p);
            assert((s * c_factor) * p == (s * p) * c_factor);
            assert((s * p) * c_factor <= (initial * q) * c_factor);
            assert((initial * q) * c_factor == initial * (c_factor * q));
        }
        assert(initial * (c_factor * q) <= (t + i) * (one * p)) by (nonlinear_arith)
            requires
                s * c_factor < (t + 1) * one,
                initial * q <= (s + j) * p,
                p > 0,
                0 <= c_factor <= one,
                i == j + 1,
                j >= 0,
        {
            assert(initial * (c_factor * q) == (initial * q) * c_factor);
            assert((initial * q) * c_factor <= ((s + j) * p) * c_factor);
            assert(((s + j) * p) * c_factor == (s * c_factor + j * c_factor) * p);
            assert(j * c_factor <= j * one);
            assert((s * c_factor + j * c_factor) * p <= ((t + 1) * one + j * one) * p);
            assert(((t + 1) * one + j * one) * p == (t + i) * (one * p));
        }
    } else {
        lemma_pow0(one);
        lemma_pow0(c_factor);
    }
}

/// The supply of the first `k + 1` rounds is the deposit times a geometric series, to within
/// `k * (k + 1) / 2` units below.
proof fn lemma_series(initial: int, c_factor: int, n_loops: u32, k: nat)
    requires
        0 <= initial,
        0 <= c_factor <= SCALAR_7,
        fits(initial * c_factor),
        k <= final_round(n_loops),
    ensures
        ({
            let t = sum(supplies(initial, c_factor, n_loops).take(k as int + 1));
            let one = SCALAR_7 as int;
            let goal = initial * (pow(one, k + 1) - pow(c_factor, k + 1));
            &&& (one - c_factor) * t * pow(one, k) <= goal
            &&& 2 * goal <= (one - c_factor) * (2 * t + k * (k + 1)) * pow(one, k)
        }),
    decreases k,
{
    reveal(pow);
    let one = SCALAR_7 as int;
    let sup = supplies(initial, c_factor, n_loops);
    let t = sum(sup.take(k as int + 1));
    assert(sup.take(k as int + 1).drop_last() =~= sup.take(k as int));
    let w = one - c_factor;
    if k == 0 {
        assert(sum(sup.take(0)) == 0);
        assert(t == initial);
        lemma_pow0(one);
        lemma_pow0(c_factor);
        assert(pow(one, 1) == one * pow(one, 0));
        assert(pow(c_factor, 1) == c_factor * pow(c_factor, 0));
        assert(w * initial * 1 == initial * (one - c_factor)) by (nonlinear_arith)
            requires
                w == one - c_factor,
        ;
        assert(2 * (initial * w) == w * (2 * initial + 0) * 1) by (nonlinear_arith);
        assert(k * (k + 1) == 0) by (nonlinear_arith)
            requires
                k == 0,
        ;
    } else {
        let j = (k - 1) as nat;
        lemma_series(initial, c_factor, n_loops, j);
        law_rounds_are_geometric(initial, c_factor, k);
        let t0 = sum(sup.take(k as int));
        let s = supplied_in(initial, c_factor, k);
        assert(t == t0 + s);
        let p = pow(one, j);
        let pk = pow(one, k);
        let q = pow(c_factor, k);
        assert(pk == one * p);
        assert(pow(one, k + 1) == one * pk);
        assert(pow(c_factor, k + 1) == c_factor * q);
        lemma_pow_positive(one, j);
        lemma_pow_positive(one, k);
        let goal0 = initial * (pk - q);
        let goal = initial * (one * pk - c_factor * q);
        assert(goal == one * goal0 + w * (initial * q)) by (nonlinear_arith)
            requires
                goal0 == initial * (pk - q),
                goal == initial * (one * pk - c_factor * q),
                w == one - c_factor,
        ;
        assert(w * t * pk <= goal) by (nonlinear_arith)
            requires
                w * t0 * p <= goal0,
                s * pk <= initial * q,
                goal == one * goal0 + w * (initial * q),
                t == t0 + s,
                pk == one * p,
                w >= 0,
                one > 0,
        {
            assert(w * t * pk == one * (w * t0 * p) + w * (s * pk));
            assert(one * (w * t0 * p) <= one * goal0);
            assert(w * (s * pk) <= w * (initial * q));
        }
        let e0 = j * (j + 1);
        let e = k * (k + 1);
        assert(e == e0 + 2 * k) by (nonlinear_arith)
            requires
                e0 == j * (j + 1),
                e == k * (k + 1),
                k == j + 1,
        ;
        assert(2 * goal <= w * (2 * t + e) * pk) by (nonlinear_arith)
            requires
                2 * goal0 <= w * (2 * t0 + e0) * p,
                initial * q <= (s + k) * pk,
                goal == one * goal0 + w * (initial * q),
                t == t0 + s,
                pk == one * p,
                e == e0 + 2 * k,
                w >= 0,
                one > 0,
        {
            assert(w * (2 * t + e) * pk == one * (w * (2 * t0 + e0) * p) + 2 * (w * ((s + k)
                * pk)));
            assert(one * (2 * goal0) <= one * (w * (2 * t0 + e0) * p));
            assert(w * (initial * q) <= w * ((s + k) * pk));
        }
    }
}

/// The leverage of a loop of `m` borrowing rounds is `(1 - c^(m+1)) / (1 - c)` times the
/// deposit, to within `m * (m + 1) / 2` units below, where no round overflows the total. Both
/// sides are stated multiplied out, in the seven-decimal scale.
pub proof fn law_leverage_is_geometric(initial: int, c_factor: int, n_loops: u32)
    requires
        0 <= initial,
        0 <= c_factor <= SCALAR_7,
        fits(initial * c_factor),
        dropped_sum(supplies(initial, c_factor, n_loops)) == 0,
    ensures
        ({
            let m = final_round(n_loops);
            let t = kept_sum(supplies(initial, c_factor, n_loops));
            let one = SCALAR_7 as int;
            let goal = initial * (pow(one, m + 1) - pow(c_factor, m + 1));
            &&& (one - c_factor) * t * pow(one, m) <= goal
            &&& 2 * goal <= (one - c_factor) * (2 * t + m * (m + 1)) * pow(one, m)
        }),
{
    let m = final_round(n_loops);
    lemma_series(initial, c_factor, n_loops, m);
    let sup = supplies(initial, c_factor, n_loops);
    assert(sup.take(m as int + 1) =~= sup);
    law_total_is_sum_less_dropped(sup);
}

/// Whether `sup` and `bor` are what the rounds of a loop supply and borrow. The first round
/// supplies the deposit, each other one what the one before it borrowed. Each round borrows the
/// fraction `c_factor` of what it supplies, rounded toward zero (nothing where the product
/// overflows), except the last, which borrows nothing. There is one round more than configured,
/// and never more than twenty-one.
pub open spec fn is_loop(
    initial: int,
    c_factor: int,
    n_loops: u32,
    sup: Seq<int>,
    bor: Seq<int>,
) -> bool {
    &&& sup.len() == if n_loops < 20 {
        n_loops + 1
    } else {
        21
    }
    &&& bor.len() == sup.len()
    &&& sup[0] == initial
    &&& bor[sup.len() - 1] == 0
    &&& forall|i: int|
        0 <= i < sup.len() - 1 ==> {
            &&& sup[i + 1] == #[trigger] bor[i]
            &&& if fits(sup[i] * c_factor) {
                rounds_toward_zero(bor[i], sup[i] * c_factor, SCALAR_7 as int)
            } else {
                bor[i] == 0
            }
        }
}

/// A round that is not the last borrows the fraction `c_factor` of its balance, rounded toward
/// zero, or nothing where the product overflows.
pub proof fn law_round_borrows_a_fraction(balance: int, c_factor: int)
    ensures
        fits(balance * c_factor) ==> rounds_toward_zero(
            borrow_against(balance, c_factor),
            balance * c_factor,
            SCALAR_7 as int,
        ),
        !fits(balance * c_factor) ==> borrow_against(balance, c_factor) == 0,
{
    law_rounding_toward_zero(
        borrow_against(balance, c_factor),
        balance * c_factor,
        SCALAR_7 as int,
    );
}

/// Round `i` of a loop supplies what is computed for it.
proof fn lemma_round_of_loop(
    initial: int,
    c_factor: int,
    n_loops: u32,
    sup: Seq<int>,
    bor: Seq<int>,
    i: int,
)
    requires
        is_loop(initial, c_factor, n_loops, sup, bor),
        0 <= i < sup.len(),
    ensures
        sup[i] == supplied_in(initial, c_factor, i as nat),
    decreases i,
{
    if i > 0 {
        lemma_round_of_loop(initial, c_factor, n_loops, sup, bor, i - 1);
        assert(sup[i - 1 + 1] == bor[i - 1]);
        law_rounding_toward_zero(bor[i - 1], sup[i - 1] * c_factor, SCALAR_7 as int);
    }
}

/// What is computed for the rounds of a loop is what its rounds supply and borrow, and nothing
/// else is.
pub proof fn law_rounds_make_the_loop(
    initial: int,
    c_factor: int,
    n_loops: u32,
    sup: Seq<int>,
    bor: Seq<int>,
)
    ensures
        is_loop(initial, c_factor, n_loops, sup, bor) <==> sup == supplies(
            initial,
            c_factor,
            n_loops,
        ) && bor == borrows(initial, c_factor, n_loops),
        final_round(n_loops) + 1 == if n_loops < 20 {
            n_loops + 1
        } else {
            21
        },
{
    if is_loop(initial, c_factor, n_loops, sup, bor) {
        assert forall|i: int| 0 <= i < sup.len() implies #[trigger] sup[i] == supplies(
            initial,
            c_factor,
            n_loops,
        )[i] by {
            lemma_round_of_loop(initial, c_factor, n_loops, sup, bor, i);
        }
        assert forall|i: int| 0 <= i < sup.len() implies #[trigger] bor[i] == borrows(
            initial,
            c_factor,
            n_loops,
        )[i] by {
            if i < sup.len() - 1 {
                lemma_round_of_loop(initial, c_factor, n_loops, sup, bor, i + 1);
            }
        }
        assert(sup =~= supplies(initial, c_factor, n_loops));
        assert(bor =~= borrows(initial, c_factor, n_loops));
    }
    if sup == supplies(initial, c_factor, n_loops) && bor == borrows(initial, c_factor, n_loops) {
        assert forall|i: int| 0 <= i < sup.len() - 1 implies {
            &&& sup[i + 1] == #[trigger] bor[i]
            &&& if fits(sup[i] * c_factor) {
                rounds_toward_zero(bor[i], sup[i] * c_factor, SCALAR_7 as int)
            } else {
                bor[i] == 0
            }
        } by {
            law_round_borrows_a_fraction(sup[i], c_factor);
        }
    }
}

/// A total is the sum of its terms where every sum on the way is representable.
pub proof fn law_total_is_sum(terms: Seq<int>)
    requires
        forall|k: int| 0 <= k <= terms.len() ==> fits(#[trigger] sum(terms.take(k))),
    ensures
        kept_sum(terms) == sum(terms),
    decreases terms.len(),
{
    assert(terms.take(terms.len() as int) =~= terms);
    if terms.len() > 0 {
        let rest = terms.drop_last();
        assert forall|k: int| 0 <= k <= rest.len() implies fits(#[trigger] sum(rest.take(k))) by {
            assert(rest.take(k) =~= terms.take(k));
        }
        law_total_is_sum(rest);
        assert(fits(sum(terms.take(terms.len() as int))));
    }
}

/// A term that would take a total out of the machine's range leaves it as it is.
pub proof fn law_total_skips_what_overflows(terms: Seq<int>, term: int)
    ensures
        !fits(kept_sum(terms) + term) ==> kept_sum(terms.push(term)) == kept_sum(terms),
        fits(kept_sum(terms) + term) ==> kept_sum(terms.push(term)) == kept_sum(terms) + term,
        kept_sum(Seq::empty()) == 0,
{
    assert(terms.push(term).drop_last() =~= terms);
}

} // verus!
