//! Laws of unwinding.

use crate::constants::{SCALAR_12, SCALAR_7};
use crate::error::StrategyError;
use crate::fixed_point::{fits, lemma_floor};
use crate::laws::rounding::{law_rounding_toward_zero, rounds_toward_zero};
use crate::leverage::health::Position;
use crate::leverage::looping::MAX_LOOPS;
use vstd::prelude::*;

verus! {

/// Where an answer comes from: the first stop, or the cap.
proof fn lemma_search(p: Position, target_hf: int, k: nat) -> (at: nat)
    requires
        k <= MAX_LOOPS + 1,
    ensures
        k <= at <= MAX_LOOPS + 1,
        forall|j: nat| k <= j < at ==> #[trigger] p.stop(target_hf, j) is None,
        at <= MAX_LOOPS ==> p.stop(target_hf, at) == Some(p.search(target_hf, k)),
        at == MAX_LOOPS + 1 ==> p.search(target_hf, k) == Ok::<u32, StrategyError>(MAX_LOOPS),
    decreases MAX_LOOPS + 1 - k,
{
    if k <= MAX_LOOPS && p.stop(target_hf, k) is None {
        let at = lemma_search(p, target_hf, k + 1);
        at
    } else {
        k
    }
}

/// Whether `p` has a health factor of at least `target_hf`.
pub open spec fn has_health(p: Position, target_hf: int) -> bool {
    p.health() is Ok && p.health()->Ok_0 >= target_hf
}

/// Whether the position is below the target health factor after every number of layers up to
/// the cap.
pub open spec fn never_healthy(p: Position, target_hf: int) -> bool {
    forall|k: nat|
        k <= MAX_LOOPS ==> (#[trigger] p.peeled(k)).health() is Ok && p.peeled(k).health()->Ok_0
            < target_hf
}

/// Unwinding the answered number of layers gives at least the target health factor, unless the
/// layers ran out before (the last one counted is empty) or no number of layers up to the cap
/// gives it. The answer is never above the cap.
pub proof fn law_unwind_reaches_target(p: Position, target_hf: int)
    requires
        p.layers_to_peel(target_hf) is Ok,
    ensures
        ({
            let n = p.layers_to_peel(target_hf)->Ok_0;
            &&& n <= MAX_LOOPS
            &&& {
                ||| has_health(p.peeled(n as nat), target_hf)
                ||| n > 0 && p.peeled((n - 1) as nat).outer_layer() == 0
                ||| n == MAX_LOOPS && never_healthy(p, target_hf)
            }
        }),
{
    let at = lemma_search(p, target_hf, 0);
    if at >= MAX_LOOPS && !has_health(p.peeled(MAX_LOOPS as nat), target_hf) {
        assert forall|k: nat| k <= MAX_LOOPS implies (#[trigger] p.peeled(k)).health() is Ok
            && p.peeled(k).health()->Ok_0 < target_hf by {
            if k < at {
                assert(p.stop(target_hf, k) is None);
            }
        }
    }
}

/// No fewer layers would do: before the answered number of them is peeled, the position is
/// below the target health factor.
pub proof fn law_unwind_is_minimal(p: Position, target_hf: int, k: nat)
    requires
        p.layers_to_peel(target_hf) is Ok,
        k < p.layers_to_peel(target_hf)->Ok_0,
    ensures
        p.peeled(k).health() is Ok,
        p.peeled(k).health()->Ok_0 < target_hf,
{
    let at = lemma_search(p, target_hf, 0);
    assert(k <= at);
    if k < at {
        assert(p.stop(target_hf, k) is None);
    }
}

/// Nothing is unwound exactly where the position has the target health factor already.
pub proof fn law_healthy_is_left_alone(p: Position, target_hf: int)
    ensures
        p.layers_to_peel(target_hf) == Ok::<u32, StrategyError>(0) <==> has_health(p, target_hf),
{
    let at = lemma_search(p, target_hf, 0);
    if at > 0 {
        assert(p.stop(target_hf, 0) is None);
    }
    assert(p.peeled(0) == p);
}

/// Unwinding fails only where some health factor or layer on the way cannot be computed.
pub proof fn law_unwind_fails_only_on_overflow(p: Position, target_hf: int)
    requires
        p.layers_to_peel(target_hf) is Err,
    ensures
        exists|k: nat|
            k <= MAX_LOOPS && ((#[trigger] p.peeled(k)).health() is Err || !fits(
                p.peeled(k).d * (SCALAR_7 - p.peeled(k).c_factor),
            )),
{
    let at = lemma_search(p, target_hf, 0);
    assert(p.peeled(at).health() is Err || !fits(
        p.peeled(at).d * (SCALAR_7 - p.peeled(at).c_factor),
    ));
}

/// Unwinding withdraws as much supply as it repays debt, and neither overshoots: with a
/// collateral factor of at most one and no more debt than supply, the debt shrinks toward zero
/// and the difference to the supply stays.
pub proof fn law_peeling_keeps_difference(p: Position, k: nat)
    requires
        0 <= p.d <= p.b <= i128::MAX,
        0 <= p.c_factor <= SCALAR_7,
    ensures
        p.peeled(k).b - p.peeled(k).d == p.b - p.d,
        0 <= p.peeled(k + 1).d <= p.peeled(k).d <= p.d,
        p.peeled(k).b_rate == p.b_rate,
        p.peeled(k).d_rate == p.d_rate,
        p.peeled(k).c_factor == p.c_factor,
    decreases k,
{
    if k > 0 {
        law_peeling_keeps_difference(p, (k - 1) as nat);
    }
    let q = p.peeled(k);
    if k > 0 {
        let o = p.peeled((k - 1) as nat);
        lemma_layer_within_debt(o);
        assert(q == o.peel());
    }
    lemma_layer_within_debt(q);
    assert(p.peeled(k + 1) == q.peel());
}

/// A layer is no more than the debt.
proof fn lemma_layer_within_debt(p: Position)
    requires
        0 <= p.d,
        0 <= p.c_factor <= SCALAR_7,
    ensures
        0 <= p.outer_layer() <= p.d,
{
    let w = SCALAR_7 - p.c_factor;
    assert(0 <= p.d * w <= p.d * 10_000_000) by (nonlinear_arith)
        requires
            0 <= p.d,
            0 <= w <= 10_000_000,
    ;
}

/// Peeling a layer never lowers the health factor of a position whose tokens are worth one
/// unit each and whose supply covers its debt.
pub proof fn law_peeling_raises_health(p: Position)
    requires
        0 <= p.d <= p.b <= i128::MAX,
        0 <= p.c_factor <= SCALAR_7,
        p.b_rate == SCALAR_12,
        p.d_rate == SCALAR_12,
        p.health() is Ok,
    ensures
        p.peel().health() is Ok,
        p.peel().health()->Ok_0 >= p.health()->Ok_0,
{
    lemma_layer_within_debt(p);
    let q = p.peel();
    let one = SCALAR_12 as int;
    if q.d != 0 {
        let c = p.c_factor;
        let l = p.outer_layer();
        assert(p.b * one / one == p.b);
        assert(p.d * one / one == p.d);
        assert(q.b * one / one == q.b);
        assert(q.d * one / one == q.d);
        assert(0 <= q.b * c <= p.b * c) by (nonlinear_arith)
            requires
                0 <= q.b <= p.b,
                0 <= c,
        ;
        assert(0 < q.d <= p.d);
        let h = p.b * c / p.d;
        lemma_floor(p.b * c, p.d);
        lemma_floor(q.b * c, q.d);
        let g = q.b * c / q.d;
        lemma_ratio(p.b, p.d, c, l, h, g);
        assert(g <= q.b * c) by (nonlinear_arith)
            requires
                g * q.d <= q.b * c,
                q.d >= 1,
                q.b * c >= 0,
        ;
        assert(g >= 0) by (nonlinear_arith)
            requires
                q.b * c < (g + 1) * q.d,
                q.d >= 1,
                q.b * c >= 0,
        ;
    }
}

/// Taking the same amount off a numerator and a smaller denominator does not lower the
/// quotient.
proof fn lemma_ratio(b: int, d: int, c: int, l: int, h: int, g: int)
    requires
        0 <= l < d <= b,
        0 <= c,
        h * d <= b * c < (h + 1) * d,
        g * (d - l) <= (b - l) * c < (g + 1) * (d - l),
    ensures
        h <= g,
{
    // (b - l) / (d - l) >= b / d, so h (d - l) <= (b - l) c.
    assert(h * (d - l) <= (b - l) * c) by (nonlinear_arith)
        requires
            0 <= l < d <= b,
            0 <= c,
            h * d <= b * c,
    {
        assert((h * d) * (d - l) <= (b * c) * (d - l));
        assert(b * (d - l) <= d * (b - l));
        assert((b * c) * (d - l) == c * (b * (d - l)));
        assert(c * (b * (d - l)) <= c * (d * (b - l)));
        assert(d * (h * (d - l)) <= d * ((b - l) * c));
    }
    assert(h <= g) by (nonlinear_arith)
        requires
            h * (d - l) <= (b - l) * c,
            (b - l) * c < (g + 1) * (d - l),
            d - l > 0,
    ;
}

/// The outermost layer is the debt tokens times one less the collateral factor, rounded toward
/// zero. Peeling it takes it off the supply tokens and off the debt tokens alike, and leaves
/// the rates and the collateral factor alone. A difference that overflows counts as nothing.
pub proof fn law_peeling_takes_a_layer_off_both(p: Position, layer: int)
    requires
        rounds_toward_zero(layer, p.d * (SCALAR_7 - p.c_factor), SCALAR_7 as int),
    ensures
        p.outer_layer() == layer,
        p.peel().b == if fits(p.b - layer) {
            p.b - layer
        } else {
            0
        },
        p.peel().d == if fits(p.d - layer) {
            p.d - layer
        } else {
            0
        },
        p.peel().b_rate == p.b_rate,
        p.peel().d_rate == p.d_rate,
        p.peel().c_factor == p.c_factor,
{
    law_rounding_toward_zero(layer, p.d * (SCALAR_7 - p.c_factor), SCALAR_7 as int);
}

/// Layers are peeled one after the other.
pub proof fn law_layers_are_peeled_in_turn(p: Position, k: nat)
    ensures
        p.peeled(0) == p,
        p.peeled(k + 1) == p.peeled(k).peel(),
{
}

/// Whether the position has a layer left after `k` layers, is below the target, and both can be
/// computed.
pub open spec fn goes_on_after(p: Position, target_hf: int, k: nat) -> bool {
    &&& p.peeled(k).health() is Ok
    &&& p.peeled(k).health()->Ok_0 < target_hf
    &&& fits(p.peeled(k).d * (SCALAR_7 - p.peeled(k).c_factor))
    &&& p.peeled(k).outer_layer() != 0
}

/// Where the answer of an unwinding comes from: the first number of layers `k`, up to the cap,
/// after which it does not go on. There the position is healthy and `k` is answered, or has no
/// layer left and one more is, but never more than the cap. Past the cap, the cap is answered.
/// The cap is twenty. What cannot be computed after `k` layers is the error.
pub proof fn law_unwind_ends_where_it_cannot_go_on(p: Position, target_hf: int, k: nat)
    requires
        k <= MAX_LOOPS + 1,
        forall|j: nat| j < k ==> #[trigger] goes_on_after(p, target_hf, j),
        k <= MAX_LOOPS ==> !goes_on_after(p, target_hf, k),
    ensures
        ({
            let q = p.peeled(k);
            p.layers_to_peel(target_hf) == if k > MAX_LOOPS {
                Ok::<u32, StrategyError>(MAX_LOOPS)
            } else if q.health() is Err {
                Err(q.health()->Err_0)
            } else if q.health()->Ok_0 >= target_hf {
                Ok(k as u32)
            } else if !fits(q.d * (SCALAR_7 - q.c_factor)) {
                Err(StrategyError::ArithmeticError)
            } else if k < MAX_LOOPS {
                Ok((k + 1) as u32)
            } else {
                Ok(MAX_LOOPS)
            }
        }),
        MAX_LOOPS == 20,
{
    let at = lemma_search(p, target_hf, 0);
    if at < k {
        assert(goes_on_after(p, target_hf, at));
    }
    if k < at {
        assert(p.stop(target_hf, k) is None);
    }
}

} // verus!
