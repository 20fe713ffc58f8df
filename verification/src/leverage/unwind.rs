//! How many layers of leverage to peel off a position for its health.

use crate::constants::SCALAR_7;
use crate::error::StrategyError;
use crate::fixed_point::{fits, trunc_div};
use crate::leverage::health::{compute_health_factor, position_of, Position};
use crate::leverage::looping::MAX_LOOPS;
use vstd::prelude::*;

verus! {

/// A difference, or zero where it leaves `i128`.
pub open spec fn sub_or_zero(x: int, y: int) -> int {
    if fits(x - y) {
        x - y
    } else {
        0
    }
}

impl Position {
    /// The outermost layer of leverage, in tokens, rounded toward zero: the debt times one less
    /// the collateral factor.
    pub open spec fn outer_layer(self) -> int {
        trunc_div(self.d * (SCALAR_7 - self.c_factor), SCALAR_7 as int)
    }

    /// The position after its outermost layer has been withdrawn from the supply and repaid of
    /// the debt.
    pub open spec fn peel(self) -> Position {
        Position {
            b: sub_or_zero(self.b, self.outer_layer()),
            d: sub_or_zero(self.d, self.outer_layer()),
            ..self
        }
    }

    /// The position after `k` layers have been peeled.
    pub open spec fn peeled(self, k: nat) -> Position
        decreases k,
    {
        if k == 0 {
            self
        } else {
            self.peeled((k - 1) as nat).peel()
        }
    }

    /// The answer of a search for enough layers that ends after `k` of them. Nothing where the
    /// search goes on: the position is not healthy enough yet and has a layer to peel.
    pub open spec fn stop(self, target_hf: int, k: nat) -> Option<Result<u32, StrategyError>> {
        let p = self.peeled(k);
        match p.health() {
            Err(e) => Some(Err(e)),
            Ok(hf) => if hf >= target_hf {
                Some(Ok(k as u32))
            } else if !fits(p.d * (SCALAR_7 - p.c_factor)) {
                Some(Err(StrategyError::ArithmeticError))
            } else if p.outer_layer() == 0 {
                Some(Ok(if k < MAX_LOOPS { (k + 1) as u32 } else { MAX_LOOPS }))
            } else {
                None
            },
        }
    }

    /// The answer of a search that starts after `k` layers: that of the first stop from there
    /// on, or `MAX_LOOPS` where the search comes past that many layers.
    pub open spec fn search(self, target_hf: int, k: nat) -> Result<u32, StrategyError>
        decreases MAX_LOOPS + 1 - k,
    {
        if k > MAX_LOOPS {
            Ok(MAX_LOOPS)
        } else {
            match self.stop(target_hf, k) {
                Some(answer) => answer,
                None => self.search(target_hf, k + 1),
            }
        }
    }

    /// How many layers to peel for a health factor of at least `target_hf`.
    pub open spec fn layers_to_peel(self, target_hf: int) -> Result<u32, StrategyError> {
        self.search(target_hf, 0)
    }

    /// Whether the weight of a layer, one less the collateral factor, is representable, or the
    /// answer precedes its use.
    pub open spec fn unwind_defined(self, target_hf: int) -> bool {
        ||| fits(SCALAR_7 - self.c_factor)
        ||| match self.health() {
            Err(_) => true,
            Ok(hf) => hf >= target_hf,
        }
    }
}

/// The fewest layers to peel for a health factor of at least `target_hf`; zero for a position
/// that has it already.
///
/// Each layer is withdrawn from the supply tokens and repaid of the debt tokens. Where no layer
/// is left to peel the answer is one more than the layers peeled so far. It never exceeds
/// `MAX_LOOPS`, at which a search that does not end by itself is cut off.
pub fn compute_unwind_loops(
    b_tokens: i128,
    d_tokens: i128,
    b_rate: i128,
    d_rate: i128,
    c_factor: i128,
    target_hf: i128,
) -> (r: Result<u32, StrategyError>)
    requires
        position_of(b_tokens, d_tokens, b_rate, d_rate, c_factor).unwind_defined(target_hf as int),
    ensures
        r == position_of(b_tokens, d_tokens, b_rate, d_rate, c_factor).layers_to_peel(
            target_hf as int,
        ),
        r is Ok ==> r->Ok_0 <= MAX_LOOPS,
{
    let ghost start = position_of(b_tokens, d_tokens, b_rate, d_rate, c_factor);
    let ghost target = target_hf as int;
    if d_tokens == 0 {
        assert(start.stop(target, 0) == Some(Ok::<u32, StrategyError>(0)));
        return Ok(0);
    }
    let mut current_b: i128 = b_tokens;
    let mut current_d: i128 = d_tokens;
    let mut loops: u32 = 0;
    while loops <= MAX_LOOPS
        invariant
            loops <= MAX_LOOPS + 1,
            start == position_of(b_tokens, d_tokens, b_rate, d_rate, c_factor),
            target == target_hf,
            start.peeled(loops as nat) == position_of(
                current_b,
                current_d,
                b_rate,
                d_rate,
                c_factor,
            ),
            start.unwind_defined(target),
            start.layers_to_peel(target) == start.search(target, loops as nat),
            loops > 0 ==> fits(SCALAR_7 - c_factor),
        decreases MAX_LOOPS + 1 - loops,
    {
        let hf: i128 = compute_health_factor(current_b, current_d, b_rate, d_rate, c_factor)?;
        if hf >= target_hf {
            return Ok(loops);
        }
        let layer: i128 = current_d.checked_mul(SCALAR_7 - c_factor).ok_or(
            StrategyError::ArithmeticError,
        )? / SCALAR_7;
        if layer == 0 {
            return Ok(if loops < MAX_LOOPS { loops + 1 } else { MAX_LOOPS });
        }
        current_b = current_b.checked_sub(layer).unwrap_or(0);
        current_d = current_d.checked_sub(layer).unwrap_or(0);
        loops += 1;
    }
    Ok(MAX_LOOPS)
}

} // verus!
