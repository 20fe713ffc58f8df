//! Fixed-point scales and limits.

use vstd::prelude::*;

verus! {

/// One in the seven-decimal scale of amounts, collateral factors, utilizations and health
/// factors.
pub const SCALAR_7: i128 = 10_000_000;

/// One in the twelve-decimal scale of the pool's exchange rates.
pub const SCALAR_12: i128 = 1_000_000_000_000;

/// The pool utilization, in the seven-decimal scale, from which on no deposit is accepted.
pub const MAX_SAFE_UTILIZATION: i128 = 9_500_000;

} // verus!
