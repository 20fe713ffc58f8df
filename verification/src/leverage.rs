//! The arithmetic of a leveraged position.

pub mod equity;
pub mod health;
pub mod looping;
pub mod safety;
pub mod unwind;

pub use equity::{compute_equity, shares_to_underlying, underlying_to_shares};
pub use health::compute_health_factor;
pub use looping::{compute_loop_pairs, compute_step, compute_totals, loop_step_count, MAX_LOOPS};
pub use safety::{check_deposit_safety, check_utilization};
pub use unwind::compute_unwind_loops;
