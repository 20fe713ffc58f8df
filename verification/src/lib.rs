//! Leveraged lending on a Blend pool.
//!
//! A deposit is supplied to the pool, a fraction of it is borrowed back and supplied again, and
//! so on for a configured number of rounds. Depositors own shares of the net equity of the
//! resulting position.

pub mod constants;
pub mod error;
pub mod fixed_point;
pub mod laws;
pub mod leverage;
pub mod strategy;
pub mod types;
