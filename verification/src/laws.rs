//! What holds of the arithmetic and of the calls as a whole.

pub mod deposit;
pub mod equity;
pub mod exchange;
pub mod harvest;
pub mod health;
pub mod init;
pub mod keeper;
pub mod looping;
pub mod queries;
pub mod rounding;
pub mod safety;
pub mod unwind;
pub mod unwinding;
pub mod withdraw;
