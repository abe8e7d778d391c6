//! Bounded integers: unsigned counters that wrap around a configurable boundary.

pub mod bint;
pub mod cell;
pub mod drainable;
pub mod laws;
pub mod modular;
pub mod order;
pub mod text;

pub use bint::Bint;
pub use cell::BintCell;
pub use drainable::DrainableBintCell;
