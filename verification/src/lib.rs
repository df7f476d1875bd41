//! Predator-prey population dynamics in the Lotka-Volterra model.
//!
//! Rates, times and continuous populations are fixed-point numbers: an `i64`
//! or `u64` holding the real value multiplied by [`fixed::UNIT`]. All model
//! arithmetic in this crate is exact integer arithmetic on that
//! representation.

pub mod error;
pub mod fixed;
pub mod models;
pub mod stochastic;
