//! The fixed-point representation shared by the deterministic and the
//! stochastic model: a real number `x` is stored as the integer
//! `round(x * UNIT)`.
//!
//! All model arithmetic in this crate is exact integer arithmetic on this
//! representation; the limits below are the machine bounds under which every
//! intermediate product of the model fits in an `i128`.

use vstd::prelude::*;

verus! {

/// One whole unit of the fixed-point scale: a stored value `v` stands for the
/// real number `v / UNIT`, so the resolution is one millionth.
pub const UNIT: u64 = 1_000_000;

/// Largest stored rate or time increment the models accept (a real value of
/// one thousand): keeps every threshold product within an `i128`.
pub const RATE_LIMIT: u64 = 1_000_000_000;

/// Largest population magnitude the stochastic model can reach, counted in
/// whole individuals: the initial population plus one per simulated step must
/// stay within this bound.
pub const POP_LIMIT: i64 = 1_000_000_000;

/// Largest stored population magnitude the deterministic right-hand side
/// accepts (a real value of one million).
pub const STATE_LIMIT: i64 = 1_000_000_000_000;

} // verus!
