//! Fixed-point quantities.
//!
//! Every time, distance, mass and hue in this crate is a whole number of
//! micro-units: `UNIT` of them make one unit of simulated time, one unit of
//! length, one unit of mass or one degree. All arithmetic on them is exact.

use vstd::prelude::*;

verus! {

/// One whole unit, in micro-units.
pub const UNIT: u64 = 1_000_000;

/// The circle constant 2π, in micro-units.
pub const TWO_PI: u64 = 6_283_185;

/// Lengths closer than this are taken to be the same length, and a body
/// nearer than this to the centre is the central body itself.
pub const EPSILON: u64 = 100;

/// The largest orbit radius the solver works with (200 units).
pub const MAX_DISTANCE: u64 = 200_000_000;

/// The largest orbital period a puzzle may declare (10 000 units).
pub const MAX_PERIOD: u64 = 10_000_000_000;

/// The lower bound of simulated time.
pub const MIN_TIME: u64 = 0;

/// The upper bound of simulated time for the discrete controls (200 units).
pub const MAX_TIME: u64 = 200_000_000;

/// How far simulated time moves in one tick while playing (0.005 units).
pub const TICK: u64 = 5_000;

/// A full turn of hue, in micro-degrees.
pub const FULL_TURN: u64 = 360_000_000;

} // verus!
