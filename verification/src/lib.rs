//! The core of an orbital puzzle: bodies on circular orbits round a fixed
//! centre, a bounded clock that the player scrubs, and the test for the
//! alignment, the syzygy, that solves the puzzle.
//!
//! The motion is not integrated: where a body is follows from its orbit and
//! the simulated time alone. All quantities are whole numbers of micro-units
//! (see `units`), so the arithmetic is exact and the same on every machine.
//!
//! - `layout` turns the declared orbital periods into bodies;
//! - `kepler` converts between the radius and the period of an orbit;
//! - `clock` holds the simulated time and the play state;
//! - `solver` places a body on its orbit at a given time;
//! - `detector` tests whether the goal is met;
//! - `shuffle` deals the orbits out anew;
//! - `session` owns all of these and runs one tick at a time.

pub mod body;
pub mod clock;
pub mod detector;
pub mod error;
pub mod kepler;
pub mod layout;
pub mod roots;
pub mod session;
pub mod shuffle;
pub mod solver;
pub mod units;
