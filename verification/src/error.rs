//! What can go wrong in the puzzle core.

use vstd::prelude::*;

verus! {

/// The failures of the puzzle core.
#[derive(Clone, Copy, Debug, PartialEq, Eq, Structural)]
pub enum PuzzleError {
    /// A declared orbital period is negative or beyond `MAX_PERIOD`. The
    /// puzzle cannot be loaded.
    InvalidPeriod,
    /// A list of distances to assign has not one entry for each body.
    IndexMismatch,
}

} // verus!
