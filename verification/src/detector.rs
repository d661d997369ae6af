//! The syzygy detector: whether every orbit that the goal names is occupied
//! by some body.
//!
//! The test is on which distances are taken, not on where the bodies are on
//! their orbits, and it allows for a small absolute error in each distance.

use vstd::prelude::*;
use crate::body::{distances_of, Body};
use crate::shuffle::lemma_same_entries;
use crate::units::EPSILON;

verus! {

/// Two lengths are the same within the tolerance: they differ by less than
/// `EPSILON`.
pub open spec fn close(a: int, b: int) -> bool {
    -(EPSILON as int) < a - b < EPSILON
}

/// Some body is at the distance `target`, within the tolerance.
pub open spec fn occupied(distances: Seq<u64>, target: int) -> bool {
    exists|i: int| 0 <= i < distances.len() && close(#[trigger] distances[i] as int, target)
}

/// Every distance of the goal is taken by some body.
pub open spec fn aligned(distances: Seq<u64>, goal: Seq<u64>) -> bool {
    forall|j: int| 0 <= j < goal.len() ==> occupied(distances, #[trigger] goal[j] as int)
}

/// Whether `a` and `b` differ by less than `EPSILON`.
pub fn approx_equal(a: u64, b: u64) -> (same: bool)
    ensures
        same == close(a as int, b as int),
{
    if a >= b {
        a - b < EPSILON
    } else {
        b - a < EPSILON
    }
}

/// Whether some body is at the distance `target`, within the tolerance.
pub fn orbit_is_occupied(bodies: &Vec<Body>, target: u64) -> (found: bool)
    ensures
        found == occupied(distances_of(bodies@), target as int),
{
    let ghost distances = distances_of(bodies@);
    let mut i: usize = 0;
    while i < bodies.len()
        invariant
            i <= bodies.len(),
            distances == distances_of(bodies@),
            forall|k: int| 0 <= k < i ==> !close(#[trigger] distances[k] as int, target as int),
        decreases bodies.len() - i,
    {
        if approx_equal(bodies[i].distance, target) {
            assert(close(distances[i as int] as int, target as int));
            return true;
        }
        i += 1;
    }
    false
}

/// Whether the puzzle is solved: every distance in `goal` is the distance of
/// some body, within the tolerance. An empty goal is met by any bodies.
pub fn check_for_syzygy(bodies: &Vec<Body>, goal: &Vec<u64>) -> (solved: bool)
    ensures
        solved == aligned(distances_of(bodies@), goal@),
{
    let mut j: usize = 0;
    while j < goal.len()
        invariant
            j <= goal.len(),
            forall|k: int| 0 <= k < j ==> occupied(distances_of(bodies@), #[trigger] goal@[k] as int),
        decreases goal.len() - j,
    {
        if !orbit_is_occupied(bodies, goal[j]) {
            return false;
        }
        j += 1;
    }
    true
}

/// The goal asks which orbits are taken, not by whom: dealing the same
/// distances out in another order neither solves the puzzle nor unsolves it.
pub proof fn lemma_alignment_ignores_order(before: Seq<u64>, after: Seq<u64>, goal: Seq<u64>)
    requires
        before.to_multiset() == after.to_multiset(),
    ensures
        aligned(before, goal) == aligned(after, goal),
{
    lemma_same_entries(before, after);
    lemma_same_entries(after, before);
    assert forall|target: int| occupied(before, target) == occupied(after, target) by {
        if occupied(before, target) {
            let i = choose|i: int| 0 <= i < before.len() && close(#[trigger] before[i] as int, target);
            let j = choose|j: int| 0 <= j < after.len() && after[j] == before[i];
            assert(close(after[j] as int, target));
        }
        if occupied(after, target) {
            let i = choose|i: int| 0 <= i < after.len() && close(#[trigger] after[i] as int, target);
            let j = choose|j: int| 0 <= j < before.len() && before[j] == after[i];
            assert(close(before[j] as int, target));
        }
    }
}

} // verus!
