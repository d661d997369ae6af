//! The orbit shuffle: the distances of the bodies are dealt out anew, in a
//! random order, to the same bodies.

use vstd::prelude::*;
use rand::seq::SliceRandom;
use crate::body::{distances_of, Body};
use crate::error::PuzzleError;

verus! {

/// Puts `values` into a random order with `rand`'s `SliceRandom::shuffle`,
/// fed by `rand::thread_rng`.
///
/// Trusted, not proved: the shuffle only swaps entries, so the values are
/// the same afterwards, each as often as before. Nothing is claimed of the
/// order, which differs from call to call. The generator panics if the
/// operating system gives it no seed.
#[verifier::external_body]
fn shuffle_in_place(values: &mut Vec<u64>)
    ensures
        final(values)@.to_multiset() == old(values)@.to_multiset(),
{
    values.shuffle(&mut rand::thread_rng());
}

/// Two lists that hold the same values equally often are equally long, and
/// every entry of the one is an entry of the other.
pub proof fn lemma_same_entries(a: Seq<u64>, b: Seq<u64>)
    requires
        a.to_multiset() == b.to_multiset(),
    ensures
        a.len() == b.len(),
        forall|i: int| 0 <= i < a.len() ==> b.contains(#[trigger] a[i]),
{
    a.to_multiset_ensures();
    b.to_multiset_ensures();
    assert forall|i: int| 0 <= i < a.len() implies b.contains(#[trigger] a[i]) by {
        assert(a.contains(a[i]));
        assert(a.to_multiset().count(a[i]) > 0);
        assert(b.to_multiset().count(a[i]) > 0);
    }
}

/// The same distances in a random order: as many as were given, and each
/// value as often as it was given.
pub fn shuffle(distances: Vec<u64>) -> (shuffled: Vec<u64>)
    ensures
        shuffled@.to_multiset() == distances@.to_multiset(),
        shuffled@.len() == distances@.len(),
{
    let mut shuffled = distances;
    let ghost before = shuffled@;
    shuffle_in_place(&mut shuffled);
    proof {
        before.to_multiset_ensures();
        shuffled@.to_multiset_ensures();
    }
    shuffled
}

/// Puts the bodies on the orbits given by `distances`, body `i` at
/// `distances[i]`. Mass and hue stay with the body. If there is not one
/// distance for each body, nothing is changed and the mismatch is reported.
pub fn assign_distances(bodies: &mut Vec<Body>, distances: &Vec<u64>) -> (outcome: Result<
    (),
    PuzzleError,
>)
    ensures
        outcome is Ok <==> distances@.len() == old(bodies)@.len(),
        outcome is Err ==> outcome == Err::<(), PuzzleError>(PuzzleError::IndexMismatch)
            && final(bodies)@ == old(bodies)@,
        outcome is Ok ==> final(bodies)@.len() == old(bodies)@.len() && forall|i: int|
            0 <= i < old(bodies)@.len() ==> #[trigger] final(bodies)@[i] == old(bodies)@[i].at_distance(
                distances@[i],
            ),
        outcome is Ok ==> distances_of(final(bodies)@) == distances@,
{
    if distances.len() != bodies.len() {
        return Err(PuzzleError::IndexMismatch);
    }
    let mut i: usize = 0;
    while i < bodies.len()
        invariant
            i <= bodies.len(),
            bodies@.len() == old(bodies)@.len(),
            distances@.len() == bodies@.len(),
            forall|k: int| 0 <= k < i ==> #[trigger] bodies@[k] == old(bodies)@[k].at_distance(distances@[k]),
            forall|k: int| i <= k < bodies@.len() ==> #[trigger] bodies@[k] == old(bodies)@[k],
        decreases bodies.len() - i,
    {
        let body = bodies[i];
        bodies.set(i, Body { distance: distances[i], mass: body.mass, hue: body.hue });
        i += 1;
    }
    assert(distances_of(bodies@) =~= distances@);
    Ok(())
}

} // verus!
