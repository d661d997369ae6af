//! The bodies of a puzzle.

use vstd::prelude::*;

verus! {

/// A body of the puzzle. Its identity is its place in the session's list of
/// bodies; its distance from the centre is the one thing about it that a
/// shuffle may change.
#[derive(Clone, Copy, Debug, PartialEq, Eq, Structural)]
pub struct Body {
    /// The radius of the body's orbit, in micro-units. A body at distance
    /// zero is the central body, which does not move.
    pub distance: u64,
    /// The body's mass, in micro-units. It only sets how large the body is
    /// drawn.
    pub mass: u64,
    /// The hue the body is drawn in, in micro-degrees.
    pub hue: u64,
}

impl Body {
    /// A body with the given distance from the centre, mass and hue. The
    /// mass of a body is positive.
    pub fn new(distance: u64, mass: u64, hue: u64) -> (body: Body)
        requires
            0 < mass,
        ensures
            body == (Body { distance, mass, hue }),
    {
        Body { distance, mass, hue }
    }

    /// The same body on another orbit.
    pub open spec fn at_distance(self, distance: u64) -> Body {
        Body { distance, mass: self.mass, hue: self.hue }
    }
}

/// The distances of the bodies from the centre, in the order of the bodies.
pub open spec fn distances_of(bodies: Seq<Body>) -> Seq<u64> {
    Seq::new(bodies.len(), |i: int| bodies[i].distance)
}

/// The distances of the bodies from the centre, in the order of the bodies.
pub fn collect_distances(bodies: &Vec<Body>) -> (distances: Vec<u64>)
    ensures
        distances@ == distances_of(bodies@),
{
    let mut distances: Vec<u64> = Vec::new();
    let mut i: usize = 0;
    while i < bodies.len()
        invariant
            i <= bodies.len(),
            distances@.len() == i,
            forall|k: int| 0 <= k < i ==> distances@[k] == (#[trigger] bodies@[k]).distance,
        decreases bodies.len() - i,
    {
        distances.push(bodies[i].distance);
        i += 1;
    }
    assert(distances@ =~= distances_of(bodies@));
    distances
}

} // verus!
