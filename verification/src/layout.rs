//! The orbit layout builder: from the orbital periods that a puzzle
//! declares to the bodies on their orbits.

use vstd::prelude::*;
use vstd::arithmetic::div_mod::{lemma_div_is_ordered, lemma_div_multiples_vanish, lemma_div_plus_one};
use crate::body::Body;
use crate::error::PuzzleError;
use crate::kepler::{orbit_radius, orbit_radius_of};
use crate::units::{FULL_TURN, MAX_DISTANCE, MAX_PERIOD, UNIT};

verus! {

/// A puzzle may declare this period: it is not negative and not beyond
/// `MAX_PERIOD`.
pub open spec fn valid_period(period: int) -> bool {
    0 <= period <= MAX_PERIOD
}

/// The distance from the centre of a body with the given orbital period.
/// Period zero stands for the central body, at distance zero.
pub open spec fn distance_for(period: int) -> int {
    if period == 0 {
        0
    } else {
        orbit_radius_of(period)
    }
}

/// The hue of body `index` out of `count`: the hues step down evenly from a
/// full turn, so that the first body has the hue of 360 degrees.
pub open spec fn hue_of(index: int, count: int) -> int {
    FULL_TURN * (count - index) / count
}

/// The body that body `index` out of `count` is laid out as, when its
/// declared period is `period`. Every body has unit mass.
pub open spec fn body_for(period: int, index: int, count: int) -> Body {
    Body {
        distance: distance_for(period) as u64,
        mass: UNIT,
        hue: hue_of(index, count) as u64,
    }
}

/// The hue of body `index` out of `count`.
pub fn hue_for(index: usize, count: usize) -> (hue: u64)
    requires
        index < count,
    ensures
        hue == hue_of(index as int, count as int),
        hue <= FULL_TURN,
{
    let full: u128 = FULL_TURN as u128;
    let steps: u128 = (count - index) as u128;
    assert(full * steps <= full * count && full * count <= 360_000_000 * 0xffff_ffff_ffff_ffff)
        by (nonlinear_arith)
        requires
            full == 360_000_000,
            0 < steps <= count <= 0xffff_ffff_ffff_ffff,
    ;
    let hue: u128 = full * steps / (count as u128);
    proof {
        let c = count as int;
        lemma_div_is_ordered(full * steps, full * c, c);
        lemma_div_multiples_vanish(full as int, c);
        assert(full * c == c * full) by (nonlinear_arith);
    }
    hue as u64
}

/// Lays out one body for each declared period, in the order of the periods.
///
/// A body's distance from the centre follows from its period by Kepler's
/// third law, `distance = (period / 2π)^(2/3)`, rounded down to the
/// micro-unit; period zero gives the central body at distance zero. A
/// period that is negative or beyond `MAX_PERIOD` is rejected, and then no
/// body is laid out.
pub fn bodies_from_periods(periods: Vec<i64>) -> (outcome: Result<Vec<Body>, PuzzleError>)
    ensures
        outcome is Ok <==> forall|i: int|
            0 <= i < periods@.len() ==> valid_period(#[trigger] periods@[i] as int),
        outcome matches Err(error) ==> error == PuzzleError::InvalidPeriod,
        outcome matches Ok(bodies) ==> bodies@.len() == periods@.len() && forall|i: int|
            0 <= i < periods@.len() ==> #[trigger] bodies@[i] == body_for(
                periods@[i] as int,
                i,
                periods@.len() as int,
            ) && bodies@[i].distance <= MAX_DISTANCE,
{
    let count = periods.len();
    let mut bodies: Vec<Body> = Vec::new();
    let mut i: usize = 0;
    while i < count
        invariant
            count == periods@.len(),
            i <= count,
            bodies@.len() == i,
            forall|k: int| 0 <= k < i ==> valid_period(#[trigger] periods@[k] as int),
            forall|k: int|
                0 <= k < i ==> #[trigger] bodies@[k] == body_for(
                    periods@[k] as int,
                    k,
                    count as int,
                ) && bodies@[k].distance <= MAX_DISTANCE,
        decreases count - i,
    {
        let period = periods[i];
        if period < 0 || period as u64 > MAX_PERIOD {
            return Err(PuzzleError::InvalidPeriod);
        }
        let distance = if period == 0 {
            0
        } else {
            orbit_radius(period as u64)
        };
        bodies.push(Body::new(distance, UNIT, hue_for(i, count)));
        i += 1;
    }
    Ok(bodies)
}

/// While there are no more bodies than micro-degrees in a full turn, no two
/// bodies of a layout have the same hue: a later body has the lower hue.
pub proof fn lemma_hues_differ(first: int, second: int, count: int)
    requires
        0 <= first < second < count <= FULL_TURN,
    ensures
        hue_of(second, count) < hue_of(first, count),
{
    let low = FULL_TURN * (count - second);
    let high = FULL_TURN * (count - first);
    assert(count + low <= high) by (nonlinear_arith)
        requires
            low == FULL_TURN * (count - second),
            high == FULL_TURN * (count - first),
            first < second,
            count <= FULL_TURN,
    ;
    lemma_div_plus_one(low, count);
    lemma_div_is_ordered(count + low, high, count);
}

} // verus!
