//! The position solver: where a body is on its orbit at a given simulated
//! time.
//!
//! A position is given in polar form and exactly: the radius of the orbit
//! and the part of the current revolution that has elapsed, as a fraction
//! whose denominator is the orbital period. The angle, counter-clockwise
//! from the positive x-axis, is that fraction of a full turn.

use vstd::prelude::*;
use vstd::arithmetic::div_mod::{
    lemma_div_is_ordered, lemma_fundamental_div_mod_converse, lemma_mod_add_multiples_vanish,
};
use crate::kepler::{lemma_orbital_period_positive, orbital_period, orbital_period_of};
use crate::units::{EPSILON, MAX_DISTANCE, TWO_PI};

verus! {

/// Where a body is.
#[derive(Clone, Copy, Debug, PartialEq, Eq, Structural)]
pub enum Placement {
    /// At the centre, where the central body rests.
    Center,
    /// On a circular orbit of the given radius, `elapsed / period` of a
    /// revolution past the positive x-axis.
    Orbit { radius: u64, elapsed: u64, period: u64 },
}

impl Placement {
    /// The placement makes sense: on an orbit, less than one period of the
    /// current revolution has elapsed.
    pub open spec fn wf(self) -> bool {
        self matches Placement::Orbit { elapsed, period, .. } ==> elapsed < period
    }

    /// The angle of the placement in micro-radians, counter-clockwise from
    /// the positive x-axis and rounded down: the elapsed fraction of the
    /// revolution, of a full turn. At the centre it is zero.
    pub open spec fn angle_of(self) -> int {
        match self {
            Placement::Center => 0,
            Placement::Orbit { elapsed, period, .. } => TWO_PI * elapsed / (period as int),
        }
    }

    /// The angle of the placement in micro-radians, at least zero and less
    /// than a full turn.
    pub fn angle(&self) -> (angle: u64)
        requires
            self.wf(),
        ensures
            angle == self.angle_of(),
            angle < TWO_PI,
    {
        match *self {
            Placement::Center => 0,
            Placement::Orbit { radius: _, elapsed, period } => {
                let turn: u128 = TWO_PI as u128;
                assert(turn * elapsed < turn * period && turn * period <= 6_283_185
                    * 0xffff_ffff_ffff_ffff) by (nonlinear_arith)
                    requires
                        turn == 6_283_185,
                        0 <= elapsed < period <= 0xffff_ffff_ffff_ffff,
                ;
                let angle: u128 = turn * (elapsed as u128) / (period as u128);
                proof {
                    lemma_div_is_ordered(turn * elapsed, turn * period - 1, period as int);
                    lemma_fundamental_div_mod_converse(
                        turn * period - 1,
                        period as int,
                        turn - 1,
                        period - 1,
                    );
                }
                angle as u64
            },
        }
    }
}

/// Whether a body at `distance` is the central body.
pub open spec fn is_central(distance: int) -> bool {
    distance < EPSILON
}

/// The time that has passed in the current revolution of a body at
/// `distance`, at simulated time `time`.
pub open spec fn elapsed_in_orbit(distance: int, time: int) -> int {
    time % orbital_period_of(distance)
}

/// The placement of a body at `distance` at simulated time `time`.
pub open spec fn placement_of(distance: u64, time: int) -> Placement {
    if is_central(distance as int) {
        Placement::Center
    } else {
        Placement::Orbit {
            radius: distance,
            elapsed: elapsed_in_orbit(distance as int, time) as u64,
            period: orbital_period_of(distance as int) as u64,
        }
    }
}

/// Whether a body at `distance` has come round to the positive x-axis in
/// the `delta` of time that led up to `time`: its phase is lower now than it
/// was then.
pub open spec fn wrapped_past_zero(distance: int, time: int, delta: int) -> bool {
    &&& !is_central(distance)
    &&& delta <= time
    &&& elapsed_in_orbit(distance, time) < elapsed_in_orbit(distance, time - delta)
}

/// The position of a body at `distance` from the centre at simulated time
/// `time`. The central body stays at the centre; any other body is on its
/// orbit, with a phase in `[0, 1)`.
pub fn position(distance: u64, time: u64) -> (placement: Placement)
    requires
        distance <= MAX_DISTANCE,
    ensures
        placement == placement_of(distance, time as int),
        placement.wf(),
        is_central(distance as int) ==> placement == Placement::Center,
        !is_central(distance as int) ==> (placement matches Placement::Orbit {
            radius,
            elapsed,
            period,
        } && radius == distance && period == orbital_period_of(distance as int) && elapsed
            == elapsed_in_orbit(distance as int, time as int) && elapsed < period),
{
    if distance < EPSILON {
        return Placement::Center;
    }
    let period = orbital_period(distance);
    proof {
        lemma_orbital_period_positive(distance as int);
    }
    Placement::Orbit { radius: distance, elapsed: time % period, period }
}

/// Whether a body at `distance` has completed a revolution in the `delta`
/// of time that led up to `time`.
pub fn completed_orbit(distance: u64, time: u64, delta: u64) -> (completed: bool)
    requires
        distance <= MAX_DISTANCE,
    ensures
        completed == wrapped_past_zero(distance as int, time as int, delta as int),
{
    if distance < EPSILON || time < delta {
        return false;
    }
    let period = orbital_period(distance);
    proof {
        lemma_orbital_period_positive(distance as int);
    }
    time % period < (time - delta) % period
}

/// The motion is periodic: one orbital period later a body is where it was.
pub proof fn lemma_position_is_periodic(distance: u64, time: int)
    ensures
        placement_of(distance, time + orbital_period_of(distance as int)) == placement_of(
            distance,
            time,
        ),
{
    if !is_central(distance as int) {
        lemma_orbital_period_positive(distance as int);
        let period = orbital_period_of(distance as int);
        lemma_mod_add_multiples_vanish(time, period);
    }
}

/// A body stays on its orbit: at all times it is as far from the centre as
/// its orbit is wide, and its phase is at least zero and less than one.
pub proof fn lemma_body_stays_on_its_orbit(distance: u64, time: int)
    requires
        !is_central(distance as int),
    ensures
        placement_of(distance, time) matches Placement::Orbit { radius, elapsed, period }
            && radius == distance && 0 <= elapsed_in_orbit(distance as int, time)
            < orbital_period_of(distance as int),
{
    lemma_orbital_period_positive(distance as int);
}

/// The central body does not move: a body at distance zero is at the centre
/// at all times.
pub proof fn lemma_central_body_rests(time: int)
    ensures
        placement_of(0, time) == Placement::Center,
{
}

} // verus!
