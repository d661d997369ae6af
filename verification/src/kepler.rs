//! Kepler's third law for circular orbits round a centre of unit
//! gravitational parameter: a body at distance `d` needs the time
//! `T = 2π·sqrt(d³)` for one revolution, that is `T² = (2π)²·d³`.
//!
//! In micro-units the law reads `UNIT³·T² = TWO_PI²·d³`. Both conversions,
//! from distance to period and from period to distance, round down to the
//! micro-unit, and both are stated by comparing the two sides of the law.

use vstd::prelude::*;
use crate::roots::{
    floor_cbrt, floor_sqrt, icbrt, is_floor_cbrt, is_floor_sqrt, isqrt, lemma_cube_increases,
    lemma_floor_cbrt_exists, lemma_floor_sqrt_exists, lemma_square_increases,
};
use crate::units::{EPSILON, MAX_DISTANCE, MAX_PERIOD, TWO_PI, UNIT};

verus! {

/// The period's side of the law: `UNIT³·T²`.
pub open spec fn period_measure(period: int) -> int {
    UNIT * UNIT * UNIT * (period * period)
}

/// The distance's side of the law: `TWO_PI²·d³`.
pub open spec fn distance_measure(distance: int) -> int {
    TWO_PI * TWO_PI * (distance * distance * distance)
}

/// `period` is the time of one revolution at `distance`, rounded down: the
/// law finds `period` not too long for the distance, and `period + 1` too
/// long.
pub open spec fn is_orbital_period(distance: int, period: int) -> bool {
    &&& 0 <= period
    &&& period_measure(period) <= distance_measure(distance)
    &&& distance_measure(distance) < period_measure(period + 1)
}

/// `distance` is the radius of the orbit with the given `period`, rounded
/// down: the law finds `distance` not too wide for the period, and
/// `distance + 1` too wide.
pub open spec fn is_orbit_radius(period: int, distance: int) -> bool {
    &&& 0 <= distance
    &&& distance_measure(distance) <= period_measure(period)
    &&& period_measure(period) < distance_measure(distance + 1)
}

/// The time of one revolution at `distance`, rounded down.
pub open spec fn orbital_period_of(distance: int) -> int {
    choose|period: int| is_orbital_period(distance, period)
}

/// The radius of the orbit with the given `period`, rounded down.
pub open spec fn orbit_radius_of(period: int) -> int {
    choose|distance: int| is_orbit_radius(period, distance)
}

/// A rounded-down square root of the law's quotient is the orbital period.
proof fn lemma_period_from_root(distance: int, root: int)
    requires
        0 <= distance,
        is_floor_sqrt(distance_measure(distance) / (UNIT * UNIT * UNIT), root),
    ensures
        is_orbital_period(distance, root),
{
    let whole = distance_measure(distance);
    let scale = UNIT * UNIT * UNIT;
    let quotient = whole / scale;
    assert(scale == 1_000_000_000_000_000_000);
    assert(whole == scale * quotient + whole % scale && 0 <= whole % scale < scale);
    assert(scale * (root * root) <= scale * quotient);
    assert(scale * (quotient + 1) <= scale * ((root + 1) * (root + 1)));
}

/// A rounded-down cube root of the law's quotient is the orbit radius.
proof fn lemma_radius_from_root(period: int, root: int)
    requires
        is_floor_cbrt(period_measure(period) / (TWO_PI * TWO_PI), root),
    ensures
        is_orbit_radius(period, root),
{
    let whole = period_measure(period);
    let scale = TWO_PI * TWO_PI;
    let quotient = whole / scale;
    assert(scale == 39_478_413_744_225);
    assert(whole == scale * quotient + whole % scale && 0 <= whole % scale < scale);
    assert(scale * (root * root * root) <= scale * quotient);
    assert(scale * (quotient + 1) <= scale * ((root + 1) * (root + 1) * (root + 1)));
}

/// The distance's side of the law grows with the distance.
pub proof fn lemma_distance_measure_grows(near: int, far: int)
    requires
        0 <= near < far,
    ensures
        distance_measure(near) < distance_measure(far),
{
    lemma_cube_increases(near + 1, far);
    let small = near * near * near;
    let next = (near + 1) * (near + 1) * (near + 1);
    let large = far * far * far;
    assert(small < next) by (nonlinear_arith)
        requires
            0 <= near,
            small == near * near * near,
            next == (near + 1) * (near + 1) * (near + 1),
    ;
    assert(TWO_PI * TWO_PI == 39_478_413_744_225);
    assert(39_478_413_744_225 * small < 39_478_413_744_225 * large) by (nonlinear_arith)
        requires
            small < large,
    ;
}

/// The period's side of the law grows with the period.
pub proof fn lemma_period_measure_grows(short: int, long: int)
    requires
        0 <= short < long,
    ensures
        period_measure(short) < period_measure(long),
{
    lemma_square_increases(short + 1, long);
    let small = short * short;
    let next = (short + 1) * (short + 1);
    let large = long * long;
    assert(small < next) by (nonlinear_arith)
        requires
            0 <= short,
            small == short * short,
            next == (short + 1) * (short + 1),
    ;
    assert(UNIT * UNIT * UNIT == 1_000_000_000_000_000_000);
    assert(1_000_000_000_000_000_000 * small < 1_000_000_000_000_000_000 * large)
        by (nonlinear_arith)
        requires
            small < large,
    ;
}

/// No distance has two orbital periods.
pub proof fn lemma_orbital_period_unique(distance: int, p: int, q: int)
    requires
        is_orbital_period(distance, p),
        is_orbital_period(distance, q),
    ensures
        p == q,
{
    if p + 1 < q {
        lemma_period_measure_grows(p + 1, q);
    } else if q + 1 < p {
        lemma_period_measure_grows(q + 1, p);
    }
}

/// No period has two orbit radii.
pub proof fn lemma_orbit_radius_unique(period: int, d: int, e: int)
    requires
        is_orbit_radius(period, d),
        is_orbit_radius(period, e),
    ensures
        d == e,
{
    if d + 1 < e {
        lemma_distance_measure_grows(d + 1, e);
    } else if e + 1 < d {
        lemma_distance_measure_grows(e + 1, d);
    }
}

/// Every distance has an orbital period, and `orbital_period_of` is it.
pub proof fn lemma_orbital_period_exists(distance: int)
    requires
        0 <= distance,
    ensures
        is_orbital_period(distance, orbital_period_of(distance)),
{
    let quotient = distance_measure(distance) / (UNIT * UNIT * UNIT);
    assert(0 <= distance * distance * distance) by (nonlinear_arith)
        requires
            0 <= distance,
    ;
    lemma_floor_sqrt_exists(quotient);
    lemma_period_from_root(distance, floor_sqrt(quotient));
}

/// Every period has an orbit radius, and `orbit_radius_of` is it.
pub proof fn lemma_orbit_radius_exists(period: int)
    ensures
        is_orbit_radius(period, orbit_radius_of(period)),
{
    let quotient = period_measure(period) / (TWO_PI * TWO_PI);
    assert(0 <= period * period) by (nonlinear_arith);
    lemma_floor_cbrt_exists(quotient);
    lemma_radius_from_root(period, floor_cbrt(quotient));
}

/// The time of one revolution at `distance`, rounded down to the micro-unit.
pub fn orbital_period(distance: u64) -> (period: u64)
    requires
        distance <= MAX_DISTANCE,
    ensures
        is_orbital_period(distance as int, period as int),
        period == orbital_period_of(distance as int),
{
    let d: u128 = distance as u128;
    assert(d * d <= 40_000_000_000_000_000 && d * d * d <= 8_000_000_000_000_000_000_000_000)
        by (nonlinear_arith)
        requires
            0 <= d <= 200_000_000,
    ;
    let cube: u128 = d * d * d;
    let two_pi_squared: u128 = 39_478_413_744_225;
    let unit_cubed: u128 = 1_000_000_000_000_000_000;
    assert(two_pi_squared == TWO_PI * TWO_PI && unit_cubed == UNIT * UNIT * UNIT);
    let quotient: u128 = (two_pi_squared * cube) / unit_cubed;
    let period = isqrt(quotient);
    proof {
        lemma_period_from_root(distance as int, period as int);
        lemma_orbital_period_unique(
            distance as int,
            period as int,
            orbital_period_of(distance as int),
        );
    }
    period
}

/// The radius of the orbit with the given `period`, rounded down to the
/// micro-unit.
pub fn orbit_radius(period: u64) -> (distance: u64)
    requires
        period <= MAX_PERIOD,
    ensures
        is_orbit_radius(period as int, distance as int),
        distance == orbit_radius_of(period as int),
        distance <= MAX_DISTANCE,
{
    let t: u128 = period as u128;
    assert(t * t <= 100_000_000_000_000_000_000) by (nonlinear_arith)
        requires
            0 <= t <= 10_000_000_000,
    ;
    let two_pi_squared: u128 = 39_478_413_744_225;
    let unit_cubed: u128 = 1_000_000_000_000_000_000;
    assert(two_pi_squared == TWO_PI * TWO_PI && unit_cubed == UNIT * UNIT * UNIT);
    let quotient: u128 = (unit_cubed * (t * t)) / two_pi_squared;
    let distance = icbrt(quotient);
    proof {
        lemma_radius_from_root(period as int, distance as int);
        lemma_orbit_radius_unique(period as int, distance as int, orbit_radius_of(period as int));
        if distance > MAX_DISTANCE {
            lemma_cube_increases(MAX_DISTANCE as int, distance as int);
            assert(MAX_DISTANCE * MAX_DISTANCE * MAX_DISTANCE
                == 8_000_000_000_000_000_000_000_000int);
        }
    }
    distance
}

/// The two conversions undo each other as far as rounding allows: the orbit
/// whose period is that of `distance` is no wider than `distance`, and the
/// orbit whose period is one micro-unit longer is no narrower.
pub proof fn lemma_radius_inverts_period(distance: int)
    requires
        0 <= distance,
    ensures
        orbit_radius_of(orbital_period_of(distance)) <= distance,
        distance <= orbit_radius_of(orbital_period_of(distance) + 1),
{
    let period = orbital_period_of(distance);
    lemma_orbital_period_exists(distance);
    lemma_orbit_radius_exists(period);
    lemma_orbit_radius_exists(period + 1);
    let below = orbit_radius_of(period);
    let above = orbit_radius_of(period + 1);
    if distance < below {
        lemma_distance_measure_grows(distance, below);
    }
    if above + 1 < distance {
        lemma_distance_measure_grows(above + 1, distance);
    }
}

/// A body that is not at the centre takes time to go round: from `EPSILON`
/// outwards the orbital period is at least one micro-unit.
pub proof fn lemma_orbital_period_positive(distance: int)
    requires
        EPSILON <= distance,
    ensures
        0 < orbital_period_of(distance),
{
    lemma_orbital_period_exists(distance);
    if EPSILON < distance {
        lemma_distance_measure_grows(EPSILON as int, distance);
    }
    assert(period_measure(1) == 1_000_000_000_000_000_000);
    let turn = TWO_PI as int;
    let edge = EPSILON as int;
    assert(turn * turn * (edge * edge * edge) == 39_478_413_744_225_000_000) by (nonlinear_arith)
        requires
            turn == 6_283_185,
            edge == 100,
    ;
    let period = orbital_period_of(distance);
    if period == 0 {
        assert(period_measure(period + 1) == period_measure(1));
    }
}

} // verus!
