use syzygy::kepler::{orbit_radius, orbital_period};
use syzygy::roots::{icbrt, isqrt};
use syzygy::units::{EPSILON, MAX_DISTANCE, MAX_PERIOD, TWO_PI, UNIT};

#[test]
fn isqrt_rounds_down() {
    assert_eq!(isqrt(0), 0);
    assert_eq!(isqrt(1), 1);
    assert_eq!(isqrt(3), 1);
    assert_eq!(isqrt(4), 2);
    assert_eq!(isqrt(17), 4);
    assert_eq!(isqrt(1_000_000_000_000), 1_000_000);
    assert_eq!(isqrt(999_999_999_999), 999_999);
    assert_eq!(isqrt(u128::MAX), u64::MAX);
}

#[test]
fn icbrt_rounds_down() {
    assert_eq!(icbrt(0), 0);
    assert_eq!(icbrt(1), 1);
    assert_eq!(icbrt(7), 1);
    assert_eq!(icbrt(8), 2);
    assert_eq!(icbrt(26), 2);
    assert_eq!(icbrt(27), 3);
    assert_eq!(icbrt(1_000_000_000_000_000_000), 1_000_000);
    assert_eq!(icbrt(999_999_999_999_999_999), 999_999);
    assert_eq!(icbrt(u128::MAX), 6_981_463_658_331);
}

#[test]
fn unit_orbit_takes_two_pi() {
    assert_eq!(orbital_period(UNIT), TWO_PI);
    assert_eq!(orbit_radius(TWO_PI), UNIT);
}

#[test]
fn orbital_period_exact_values() {
    assert_eq!(orbital_period(0), 0);
    assert_eq!(orbital_period(29), 0);
    assert_eq!(orbital_period(30), 1);
    assert_eq!(orbital_period(EPSILON), 6);
    assert_eq!(orbital_period(2 * UNIT), 17_771_530);
    assert_eq!(orbital_period(3 * UNIT), 32_648_386);
}

#[test]
fn orbit_radius_exact_values() {
    assert_eq!(orbit_radius(0), 0);
    assert_eq!(orbit_radius(1), 29);
    assert_eq!(orbit_radius(5_000), 8_587);
    assert_eq!(orbit_radius(2 * UNIT), 466_194);
    assert_eq!(orbit_radius(3 * UNIT), 610_887);
    assert_eq!(orbit_radius(MAX_PERIOD), 136_315_979);
}

#[test]
fn orbital_period_follows_keplers_law() {
    for distance in [EPSILON, 12_345, UNIT / 2, UNIT, 7 * UNIT, 150 * UNIT, MAX_DISTANCE] {
        let d = distance as f64 / UNIT as f64;
        let expected = 2.0 * std::f64::consts::PI * (d * d * d).sqrt();
        let period = orbital_period(distance) as f64 / UNIT as f64;
        assert!((period - expected).abs() <= 1.0e-6 + expected * 1.0e-7, "{distance}");
    }
}

#[test]
fn orbit_radius_follows_keplers_law() {
    for period in [1, 5_000, UNIT / 3, UNIT, 2 * UNIT, 3 * UNIT, 200 * UNIT, MAX_PERIOD] {
        let t = period as f64 / UNIT as f64;
        let expected = (t / (2.0 * std::f64::consts::PI)).powi(2).powf(1.0 / 3.0);
        let radius = orbit_radius(period) as f64 / UNIT as f64;
        assert!((radius - expected).abs() <= 1.0e-6 + expected * 1.0e-7, "{period}");
    }
}

#[test]
fn radius_and_period_round_trip() {
    for distance in [UNIT / 10, UNIT, 2 * UNIT, 50 * UNIT] {
        let back = orbit_radius(orbital_period(distance));
        assert!(back <= distance && distance - back <= 1, "{distance}");
    }
}
