use syzygy::body::collect_distances;
use syzygy::error::PuzzleError;
use syzygy::session::{handle_input, survey, update_time, BodyState, Request, Session};
use syzygy::clock::TimeController;
use syzygy::solver::Placement;
use syzygy::units::{MAX_TIME, TICK, UNIT};

const IDLE: Request = Request {
    toggle_play: false,
    step_forward: false,
    step_backward: false,
    reset: false,
    shuffle: false,
};

fn unsolved() -> Session {
    Session::load(vec![2 * UNIT as i64, 3 * UNIT as i64], vec![2 * UNIT, 3 * UNIT]).unwrap()
}

#[test]
fn load_lays_the_bodies_out_and_starts_paused_at_zero() {
    let session = unsolved();
    assert_eq!(collect_distances(session.bodies()), vec![466_194, 610_887]);
    assert_eq!(session.goal(), &vec![2 * UNIT, 3 * UNIT]);
    assert_eq!(session.time(), 0);
    assert!(!session.is_playing());
    assert!(!session.is_solved());
}

#[test]
fn load_fails_on_an_invalid_period() {
    assert!(matches!(Session::load(vec![UNIT as i64, -5], vec![]), Err(PuzzleError::InvalidPeriod)));
}

#[test]
fn a_paused_tick_changes_nothing() {
    let mut session = unsolved();
    let report = session.tick(&IDLE);
    assert_eq!(report.time, 0);
    assert!(!report.solved);
    assert_eq!(session.time(), 0);
    assert!(!session.is_playing());
    assert_eq!(
        report.bodies,
        vec![
            BodyState {
                placement: Placement::Orbit { radius: 466_194, elapsed: 0, period: 1_999_999 },
                completed_orbit: false,
                mass: UNIT,
                hue: 360 * UNIT,
            },
            BodyState {
                placement: Placement::Orbit { radius: 610_887, elapsed: 0, period: 2_999_999 },
                completed_orbit: false,
                mass: UNIT,
                hue: 180 * UNIT,
            },
        ]
    );
}

#[test]
fn time_passes_while_playing() {
    let mut session = unsolved();
    let report = session.tick(&Request { toggle_play: true, ..IDLE });
    assert_eq!(report.time, TICK);
    assert!(session.is_playing());
    let report = session.tick(&IDLE);
    assert_eq!(report.time, 2 * TICK);
    let report = session.tick(&Request { step_forward: true, ..IDLE });
    assert_eq!(report.time, UNIT + TICK);
    let report = session.tick(&Request { step_backward: true, ..IDLE });
    assert_eq!(report.time, UNIT + TICK);
    let report = session.tick(&Request { reset: true, ..IDLE });
    assert_eq!(report.time, TICK);
    let report = session.tick(&Request { toggle_play: true, ..IDLE });
    assert_eq!(report.time, TICK);
    assert!(!session.is_playing());
    assert_eq!(session.time(), TICK);
}

#[test]
fn requests_of_one_tick_apply_in_order() {
    let mut session = unsolved();
    let all = Request { reset: true, step_forward: true, step_backward: true, ..IDLE };
    let report = session.tick(&Request { step_forward: true, ..IDLE });
    assert_eq!(report.time, UNIT);
    let report = session.tick(&all);
    assert_eq!(report.time, 0);
    let report = session.tick(&Request { step_forward: true, step_backward: true, ..IDLE });
    assert_eq!(report.time, 0);
}

#[test]
fn a_solved_puzzle_pauses_the_clock() {
    let mut session =
        Session::load(vec![2 * UNIT as i64, 3 * UNIT as i64, 0], vec![610_887, 466_194]).unwrap();
    assert!(session.is_solved());
    let report = session.tick(&Request { toggle_play: true, ..IDLE });
    assert!(report.solved);
    assert_eq!(report.time, TICK);
    assert!(!session.is_playing());
    let report = session.tick(&Request { shuffle: true, ..IDLE });
    assert!(report.solved);
    assert_eq!(report.time, TICK);
}

#[test]
fn a_shuffle_deals_the_same_distances_to_the_same_bodies() {
    let periods: Vec<i64> = (0..50).map(|i| i * UNIT as i64).collect();
    let mut session = Session::load(periods, vec![UNIT]).unwrap();
    let before = session.bodies().clone();
    session.change_orbits();
    let after = session.bodies().clone();
    assert_eq!(after.len(), before.len());
    for (new, old) in after.iter().zip(before.iter()) {
        assert_eq!(new.mass, old.mass);
        assert_eq!(new.hue, old.hue);
    }
    let mut was = collect_distances(&before);
    let mut is = collect_distances(&after);
    assert_ne!(was, is);
    was.sort();
    is.sort();
    assert_eq!(was, is);
    assert_eq!(session.time(), 0);
    assert!(!session.is_playing());
    assert_eq!(session.goal(), &vec![UNIT]);
}

#[test]
fn a_tick_shuffles_only_on_request() {
    let periods: Vec<i64> = (0..50).map(|i| i * UNIT as i64).collect();
    let mut session = Session::load(periods, vec![UNIT]).unwrap();
    let before = session.bodies().clone();
    session.tick(&Request { toggle_play: true, ..IDLE });
    assert_eq!(session.bodies(), &before);
    let report = session.tick(&Request { shuffle: true, ..IDLE });
    assert_ne!(session.bodies(), &before);
    assert_eq!(report.time, 2 * TICK);
    for (state, body) in report.bodies.iter().zip(session.bodies().iter()) {
        assert_eq!(state.mass, body.mass);
        assert_eq!(state.hue, body.hue);
        match state.placement {
            Placement::Center => assert_eq!(body.distance, 0),
            Placement::Orbit { radius, .. } => assert_eq!(radius, body.distance),
        }
    }
}

#[test]
fn a_completed_orbit_is_reported_in_its_tick() {
    let mut session = Session::load(vec![32_649], vec![UNIT]).unwrap();
    assert_eq!(collect_distances(session.bodies()), vec![30_000]);
    let report = session.tick(&Request { toggle_play: true, ..IDLE });
    assert!(!report.bodies[0].completed_orbit);
    for tick in 2..=14 {
        let report = session.tick(&IDLE);
        assert_eq!(report.time, tick * TICK);
        assert_eq!(report.bodies[0].completed_orbit, tick == 7 || tick == 14, "{tick}");
    }
    assert_eq!(
        session.tick(&IDLE).bodies[0].placement,
        Placement::Orbit { radius: 30_000, elapsed: 9_704, period: 32_648 }
    );
}

#[test]
fn no_orbit_is_completed_while_paused() {
    let mut session = Session::load(vec![32_649], vec![UNIT]).unwrap();
    let report = session.tick(&Request { step_forward: true, ..IDLE });
    assert_eq!(report.time, UNIT);
    assert!(!report.bodies[0].completed_orbit);
}

#[test]
fn handle_input_toggles_then_resets_then_steps() {
    let mut clock = TimeController::new();
    handle_input(&mut clock, &Request { toggle_play: true, step_forward: true, ..IDLE });
    assert!(clock.is_playing());
    assert_eq!(clock.current_time(), UNIT);
    handle_input(&mut clock, &Request { step_forward: true, reset: true, ..IDLE });
    assert_eq!(clock.current_time(), UNIT);
    handle_input(&mut clock, &Request { toggle_play: true, step_backward: true, ..IDLE });
    assert!(!clock.is_playing());
    assert_eq!(clock.current_time(), 0);
    handle_input(&mut clock, &Request { shuffle: true, ..IDLE });
    assert_eq!(clock.current_time(), 0);
}

#[test]
fn update_time_stops_where_the_clock_can_hold_no_more() {
    let mut clock = TimeController::new();
    assert!(!update_time(&mut clock));
    clock.toggle_play();
    assert!(update_time(&mut clock));
    assert_eq!(clock.current_time(), TICK);
    clock.advance(u64::MAX - 2 * TICK);
    assert_eq!(clock.current_time(), u64::MAX - TICK);
    assert!(update_time(&mut clock));
    assert_eq!(clock.current_time(), u64::MAX);
    assert!(!update_time(&mut clock));
    assert_eq!(clock.current_time(), u64::MAX);
    assert!(clock.is_playing());
}

#[test]
fn survey_places_each_body() {
    let session =
        Session::load(vec![0, 6_283_185], vec![]).unwrap();
    let states = survey(session.bodies(), MAX_TIME, true);
    assert_eq!(states.len(), 2);
    assert_eq!(states[0].placement, Placement::Center);
    assert!(!states[0].completed_orbit);
    assert_eq!(
        states[1].placement,
        Placement::Orbit { radius: UNIT, elapsed: 5_221_265, period: 6_283_185 }
    );
    assert!(!states[1].completed_orbit);
}
