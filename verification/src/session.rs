//! A puzzle session: the bodies, the clock and the goal, and the tick that
//! drives them.
//!
//! Each tick takes the player's requests, lets time pass if the clock is
//! playing, says where every body is at the new time, and tests for the
//! syzygy. When the goal is met the clock is paused.

use vstd::prelude::*;
use crate::body::{collect_distances, distances_of, Body};
use crate::clock::{
    time_after_reset, time_after_step_backward, time_after_step_forward, TimeController,
};
use crate::error::PuzzleError;
use crate::layout::{bodies_from_periods, body_for, valid_period};
use crate::shuffle::{assign_distances, lemma_same_entries, shuffle};
use crate::solver::{completed_orbit, placement_of, position, wrapped_past_zero, Placement};
use crate::detector::{aligned, check_for_syzygy, lemma_alignment_ignores_order};
use crate::units::{MAX_DISTANCE, TICK};

verus! {

/// What the player asks for in one tick. Each field is a trigger: `true`
/// asks for the action once.
#[derive(Clone, Copy, Debug, PartialEq, Eq, Structural)]
pub struct Request {
    /// Start or pause the clock.
    pub toggle_play: bool,
    /// Step to the next whole unit of time.
    pub step_forward: bool,
    /// Step to the previous whole unit of time.
    pub step_backward: bool,
    /// Return to time zero.
    pub reset: bool,
    /// Deal the orbits out anew.
    pub shuffle: bool,
}

/// What a tick reports of one body.
#[derive(Clone, Copy, Debug, PartialEq, Eq, Structural)]
pub struct BodyState {
    /// Where the body is.
    pub placement: Placement,
    /// Whether the body has completed a revolution in this tick.
    pub completed_orbit: bool,
    /// The body's mass.
    pub mass: u64,
    /// The body's hue.
    pub hue: u64,
}

/// What a tick reports.
#[derive(Debug)]
pub struct TickReport {
    /// The simulated time after the tick.
    pub time: u64,
    /// Whether the goal is met.
    pub solved: bool,
    /// The state of each body, in the order of the bodies.
    pub bodies: Vec<BodyState>,
}

/// The time after the clock has taken the requests of one tick: a reset,
/// then a step forward, then a step backward, each only if asked for.
pub open spec fn time_after_input(time: int, request: Request) -> int {
    let reset = if request.reset {
        time_after_reset(time)
    } else {
        time
    };
    let forward = if request.step_forward {
        time_after_step_forward(reset)
    } else {
        reset
    };
    if request.step_backward {
        time_after_step_backward(forward)
    } else {
        forward
    }
}

/// Whether the clock plays after it has taken the requests of one tick.
pub open spec fn playing_after_input(playing: bool, request: Request) -> bool {
    playing != request.toggle_play
}

/// Whether time passes in a tick that starts, after the requests, at `time`:
/// the clock must be playing, and the new time must be one that the clock
/// can hold.
pub open spec fn time_passes(time: int, playing: bool) -> bool {
    playing && time + TICK <= u64::MAX
}

/// The time after a whole tick.
pub open spec fn time_after_tick(time: int, playing: bool, request: Request) -> int {
    let start = time_after_input(time, request);
    if time_passes(start, playing_after_input(playing, request)) {
        start + TICK
    } else {
        start
    }
}

/// What a tick reports of `body` at `time`, where `moved` says whether time
/// has passed in the tick.
pub open spec fn body_state_of(body: Body, time: int, moved: bool) -> BodyState {
    BodyState {
        placement: placement_of(body.distance, time),
        completed_orbit: moved && wrapped_past_zero(body.distance as int, time, TICK as int),
        mass: body.mass,
        hue: body.hue,
    }
}

/// Applies the requests of one tick to the clock: play or pause, reset, step
/// forward, step backward, in this order.
pub fn handle_input(clock: &mut TimeController, request: &Request)
    ensures
        final(clock).time() == time_after_input(old(clock).time(), *request),
        final(clock).playing() == playing_after_input(old(clock).playing(), *request),
{
    if request.toggle_play {
        clock.toggle_play();
    }
    if request.reset {
        clock.reset();
    }
    if request.step_forward {
        clock.step_forward();
    }
    if request.step_backward {
        clock.step_backward();
    }
}

/// Lets one `TICK` of time pass if the clock is playing and can hold the new
/// time, and says whether it did.
pub fn update_time(clock: &mut TimeController) -> (moved: bool)
    ensures
        moved == time_passes(old(clock).time(), old(clock).playing()),
        final(clock).playing() == old(clock).playing(),
        final(clock).time() == if moved {
            old(clock).time() + TICK
        } else {
            old(clock).time()
        },
{
    if clock.is_playing() && clock.current_time() <= u64::MAX - TICK {
        clock.advance(TICK);
        true
    } else {
        false
    }
}

/// The state of every body at `time`, in the order of the bodies.
pub fn survey(bodies: &Vec<Body>, time: u64, moved: bool) -> (states: Vec<BodyState>)
    requires
        forall|i: int| 0 <= i < bodies@.len() ==> (#[trigger] bodies@[i]).distance <= MAX_DISTANCE,
    ensures
        states@.len() == bodies@.len(),
        forall|i: int|
            0 <= i < bodies@.len() ==> #[trigger] states@[i] == body_state_of(
                bodies@[i],
                time as int,
                moved,
            ),
{
    let mut states: Vec<BodyState> = Vec::new();
    let mut i: usize = 0;
    while i < bodies.len()
        invariant
            i <= bodies.len(),
            states@.len() == i,
            forall|k: int|
                0 <= k < bodies@.len() ==> (#[trigger] bodies@[k]).distance <= MAX_DISTANCE,
            forall|k: int|
                0 <= k < i ==> #[trigger] states@[k] == body_state_of(bodies@[k], time as int, moved),
        decreases bodies.len() - i,
    {
        let body = bodies[i];
        let completed = moved && completed_orbit(body.distance, time, TICK);
        states.push(
            BodyState {
                placement: position(body.distance, time),
                completed_orbit: completed,
                mass: body.mass,
                hue: body.hue,
            },
        );
        i += 1;
    }
    states
}

/// A puzzle session. It alone owns the bodies, the clock and the goal, and
/// they change only through its operations.
pub struct Session {
    bodies: Vec<Body>,
    clock: TimeController,
    goal: Vec<u64>,
}

/// What a session holds.
pub struct SessionView {
    /// The bodies, in the order in which the puzzle declared them.
    pub bodies: Seq<Body>,
    /// The simulated time.
    pub time: int,
    /// Whether the clock is playing.
    pub playing: bool,
    /// The distances that must all be taken for the puzzle to be solved.
    pub goal: Seq<u64>,
}

impl View for Session {
    type V = SessionView;

    closed spec fn view(&self) -> SessionView {
        SessionView {
            bodies: self.bodies@,
            time: self.clock.time(),
            playing: self.clock.playing(),
            goal: self.goal@,
        }
    }
}

/// The bodies are the same bodies as before but for their distances, which
/// are the same distances dealt out anew.
pub open spec fn same_bodies_reassigned(before: Seq<Body>, after: Seq<Body>) -> bool {
    &&& after.len() == before.len()
    &&& forall|i: int|
        0 <= i < before.len() ==> #[trigger] after[i] == before[i].at_distance(after[i].distance)
    &&& distances_of(after).to_multiset() == distances_of(before).to_multiset()
}

impl Session {
    #[verifier::type_invariant]
    spec fn orbits_in_range(&self) -> bool {
        forall|i: int|
            0 <= i < self.bodies@.len() ==> (#[trigger] self.bodies@[i]).distance <= MAX_DISTANCE
    }

    /// Loads a puzzle: one body for each declared period, the clock at time
    /// zero and paused, and the goal as given. A period that is negative or
    /// beyond `MAX_PERIOD` fails the load.
    pub fn load(periods: Vec<i64>, goal: Vec<u64>) -> (outcome: Result<Session, PuzzleError>)
        ensures
            outcome is Ok <==> forall|i: int|
                0 <= i < periods@.len() ==> valid_period(#[trigger] periods@[i] as int),
            outcome matches Err(error) ==> error == PuzzleError::InvalidPeriod,
            outcome matches Ok(session) ==> {
                &&& session@.time == 0
                &&& !session@.playing
                &&& session@.goal == goal@
                &&& session@.bodies.len() == periods@.len()
                &&& forall|i: int|
                    0 <= i < periods@.len() ==> #[trigger] session@.bodies[i] == body_for(
                        periods@[i] as int,
                        i,
                        periods@.len() as int,
                    )
            },
    {
        match bodies_from_periods(periods) {
            Ok(bodies) => Ok(Session { bodies, clock: TimeController::new(), goal }),
            Err(error) => Err(error),
        }
    }

    /// The bodies, in the order in which the puzzle declared them.
    pub fn bodies(&self) -> (bodies: &Vec<Body>)
        ensures
            bodies@ == self@.bodies,
    {
        &self.bodies
    }

    /// The distances that must all be taken for the puzzle to be solved.
    pub fn goal(&self) -> (goal: &Vec<u64>)
        ensures
            goal@ == self@.goal,
    {
        &self.goal
    }

    /// The simulated time, in micro-units.
    pub fn time(&self) -> (time: u64)
        ensures
            time == self@.time,
    {
        self.clock.current_time()
    }

    /// Whether the clock is playing.
    pub fn is_playing(&self) -> (playing: bool)
        ensures
            playing == self@.playing,
    {
        self.clock.is_playing()
    }

    /// Whether the goal is met by the bodies as they are now.
    pub fn is_solved(&self) -> (solved: bool)
        ensures
            solved == aligned(distances_of(self@.bodies), self@.goal),
    {
        check_for_syzygy(&self.bodies, &self.goal)
    }

    /// Deals the orbits out anew: the bodies keep their places, masses and
    /// hues, and the distances they had are assigned to them in a random
    /// order. The clock and the goal stay as they are.
    pub fn change_orbits(&mut self)
        ensures
            same_bodies_reassigned(old(self)@.bodies, final(self)@.bodies),
            final(self)@.time == old(self)@.time,
            final(self)@.playing == old(self)@.playing,
            final(self)@.goal == old(self)@.goal,
    {
        proof {
            use_type_invariant(&*self);
        }
        let distances = collect_distances(&self.bodies);
        let shuffled = shuffle(distances);
        proof {
            lemma_same_entries(shuffled@, distances@);
        }
        let mut bodies: Vec<Body> = Vec::new();
        std::mem::swap(&mut bodies, &mut self.bodies);
        let dealt = assign_distances(&mut bodies, &shuffled);
        assert(dealt is Ok);
        self.bodies = bodies;
    }

    /// One tick of the puzzle.
    ///
    /// In this order: the orbits are dealt out anew if the request asks for
    /// it; the clock takes the other requests; one `TICK` of time passes if
    /// the clock is playing; the state of every body at the new time is
    /// worked out; and the goal is tested. If the goal is met the clock is
    /// paused.
    pub fn tick(&mut self, request: &Request) -> (report: TickReport)
        ensures
            same_bodies_reassigned(old(self)@.bodies, final(self)@.bodies),
            !request.shuffle ==> final(self)@.bodies == old(self)@.bodies,
            final(self)@.goal == old(self)@.goal,
            final(self)@.time == time_after_tick(old(self)@.time, old(self)@.playing, *request),
            final(self)@.playing == (playing_after_input(old(self)@.playing, *request)
                && !report.solved),
            report.time == final(self)@.time,
            report.solved == aligned(distances_of(old(self)@.bodies), old(self)@.goal),
            report.solved == aligned(distances_of(final(self)@.bodies), final(self)@.goal),
            report.bodies@.len() == final(self)@.bodies.len(),
            forall|i: int|
                0 <= i < report.bodies@.len() ==> #[trigger] report.bodies@[i] == body_state_of(
                    final(self)@.bodies[i],
                    final(self)@.time,
                    time_passes(
                        time_after_input(old(self)@.time, *request),
                        playing_after_input(old(self)@.playing, *request),
                    ),
                ),
    {
        proof {
            use_type_invariant(&*self);
        }
        if request.shuffle {
            self.change_orbits();
        }
        proof {
            use_type_invariant(&*self);
            lemma_alignment_ignores_order(
                distances_of(old(self)@.bodies),
                distances_of(self@.bodies),
                self@.goal,
            );
        }
        let mut clock = self.clock;
        handle_input(&mut clock, request);
        let moved = update_time(&mut clock);
        let time = clock.current_time();
        let states = survey(&self.bodies, time, moved);
        let solved = check_for_syzygy(&self.bodies, &self.goal);
        if solved {
            clock.force_pause();
        }
        self.clock = clock;
        TickReport { time, solved, bodies: states }
    }
}

} // verus!
