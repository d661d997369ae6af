//! The time controller: the bounded clock of simulated time and the
//! play/pause state, changed through its operations and through nothing
//! else.

use vstd::prelude::*;
use crate::units::{MAX_TIME, MIN_TIME, UNIT};

verus! {

/// `time` rounded down to a whole unit.
pub open spec fn floor_time(time: int) -> int {
    time - time % (UNIT as int)
}

/// `time` rounded up to a whole unit.
pub open spec fn ceil_time(time: int) -> int {
    if time % (UNIT as int) == 0 {
        time
    } else {
        floor_time(time) + UNIT
    }
}

/// The time after a step forward: the next whole unit above the time rounded
/// down, unless the clock has reached `MAX_TIME`.
pub open spec fn time_after_step_forward(time: int) -> int {
    if time < MAX_TIME {
        floor_time(time) + UNIT
    } else {
        time
    }
}

/// The time after a step backward: the whole unit below the time rounded up,
/// unless the clock stands at `MIN_TIME`.
pub open spec fn time_after_step_backward(time: int) -> int {
    if time > MIN_TIME {
        ceil_time(time) - UNIT
    } else {
        time
    }
}

/// The time after a reset: zero, unless the clock has reached `MAX_TIME`,
/// where reset does nothing.
pub open spec fn time_after_reset(time: int) -> int {
    if time < MAX_TIME {
        0
    } else {
        time
    }
}

/// The time after advancing by `delta`, which counts only while playing.
pub open spec fn time_after_advance(time: int, playing: bool, delta: int) -> int {
    if playing {
        time + delta
    } else {
        time
    }
}

/// The clock of a puzzle session.
#[derive(Clone, Copy, Debug)]
pub struct TimeController {
    current_time: u64,
    play_state: bool,
}

impl TimeController {
    /// The simulated time, in micro-units.
    pub closed spec fn time(&self) -> int {
        self.current_time as int
    }

    /// Whether the clock is playing.
    pub closed spec fn playing(&self) -> bool {
        self.play_state
    }

    /// A clock at time zero, paused.
    pub fn new() -> (clock: TimeController)
        ensures
            clock.time() == 0,
            !clock.playing(),
    {
        TimeController { current_time: 0, play_state: false }
    }

    /// The simulated time, in micro-units.
    pub fn current_time(&self) -> (time: u64)
        ensures
            time == self.time(),
    {
        self.current_time
    }

    /// Whether the clock is playing.
    pub fn is_playing(&self) -> (playing: bool)
        ensures
            playing == self.playing(),
    {
        self.play_state
    }

    /// Starts a paused clock and pauses a playing one; the time stays.
    pub fn toggle_play(&mut self)
        ensures
            final(self).playing() == !old(self).playing(),
            final(self).time() == old(self).time(),
    {
        self.play_state = !self.play_state;
    }

    /// Moves to the next whole unit of time, unless the clock has reached
    /// `MAX_TIME`.
    pub fn step_forward(&mut self)
        ensures
            final(self).time() == time_after_step_forward(old(self).time()),
            final(self).playing() == old(self).playing(),
    {
        if self.current_time < MAX_TIME {
            self.current_time = self.current_time - self.current_time % UNIT + UNIT;
        }
    }

    /// Moves to the previous whole unit of time, unless the clock stands at
    /// `MIN_TIME`.
    pub fn step_backward(&mut self)
        ensures
            final(self).time() == time_after_step_backward(old(self).time()),
            final(self).playing() == old(self).playing(),
    {
        if self.current_time > MIN_TIME {
            let part: u64 = self.current_time % UNIT;
            if part == 0 {
                self.current_time = self.current_time - UNIT;
            } else {
                self.current_time = self.current_time - part;
            }
        }
    }

    /// Returns to time zero, unless the clock has reached `MAX_TIME`.
    pub fn reset(&mut self)
        ensures
            final(self).time() == time_after_reset(old(self).time()),
            final(self).playing() == old(self).playing(),
    {
        if self.current_time < MAX_TIME {
            self.current_time = 0;
        }
    }

    /// Lets `delta` of simulated time pass if the clock is playing. There is
    /// no upper bound on the time reached this way.
    pub fn advance(&mut self, delta: u64)
        requires
            old(self).playing() ==> old(self).time() + delta <= u64::MAX,
        ensures
            final(self).time() == time_after_advance(
                old(self).time(),
                old(self).playing(),
                delta as int,
            ),
            final(self).playing() == old(self).playing(),
    {
        if self.play_state {
            self.current_time = self.current_time + delta;
        }
    }

    /// Pauses the clock; the time stays.
    pub fn force_pause(&mut self)
        ensures
            !final(self).playing(),
            final(self).time() == old(self).time(),
    {
        self.play_state = false;
    }
}

impl Default for TimeController {
    /// A clock at time zero, paused.
    fn default() -> (clock: TimeController)
        ensures
            clock.time() == 0,
            !clock.playing(),
    {
        TimeController::new()
    }
}

/// From a whole unit of time below `MAX_TIME`, a step forward and then a
/// step backward lead back to where the clock stood.
pub proof fn lemma_step_forward_then_backward(time: int)
    requires
        MIN_TIME <= time < MAX_TIME,
        time % (UNIT as int) == 0,
    ensures
        time_after_step_backward(time_after_step_forward(time)) == time,
{
    let next = time + UNIT;
    assert(next % (UNIT as int) == 0);
}

/// From `MAX_TIME` on, a step forward does nothing.
pub proof fn lemma_step_forward_stops_at_max(time: int)
    requires
        MAX_TIME <= time,
    ensures
        time_after_step_forward(time) == time,
{
}

/// The discrete controls keep the time within its bounds: from a time
/// between `MIN_TIME` and `MAX_TIME`, a step forward, a step backward and a
/// reset each lead to a time between `MIN_TIME` and `MAX_TIME`.
pub proof fn lemma_controls_keep_time_in_bounds(time: int)
    requires
        MIN_TIME <= time <= MAX_TIME,
    ensures
        MIN_TIME <= time_after_step_forward(time) <= MAX_TIME,
        MIN_TIME <= time_after_step_backward(time) <= MAX_TIME,
        MIN_TIME <= time_after_reset(time) <= MAX_TIME,
{
    assert(MAX_TIME as int % (UNIT as int) == 0);
}

} // verus!
