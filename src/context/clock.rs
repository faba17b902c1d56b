use vstd::prelude::*;
use std::time::Instant;

verus! {

#[verifier::external_type_specification]
#[verifier::external_body]
pub struct ExInstant(Instant);

/// Relies on `Instant::now`: a reading of the monotonic clock. Nothing is
/// stated of its value.
#[verifier::external_body]
fn now() -> Instant {
    Instant::now()
}

/// Relies on `Instant::elapsed`, read in nanoseconds: the time since `start`,
/// which depends on when it is called. Nothing is stated of its value.
#[verifier::external_body]
fn nanos_since(start: &Instant) -> u128 {
    start.elapsed().as_nanos()
}

/// Game time: wall-clock time since creation, less the time spent paused.
/// Times are nanoseconds since creation.
pub struct Clock {
    start: Instant,
    pause_duration: u128,
    time_of_pause: Option<u128>,
}

/// What a [`Clock`] records besides its starting instant.
pub struct ClockModel {
    /// Total length of the pauses that have ended.
    pub pause_duration: u128,
    /// When the current pause began, while paused.
    pub time_of_pause: Option<u128>,
}

impl View for Clock {
    type V = ClockModel;

    closed spec fn view(&self) -> ClockModel {
        ClockModel { pause_duration: self.pause_duration, time_of_pause: self.time_of_pause }
    }
}

/// `a - b`, or zero where `b` is larger.
pub open spec fn minus(a: int, b: int) -> int {
    if a >= b {
        a - b
    } else {
        0
    }
}

/// `a + b`, or the largest `u128` where the sum does not fit.
pub open spec fn plus(a: int, b: int) -> int {
    if a + b <= u128::MAX {
        a + b
    } else {
        u128::MAX as int
    }
}

impl ClockModel {
    /// Game time at time `now`: while paused, it stands where the pause began.
    pub open spec fn game_time_at(self, now: int) -> int {
        match self.time_of_pause {
            Some(t) => minus(minus(now, self.pause_duration as int), minus(now, t as int)),
            None => minus(now, self.pause_duration as int),
        }
    }
}

impl Clock {
    pub fn new() -> (c: Clock)
        ensures
            c@.pause_duration == 0,
            c@.time_of_pause is None,
    {
        Clock { start: now(), pause_duration: 0, time_of_pause: None }
    }

    /// Starts a pause at time `now`, unless one is under way.
    pub fn pause_at(&mut self, now: u128)
        ensures
            final(self)@.pause_duration == old(self)@.pause_duration,
            final(self)@.time_of_pause == match old(self)@.time_of_pause {
                Some(t) => Some(t),
                None => Some(now),
            },
    {
        if self.time_of_pause.is_none() {
            self.time_of_pause = Some(now);
        }
    }

    /// Ends the current pause, if any, at time `now`, adding its length to the
    /// paused total.
    pub fn resume_at(&mut self, now: u128)
        ensures
            final(self)@.time_of_pause is None,
            final(self)@.pause_duration == match old(self)@.time_of_pause {
                Some(t) => plus(old(self)@.pause_duration as int, minus(now as int, t as int)),
                None => old(self)@.pause_duration as int,
            },
    {
        if let Some(instant) = self.time_of_pause {
            let paused = now.saturating_sub(instant);
            self.pause_duration = self.pause_duration.saturating_add(paused);
            self.time_of_pause = None;
        }
    }

    /// Game time, in nanoseconds, at time `now`.
    pub fn game_time_at(&self, now: u128) -> (r: u128)
        ensures
            r == self@.game_time_at(now as int),
    {
        let duration = now.saturating_sub(self.pause_duration);
        match self.time_of_pause {
            Some(instant) => duration.saturating_sub(now.saturating_sub(instant)),
            None => duration,
        }
    }

    pub fn pause(&mut self)
        ensures
            final(self)@.pause_duration == old(self)@.pause_duration,
            old(self)@.time_of_pause is Some ==> final(self)@.time_of_pause == old(self)@.time_of_pause,
            final(self)@.time_of_pause is Some,
    {
        if self.time_of_pause.is_some() {
            return;
        }
        let t = nanos_since(&self.start);
        self.pause_at(t);
    }

    pub fn resume(&mut self)
        ensures
            final(self)@.time_of_pause is None,
            old(self)@.time_of_pause is None ==> final(self)@.pause_duration == old(self)@.pause_duration,
            old(self)@.time_of_pause is Some ==> final(self)@.pause_duration >= old(self)@.pause_duration,
    {
        if self.time_of_pause.is_none() {
            return;
        }
        let t = nanos_since(&self.start);
        self.resume_at(t);
    }

    pub fn is_paused(&self) -> (r: bool)
        ensures
            r == self@.time_of_pause is Some,
    {
        self.time_of_pause.is_some()
    }

    /// Game time now, in nanoseconds.
    pub fn game_time(&self) -> (r: u128)
        ensures
            exists|now: int| 0 <= now <= u128::MAX && r == self@.game_time_at(now),
    {
        let t = nanos_since(&self.start);
        self.game_time_at(t)
    }
}

} // verus!
