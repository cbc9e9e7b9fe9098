use vstd::prelude::*;

use crate::clock::{clamp_i64, now_millis, saturating_add_i64, saturating_sub_i64};

verus! {

/// Where a stopwatch is in its lifecycle.
#[derive(Debug, Clone, Copy, PartialEq, Eq, Structural)]
pub enum TimerState {
    NotStarted,
    Running,
    Paused,
    Ended,
}

/// A wall-clock stopwatch. `start_time` marks when the current running
/// interval began; `elapsed` holds the time of all earlier intervals.
#[derive(Debug, Clone, Copy)]
pub struct Timer {
    pub state: TimerState,
    pub start_time: Option<i64>,
    pub elapsed: i64,
}

impl Timer {
    /// A stopwatch that has not been started.
    pub open spec fn initial() -> Timer {
        Timer { state: TimerState::NotStarted, start_time: None, elapsed: 0 }
    }

    /// What the stopwatch reads when the clock shows `now`.
    pub open spec fn reading_at(self, now: i64) -> int {
        match (self.state, self.start_time) {
            (TimerState::Running, Some(start)) => clamp_i64(clamp_i64(now - start) + self.elapsed),
            _ => self.elapsed as int,
        }
    }

    /// The stopwatch after starting fresh at `now`, with its start placed
    /// `offset` milliseconds before `now`.
    pub open spec fn started_at(self, now: i64, offset: i64) -> Timer {
        Timer {
            state: TimerState::Running,
            start_time: Some(clamp_i64(now - offset) as i64),
            elapsed: 0,
        }
    }

    /// The stopwatch after (re)starting its running interval at `now`,
    /// keeping the time accumulated so far.
    pub open spec fn resumed_at(self, now: i64) -> Timer {
        Timer { state: TimerState::Running, start_time: Some(now), elapsed: self.elapsed }
    }

    /// Whether the stopwatch has a running interval exactly while it runs.
    pub open spec fn wf(self) -> bool {
        (self.state == TimerState::Running) == (self.start_time is Some)
    }

    /// The stopwatch after pausing at `now`: while it runs, the running
    /// interval is folded into `elapsed`; in any other state nothing changes.
    pub open spec fn paused_at(self, now: i64) -> Timer {
        if self.state == TimerState::Running {
            Timer {
                state: TimerState::Paused,
                start_time: None,
                elapsed: match self.start_time {
                    Some(start) => clamp_i64(clamp_i64(now - start) + self.elapsed) as i64,
                    None => self.elapsed,
                },
            }
        } else {
            self
        }
    }

    pub fn new() -> (r: Timer)
        ensures
            r == Timer::initial(),
            r.wf(),
    {
        Timer { state: TimerState::NotStarted, start_time: None, elapsed: 0 }
    }

    /// Starts the stopwatch at clock time `now` so that it reads `offset_millis`
    /// right away.
    pub fn start_with_offset_at(&mut self, now: i64, offset_millis: i64)
        ensures
            *final(self) == old(self).started_at(now, offset_millis),
            final(self).wf(),
    {
        self.start_time = Some(saturating_sub_i64(now, offset_millis));
        self.elapsed = 0;
        self.state = TimerState::Running;
    }

    /// Starts the stopwatch now, with its start placed `offset_millis` in the past.
    pub fn start_with_offset(&mut self, offset_millis: i64)
        ensures
            exists|now: i64| now >= 0 && *final(self) == old(self).started_at(now, offset_millis),
    {
        let now = now_millis();
        self.start_with_offset_at(now, offset_millis);
    }

    /// Begins a running interval at clock time `now`.
    pub fn start_at(&mut self, now: i64)
        ensures
            *final(self) == old(self).resumed_at(now),
            final(self).wf(),
    {
        self.start_time = Some(now);
        self.state = TimerState::Running;
    }

    /// Begins a running interval now.
    pub fn start(&mut self)
        ensures
            exists|now: i64| now >= 0 && *final(self) == old(self).resumed_at(now),
    {
        let now = now_millis();
        self.start_at(now);
    }

    /// Pauses at clock time `now`; a no-op unless the stopwatch runs.
    pub fn pause_at(&mut self, now: i64)
        ensures
            *final(self) == old(self).paused_at(now),
            old(self).wf() ==> final(self).wf(),
    {
        if self.state == TimerState::Running {
            if let Some(start) = self.start_time {
                self.elapsed = saturating_add_i64(saturating_sub_i64(now, start), self.elapsed);
            }
            self.start_time = None;
            self.state = TimerState::Paused;
        }
    }

    /// Pauses now; a no-op unless the stopwatch runs.
    pub fn pause(&mut self)
        ensures
            exists|now: i64| now >= 0 && *final(self) == old(self).paused_at(now),
            old(self).state != TimerState::Running ==> *final(self) == *old(self),
            old(self).wf() ==> final(self).wf(),
    {
        let now = now_millis();
        self.pause_at(now);
    }

    /// Returns the stopwatch to its initial state.
    pub fn reset(&mut self)
        ensures
            *final(self) == Timer::initial(),
            final(self).wf(),
    {
        self.start_time = None;
        self.elapsed = 0;
        self.state = TimerState::NotStarted;
    }

    /// What the stopwatch reads at clock time `now`.
    pub fn current_time_at(&self, now: i64) -> (r: i64)
        ensures
            r == self.reading_at(now),
    {
        match self.state {
            TimerState::Running => {
                if let Some(start) = self.start_time {
                    saturating_add_i64(saturating_sub_i64(now, start), self.elapsed)
                } else {
                    self.elapsed
                }
            },
            _ => self.elapsed,
        }
    }

    /// What the stopwatch reads now.
    pub fn current_time(&self) -> (r: i64)
        ensures
            exists|now: i64| now >= 0 && r == self.reading_at(now),
            self.state != TimerState::Running ==> r == self.elapsed,
    {
        let now = now_millis();
        self.current_time_at(now)
    }

    pub fn is_running(&self) -> (r: bool)
        ensures
            r == (self.state == TimerState::Running),
    {
        self.state == TimerState::Running
    }

    pub fn is_paused(&self) -> (r: bool)
        ensures
            r == (self.state == TimerState::Paused),
    {
        self.state == TimerState::Paused
    }

    pub fn is_ended(&self) -> (r: bool)
        ensures
            r == (self.state == TimerState::Ended),
    {
        self.state == TimerState::Ended
    }
}

/// Pausing twice in a row leaves the stopwatch as pausing once does, so it
/// reads the same at every later clock time.
pub proof fn lemma_pause_idempotent(t: Timer, first: i64, second: i64, later: i64)
    ensures
        t.paused_at(first).paused_at(second) == t.paused_at(first),
        t.paused_at(first).paused_at(second).reading_at(later) == t.paused_at(first).reading_at(later),
{
}

/// Started with an offset, the stopwatch reads exactly that offset at the
/// instant it starts (the start is placed `offset` before the clock time,
/// which must itself be a representable instant).
pub proof fn lemma_start_reads_offset(t: Timer, now: i64, offset: i64)
    requires
        i64::MIN <= now - offset <= i64::MAX,
    ensures
        t.started_at(now, offset).reading_at(now) == offset,
{
}

/// While running, the reading never goes down as the clock moves forward.
pub proof fn lemma_running_reading_monotonic(t: Timer, now1: i64, now2: i64)
    requires
        now1 <= now2,
    ensures
        t.reading_at(now1) <= t.reading_at(now2),
{
}

} // verus!
