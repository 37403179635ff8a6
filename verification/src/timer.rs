use vstd::prelude::*;

verus! {

/// An interval timer advanced by the caller once per simulation step. Times
/// are in microseconds.
///
/// A repeating timer reports `finished` on each step in which its interval
/// elapsed and keeps the remainder; a one-shot timer reports `finished` from
/// the step in which its interval elapsed until it is reset.
#[derive(Clone, Copy, Debug, PartialEq, Eq, Structural)]
pub struct Timer {
    pub elapsed: u64,
    pub interval: u64,
    pub one_shot: bool,
    pub finished: bool,
}

impl Timer {
    /// The timer after a step of `delta` microseconds.
    pub open spec fn ticked(self, delta: int) -> Timer {
        if self.one_shot && self.finished {
            self
        } else if self.elapsed + delta < self.interval {
            Timer { elapsed: (self.elapsed + delta) as u64, finished: false, ..self }
        } else if self.one_shot {
            Timer { elapsed: self.interval, finished: true, ..self }
        } else if self.interval == 0 {
            Timer { elapsed: 0, finished: true, ..self }
        } else {
            Timer { elapsed: ((self.elapsed + delta) % (self.interval as int)) as u64, finished: true, ..self }
        }
    }

    /// The timer wound back to zero.
    pub open spec fn rewound(self) -> Timer {
        Timer { elapsed: 0, finished: false, ..self }
    }

    /// The timer with a new interval and its progress kept.
    pub open spec fn with_interval(self, interval: u64) -> Timer {
        Timer { interval, ..self }
    }

    /// A repeating timer of the given interval, at zero.
    pub fn repeating(interval: u64) -> (timer: Timer)
        ensures
            timer == (Timer { elapsed: 0, interval, one_shot: false, finished: false }),
    {
        Timer { elapsed: 0, interval, one_shot: false, finished: false }
    }

    /// A one-shot timer of the given interval, at zero.
    pub fn once(interval: u64) -> (timer: Timer)
        ensures
            timer == (Timer { elapsed: 0, interval, one_shot: true, finished: false }),
    {
        Timer { elapsed: 0, interval, one_shot: true, finished: false }
    }

    /// Advances the timer by `delta` microseconds and reports whether its
    /// interval elapsed.
    pub fn tick(&mut self, delta: u64) -> (finished: bool)
        ensures
            *final(self) == old(self).ticked(delta as int),
            finished == final(self).finished,
    {
        if self.one_shot && self.finished {
            return true;
        }
        let total: u128 = self.elapsed as u128 + delta as u128;
        if total < self.interval as u128 {
            self.elapsed = total as u64;
            self.finished = false;
        } else if self.one_shot {
            self.elapsed = self.interval;
            self.finished = true;
        } else if self.interval == 0 {
            self.elapsed = 0;
            self.finished = true;
        } else {
            self.elapsed = (total % (self.interval as u128)) as u64;
            self.finished = true;
        }
        self.finished
    }

    /// Winds the timer back to zero.
    pub fn reset(&mut self)
        ensures
            *final(self) == old(self).rewound(),
    {
        self.elapsed = 0;
        self.finished = false;
    }

    /// Changes the interval and keeps the progress made so far.
    pub fn set_duration(&mut self, interval: u64)
        ensures
            *final(self) == old(self).with_interval(interval),
    {
        self.interval = interval;
    }
}

/// A step of zero length leaves a timer that has not finished as it is: a
/// paused game, which makes no steps, keeps its timers in place.
pub proof fn lemma_tick_zero(t: Timer)
    requires
        t.elapsed < t.interval,
        !t.finished,
    ensures
        t.ticked(0) == t,
{
}

/// After a step a repeating timer with a positive interval holds less than
/// one interval, and it reports `finished` exactly if the time it held plus
/// the step reached the interval.
pub proof fn lemma_tick_repeating(t: Timer, delta: int)
    requires
        !t.one_shot,
        t.interval > 0,
        0 <= delta,
    ensures
        t.ticked(delta).elapsed < t.interval,
        t.ticked(delta).finished == (t.elapsed + delta >= t.interval),
        t.ticked(delta).interval == t.interval,
{
}

} // verus!
