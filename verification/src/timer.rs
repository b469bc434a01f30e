//! The drain timer's configuration and the schedule it stands for.

use vstd::prelude::*;

verus! {

/// The period, in time units, that a timer has when none is chosen.
pub const DEFAULT_DRAIN_PERIOD: u64 = 2;

/// A periodic clock: the first tick fires `initial_delay` time units after the
/// start, and one more fires every `period` after that.
#[derive(Clone, Copy, Debug, PartialEq, Eq)]
pub struct DrainTimer {
    pub initial_delay: u64,
    pub period: u64,
}

impl DrainTimer {
    /// The time, counted from the start, at which tick number `n` fires; the
    /// first tick is number 0.
    pub open spec fn tick_at(self, n: nat) -> nat {
        self.initial_delay as nat + n * self.period as nat
    }

    /// A timer with the given delay before its first tick and the given period.
    pub fn new(initial_delay: u64, period: u64) -> (timer: DrainTimer)
        ensures
            timer.initial_delay == initial_delay,
            timer.period == period,
    {
        DrainTimer { initial_delay, period }
    }

    /// A timer that waits one full period before its first tick, so that a relay
    /// does not drain an empty queue the moment it starts.
    pub fn every(period: u64) -> (timer: DrainTimer)
        ensures
            timer.initial_delay == period,
            timer.period == period,
    {
        DrainTimer { initial_delay: period, period }
    }

    /// The delay before the first tick.
    pub fn initial_delay(&self) -> (delay: u64)
        ensures
            delay == self.initial_delay,
    {
        self.initial_delay
    }

    /// The time between two ticks.
    pub fn period(&self) -> (period: u64)
        ensures
            period == self.period,
    {
        self.period
    }

    /// The time of tick number `n`, or `None` where that time does not fit in
    /// a `u64`.
    pub fn tick_time(&self, n: u64) -> (time: Option<u64>)
        ensures
            self.tick_at(n as nat) <= u64::MAX ==> time == Some(self.tick_at(n as nat) as u64),
            self.tick_at(n as nat) > u64::MAX ==> time is None,
    {
        match n.checked_mul(self.period) {
            Some(elapsed) => self.initial_delay.checked_add(elapsed),
            None => {
                assert(n as nat * self.period as nat > u64::MAX);
                None
            },
        }
    }
}

impl Default for DrainTimer {
    /// The timer that ticks every `DEFAULT_DRAIN_PERIOD`, the first time after
    /// one period.
    fn default() -> (timer: DrainTimer)
        ensures
            timer.initial_delay == DEFAULT_DRAIN_PERIOD,
            timer.period == DEFAULT_DRAIN_PERIOD,
    {
        DrainTimer { initial_delay: DEFAULT_DRAIN_PERIOD, period: DEFAULT_DRAIN_PERIOD }
    }
}

} // verus!
