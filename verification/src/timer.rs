//! Times as the system calls exchange them, and the clock they are read from.

use vstd::prelude::*;

use crate::config::{CLOCK_FREQ, NSEC_PER_TICK, TICKS_PER_USEC};

verus! {

pub const MSEC_PER_SEC: usize = 1000;

pub const USEC_PER_SEC: usize = 1_000_000;

pub const NSEC_PER_SEC: usize = 1_000_000_000;

/// Seconds and nanoseconds.
#[derive(Clone, Copy, Debug, PartialEq, Eq, Structural)]
pub struct TimeSpec {
    pub tv_sec: usize,
    pub tv_nsec: usize,
}

/// Seconds and microseconds.
#[derive(Clone, Copy, Debug, PartialEq, Eq, Structural)]
pub struct TimeVal {
    pub tv_sec: usize,
    pub tv_usec: usize,
}

/// An interval timer: the period it reloads with and the time left.
#[derive(Clone, Copy, Debug, PartialEq, Eq, Structural)]
pub struct ITimerVal {
    pub it_interval: TimeVal,
    pub it_value: TimeVal,
}

/// Process times, in clock ticks.
#[derive(Clone, Copy, Debug, PartialEq, Eq, Structural)]
pub struct Times {
    pub tms_utime: usize,
    pub tms_stime: usize,
    pub tms_cutime: usize,
    pub tms_cstime: usize,
}

impl TimeSpec {
    /// The time in nanoseconds.
    pub open spec fn nanos(self) -> int {
        self.tv_sec * NSEC_PER_SEC + self.tv_nsec
    }

    /// The nanoseconds are less than a second.
    pub open spec fn normal(self) -> bool {
        self.tv_nsec < NSEC_PER_SEC
    }

    /// The time that the clock shows after `ticks` ticks.
    pub open spec fn spec_from_ticks(ticks: usize) -> TimeSpec {
        TimeSpec {
            tv_sec: ticks / CLOCK_FREQ,
            tv_nsec: ((ticks % CLOCK_FREQ) * NSEC_PER_TICK) as usize,
        }
    }

    /// The sum of two normal times, where its seconds fit in a `usize`.
    pub open spec fn spec_checked_add(self, other: TimeSpec) -> Option<TimeSpec> {
        if self.normal() && other.normal() && (self.nanos() + other.nanos()) / (
        NSEC_PER_SEC as int) <= usize::MAX {
            Some(
                TimeSpec {
                    tv_sec: ((self.nanos() + other.nanos()) / (NSEC_PER_SEC as int)) as usize,
                    tv_nsec: ((self.nanos() + other.nanos()) % (NSEC_PER_SEC as int)) as usize,
                },
            )
        } else {
            None
        }
    }

    /// The time from `other` to `self`; zero where `other` is the later.
    pub open spec fn spec_saturating_sub(self, other: TimeSpec) -> TimeSpec {
        if self.nanos() <= other.nanos() {
            TimeSpec { tv_sec: 0, tv_nsec: 0 }
        } else {
            TimeSpec {
                tv_sec: ((self.nanos() - other.nanos()) / (NSEC_PER_SEC as int)) as usize,
                tv_nsec: ((self.nanos() - other.nanos()) % (NSEC_PER_SEC as int)) as usize,
            }
        }
    }

    /// The zero time.
    pub fn new() -> (r: Self)
        ensures
            r == (TimeSpec { tv_sec: 0, tv_nsec: 0 }),
    {
        TimeSpec { tv_sec: 0, tv_nsec: 0 }
    }

    /// The time that the clock shows after `ticks` ticks.
    pub fn from_ticks(ticks: usize) -> (r: Self)
        ensures
            r == Self::spec_from_ticks(ticks),
            r.normal(),
    {
        TimeSpec {
            tv_sec: ticks / CLOCK_FREQ,
            tv_nsec: (ticks % CLOCK_FREQ) * NSEC_PER_TICK,
        }
    }

    /// Whether `self` is not later than `other`, both normal.
    pub fn le(&self, other: &TimeSpec) -> (r: bool)
        requires
            self.normal(),
            other.normal(),
        ensures
            r == (self.nanos() <= other.nanos()),
    {
        self.tv_sec < other.tv_sec || (self.tv_sec == other.tv_sec && self.tv_nsec
            <= other.tv_nsec)
    }

    /// The sum of two times; `None` where one of them is not normal or the
    /// seconds of the sum do not fit.
    pub fn checked_add(&self, other: &TimeSpec) -> (r: Option<TimeSpec>)
        ensures
            r == self.spec_checked_add(*other),
            r is Some ==> r.unwrap().normal() && r.unwrap().nanos() == self.nanos()
                + other.nanos(),
    {
        if self.tv_nsec >= NSEC_PER_SEC || other.tv_nsec >= NSEC_PER_SEC {
            return None;
        }
        let nsec = self.tv_nsec + other.tv_nsec;
        let carry: usize = if nsec >= NSEC_PER_SEC {
            1
        } else {
            0
        };
        let nsec = if nsec >= NSEC_PER_SEC {
            nsec - NSEC_PER_SEC
        } else {
            nsec
        };
        match self.tv_sec.checked_add(other.tv_sec) {
            Some(sec) => match sec.checked_add(carry) {
                Some(sec) => Some(TimeSpec { tv_sec: sec, tv_nsec: nsec }),
                None => None,
            },
            None => None,
        }
    }

    /// The time from `other` to `self`, both normal; zero where `other` is
    /// the later.
    pub fn saturating_sub(&self, other: &TimeSpec) -> (r: TimeSpec)
        requires
            self.normal(),
            other.normal(),
        ensures
            r == self.spec_saturating_sub(*other),
            r.normal(),
    {
        if self.le(other) {
            TimeSpec { tv_sec: 0, tv_nsec: 0 }
        } else if self.tv_nsec >= other.tv_nsec {
            TimeSpec { tv_sec: self.tv_sec - other.tv_sec, tv_nsec: self.tv_nsec - other.tv_nsec }
        } else {
            TimeSpec {
                tv_sec: self.tv_sec - other.tv_sec - 1,
                tv_nsec: self.tv_nsec + NSEC_PER_SEC - other.tv_nsec,
            }
        }
    }
}

impl TimeVal {
    /// The time that the clock shows after `ticks` ticks.
    pub open spec fn spec_from_ticks(ticks: usize) -> TimeVal {
        TimeVal {
            tv_sec: ticks / CLOCK_FREQ,
            tv_usec: (ticks % CLOCK_FREQ) / TICKS_PER_USEC,
        }
    }

    /// The ticks that the clock makes in this time; the largest number
    /// where they do not fit.
    pub open spec fn spec_to_tick(self) -> usize {
        let ticks = self.tv_sec * CLOCK_FREQ + self.tv_usec * TICKS_PER_USEC;
        if ticks <= usize::MAX {
            ticks as usize
        } else {
            usize::MAX
        }
    }

    /// The zero time.
    pub fn new() -> (r: Self)
        ensures
            r == (TimeVal { tv_sec: 0, tv_usec: 0 }),
    {
        TimeVal { tv_sec: 0, tv_usec: 0 }
    }

    /// The time that the clock shows after `ticks` ticks.
    pub fn from_ticks(ticks: usize) -> (r: Self)
        ensures
            r == Self::spec_from_ticks(ticks),
    {
        TimeVal {
            tv_sec: ticks / CLOCK_FREQ,
            tv_usec: (ticks % CLOCK_FREQ) / TICKS_PER_USEC,
        }
    }

    /// The ticks that the clock makes in this time; the largest number
    /// where they do not fit.
    pub fn to_tick(&self) -> (r: usize)
        ensures
            r == self.spec_to_tick(),
    {
        let whole = self.tv_sec.checked_mul(CLOCK_FREQ);
        let part = self.tv_usec.checked_mul(TICKS_PER_USEC);
        match (whole, part) {
            (Some(w), Some(p)) => match w.checked_add(p) {
                Some(t) => t,
                None => usize::MAX,
            },
            _ => usize::MAX,
        }
    }
}

impl ITimerVal {
    /// A timer that is not armed.
    pub fn new() -> (r: Self)
        ensures
            r == (ITimerVal {
                it_interval: TimeVal { tv_sec: 0, tv_usec: 0 },
                it_value: TimeVal { tv_sec: 0, tv_usec: 0 },
            }),
    {
        ITimerVal { it_interval: TimeVal::new(), it_value: TimeVal::new() }
    }
}

} // verus!
