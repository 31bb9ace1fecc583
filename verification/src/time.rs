//! Points in time on the monotonic clock and the spans between them.
//!
//! Both are held as whole seconds and nanoseconds, the form in which the
//! clock reports them.

use vstd::prelude::*;

verus! {

/// The nanoseconds of one second.
pub const NANOS_PER_SEC: u32 = 1_000_000_000;

/// A length of time.
#[derive(Clone, Copy, Debug, PartialEq, Eq, Structural)]
pub struct TimeSpan {
    pub secs: u64,
    pub nanos: u32,
}

impl TimeSpan {
    /// The nanosecond part is less than one second.
    pub open spec fn wf(self) -> bool {
        self.nanos < NANOS_PER_SEC
    }

    /// The span in nanoseconds.
    pub open spec fn total_nanos(self) -> nat {
        (self.secs * NANOS_PER_SEC + self.nanos) as nat
    }

    /// The span of `secs` seconds and `nanos` nanoseconds.
    pub fn new(secs: u64, nanos: u32) -> (d: TimeSpan)
        requires
            nanos < NANOS_PER_SEC,
        ensures
            d == (TimeSpan { secs, nanos }),
            d.wf(),
    {
        TimeSpan { secs, nanos }
    }

    /// Whether the value is well formed.
    pub fn is_wf(&self) -> (b: bool)
        ensures
            b == self.wf(),
    {
        self.nanos < NANOS_PER_SEC
    }

    /// The span in nanoseconds.
    pub fn as_nanos(&self) -> (n: u128)
        ensures
            n == self.total_nanos(),
    {
        self.secs as u128 * 1_000_000_000u128 + self.nanos as u128
    }
}

/// A reading of the monotonic clock.
#[derive(Clone, Copy, Debug, PartialEq, Eq, Structural)]
pub struct MonotonicTime {
    pub secs: u64,
    pub nanos: u32,
}

impl MonotonicTime {
    /// The nanosecond part is less than one second and the seconds fit the
    /// clock's signed counter.
    pub open spec fn wf(self) -> bool {
        self.nanos < NANOS_PER_SEC && self.secs <= i64::MAX
    }

    /// Nanoseconds since the clock's origin.
    pub open spec fn total_nanos(self) -> nat {
        (self.secs * NANOS_PER_SEC + self.nanos) as nat
    }

    /// The nanoseconds from `self` until `later`; zero where `later` is not
    /// later.
    pub open spec fn nanos_until(self, later: MonotonicTime) -> nat {
        if later.total_nanos() >= self.total_nanos() {
            (later.total_nanos() - self.total_nanos()) as nat
        } else {
            0
        }
    }

    /// The reading `secs` seconds and `nanos` nanoseconds after the origin.
    pub fn new(secs: u64, nanos: u32) -> (t: MonotonicTime)
        requires
            nanos < NANOS_PER_SEC,
            secs <= i64::MAX,
        ensures
            t == (MonotonicTime { secs, nanos }),
            t.wf(),
    {
        MonotonicTime { secs, nanos }
    }

    /// Whether the value is well formed.
    pub fn is_wf(&self) -> (b: bool)
        ensures
            b == self.wf(),
    {
        self.nanos < NANOS_PER_SEC && self.secs <= 0x7fff_ffff_ffff_ffff
    }

    /// The time that a reading of the clock stands for: a part of the
    /// reading that lies below its range counts as zero, and a nanosecond
    /// part above its range as the last nanosecond of the second.
    pub open spec fn spec_from_timespec(tv_sec: i64, tv_nsec: i64) -> MonotonicTime {
        MonotonicTime {
            secs: if tv_sec < 0 {
                0
            } else {
                tv_sec as u64
            },
            nanos: if tv_nsec < 0 {
                0
            } else if tv_nsec >= NANOS_PER_SEC {
                (NANOS_PER_SEC - 1) as u32
            } else {
                tv_nsec as u32
            },
        }
    }

    /// The time that a reading of the clock, in seconds and nanoseconds,
    /// stands for.
    pub fn from_timespec(tv_sec: i64, tv_nsec: i64) -> (t: MonotonicTime)
        ensures
            t == Self::spec_from_timespec(tv_sec, tv_nsec),
            t.wf(),
    {
        let secs: u64 = if tv_sec < 0 {
            0
        } else {
            tv_sec as u64
        };
        let nanos: u32 = if tv_nsec < 0 {
            0
        } else if tv_nsec >= 1_000_000_000 {
            999_999_999
        } else {
            tv_nsec as u32
        };
        MonotonicTime { secs, nanos }
    }

    /// The current reading of the monotonic clock.
    pub fn now() -> (t: MonotonicTime)
        ensures
            t.wf(),
    {
        let reading = clock_gettime_monotonic();
        MonotonicTime::from_timespec(reading.0, reading.1)
    }

    /// The span from `self` until `later`; zero where `later` is not later.
    pub fn elapsed(&self, later: MonotonicTime) -> (d: TimeSpan)
        requires
            self.wf(),
            later.wf(),
        ensures
            d.wf(),
            d.total_nanos() == self.nanos_until(later),
    {
        if later.secs > self.secs {
            if later.nanos >= self.nanos {
                TimeSpan { secs: later.secs - self.secs, nanos: later.nanos - self.nanos }
            } else {
                TimeSpan { secs: later.secs - self.secs - 1, nanos: later.nanos + NANOS_PER_SEC - self.nanos }
            }
        } else if later.secs == self.secs && later.nanos >= self.nanos {
            TimeSpan { secs: 0, nanos: later.nanos - self.nanos }
        } else {
            TimeSpan { secs: 0, nanos: 0 }
        }
    }
}

/// `rustix::time::clock_gettime` on the monotonic clock: the seconds and the
/// nanoseconds of the reading. The reading differs from call to call, and
/// nothing is claimed of it.
#[verifier::external_body]
fn clock_gettime_monotonic() -> (reading: (i64, i64)) {
    let tp = rustix::time::clock_gettime(rustix::time::ClockId::Monotonic);
    (tp.tv_sec, tp.tv_nsec)
}

} // verus!
