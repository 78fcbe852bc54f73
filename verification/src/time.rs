use std::time::{Duration, SystemTime, UNIX_EPOCH};

use vstd::prelude::*;

verus! {

#[verifier::external_type_specification]
#[verifier::external_body]
pub struct ExSystemTime(SystemTime);

/// Calls `SystemTime::now`: the system clock's current time, which nothing here can predict.
#[verifier::external_body]
fn system_now() -> (r: SystemTime) {
    SystemTime::now()
}

/// Calls `SystemTime::duration_since` with the Unix epoch as the earlier time: the time since
/// the epoch, or `None` when `t` lies before it. It rests on the clock's reading, so nothing is
/// stated of the result.
#[verifier::external_body]
fn since_unix_epoch(t: SystemTime) -> (r: Option<Duration>) {
    t.duration_since(UNIX_EPOCH).ok()
}

/// Calls `Duration::as_nanos`: the whole nanoseconds of `d`. Durations are opaque here, so
/// nothing is stated of the result.
#[verifier::external_body]
fn duration_nanos(d: Duration) -> (r: u128) {
    d.as_nanos()
}

/// A length of time in nanoseconds.
#[derive(Clone, Copy, Debug, PartialEq, Eq, Structural, Hash)]
pub struct TimeSpan {
    pub nanos: u128,
}

impl TimeSpan {
    pub fn from_nanos(nanos: u128) -> (r: Self)
        ensures
            r.nanos == nanos,
    {
        TimeSpan { nanos }
    }

    pub fn from_millis(millis: u64) -> (r: Self)
        ensures
            r.nanos == millis * 1_000_000,
    {
        TimeSpan { nanos: millis as u128 * 1_000_000 }
    }

    pub fn from_secs(secs: u64) -> (r: Self)
        ensures
            r.nanos == secs * 1_000_000_000,
    {
        TimeSpan { nanos: secs as u128 * 1_000_000_000 }
    }

    /// No time at all.
    pub fn zero() -> (r: Self)
        ensures
            r.nanos == 0,
    {
        TimeSpan { nanos: 0 }
    }

    pub fn as_nanos(&self) -> (r: u128)
        ensures
            r == self.nanos,
    {
        self.nanos
    }
}

/// A point in time, in nanoseconds since the Unix epoch.
#[derive(Clone, Copy, Debug, PartialEq, Eq, Structural, Hash)]
pub struct Moment {
    pub nanos: u128,
}

impl Moment {
    /// The nanoseconds from `earlier` to `self`, zero when `earlier` is later.
    pub open spec fn spec_since(self, earlier: Moment) -> int {
        if self.nanos >= earlier.nanos {
            self.nanos - earlier.nanos
        } else {
            0
        }
    }

    pub fn from_nanos(nanos: u128) -> (r: Self)
        ensures
            r.nanos == nanos,
    {
        Moment { nanos }
    }

    /// The system clock's current reading (the epoch itself when the clock reads earlier).
    pub fn now() -> Self {
        match since_unix_epoch(system_now()) {
            Some(d) => Moment { nanos: duration_nanos(d) },
            None => Moment { nanos: 0 },
        }
    }

    /// The time from `earlier` to `self`, zero when `earlier` is later.
    pub fn saturating_duration_since(self, earlier: Moment) -> (r: TimeSpan)
        ensures
            r.nanos == self.spec_since(earlier),
    {
        if self.nanos >= earlier.nanos {
            TimeSpan { nanos: self.nanos - earlier.nanos }
        } else {
            TimeSpan { nanos: 0 }
        }
    }

    /// `self` moved on by `span`, saturating at the largest moment.
    pub fn saturating_add(self, span: TimeSpan) -> (r: Moment)
        ensures
            r.nanos == if self.nanos + span.nanos > u128::MAX {
                u128::MAX as int
            } else {
                self.nanos + span.nanos
            },
    {
        Moment { nanos: self.nanos.saturating_add(span.nanos) }
    }
}

} // verus!
