//! Points in time as the reconciliation engine reads them.
//!
//! The engine needs two things from a timestamp: which of two is later, and how
//! much time lies between them. Both are defined on one integer, the number of
//! nanoseconds since the Unix epoch.

use vstd::prelude::*;

verus! {

/// Nanoseconds in one second.
pub const NANOS_PER_SEC: i128 = 1_000_000_000;

/// Nanoseconds in one minute.
pub const NANOS_PER_MINUTE: i128 = 60_000_000_000;

/// A point in time: whole seconds since the Unix epoch and the nanoseconds past
/// that second.
#[derive(Clone, Copy, Debug, Default, PartialEq, Eq)]
pub struct Timestamp {
    pub secs: i64,
    pub nanos: u32,
}

/// The time from `then` to `now` in nanoseconds; negative when `then` lies in
/// the future of `now`.
pub open spec fn age(now: Timestamp, then: Timestamp) -> int {
    now.instant() - then.instant()
}

/// `minutes` minutes in nanoseconds.
pub open spec fn minutes(minutes: int) -> int {
    minutes * 60_000_000_000
}

impl Timestamp {
    /// The point in time as one number: nanoseconds since the Unix epoch.
    pub open spec fn instant(self) -> int {
        self.secs * 1_000_000_000 + self.nanos
    }

    /// A timestamp from its two parts.
    pub fn new(secs: i64, nanos: u32) -> (t: Timestamp)
        ensures
            t.secs == secs,
            t.nanos == nanos,
    {
        Timestamp { secs, nanos }
    }

    /// The current time of the system clock: a time after the Unix epoch,
    /// with less than a second of nanoseconds.
    pub fn now() -> (t: Timestamp)
        ensures
            t.secs >= 0,
            t.nanos < 1_000_000_000,
    {
        system_clock()
    }

    /// `instant()` as a machine integer.
    fn total_nanos(&self) -> (n: i128)
        ensures
            n == self.instant(),
    {
        (self.secs as i128) * NANOS_PER_SEC + (self.nanos as i128)
    }

    /// Whether `self` is strictly later than `other`.
    pub fn is_after(&self, other: &Timestamp) -> (r: bool)
        ensures
            r == (self.instant() > other.instant()),
    {
        self.total_nanos() > other.total_nanos()
    }

    /// Whether `self` and `other` denote the same point in time.
    pub fn is_same_instant(&self, other: &Timestamp) -> (r: bool)
        ensures
            r == (self.instant() == other.instant()),
    {
        self.total_nanos() == other.total_nanos()
    }

    /// Whether more than `limit` minutes have passed from `then` to `self`,
    /// to the nanosecond.
    pub fn is_older_than(&self, then: &Timestamp, limit: u128) -> (r: bool)
        ensures
            r == (age(*self, *then) > minutes(limit as int)),
    {
        if limit > 0xffff_ffff_ffff_ffff {
            return false;
        }
        let elapsed: i128 = self.total_nanos() - then.total_nanos();
        let bound: i128 = (limit as i128) * NANOS_PER_MINUTE;
        elapsed > bound
    }
}

/// Reads the system clock with `chrono::Local::now` and hands back the seconds
/// and the nanoseconds of that reading. Claimed of every reading: it lies at or
/// after the Unix epoch, and its nanoseconds stay below one second (the clock
/// knows no leap seconds).
#[verifier::external_body]
fn system_clock() -> (t: Timestamp)
    ensures
        t.secs >= 0,
        t.nanos < 1_000_000_000,
{
    let now = chrono::Local::now();
    Timestamp { secs: now.timestamp(), nanos: now.timestamp_subsec_nanos() }
}

} // verus!
