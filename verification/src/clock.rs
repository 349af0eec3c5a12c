//! Points in time, and the one place where the clock is read.

use vstd::prelude::*;

verus! {

/// A point in time: whole seconds since the start of 1970 in UTC, and the
/// nanoseconds since the last whole second.
#[derive(Clone, Copy, Debug, PartialEq, Eq, Structural)]
pub struct Timestamp {
    pub secs: i64,
    pub nanos: u32,
}

impl Timestamp {
    /// The point in time as one number of nanoseconds.
    pub open spec fn nanoseconds(self) -> int {
        self.secs * 1_000_000_000 + self.nanos
    }

    /// Whether this point in time lies after the point `millis` milliseconds
    /// before `now`.
    pub open spec fn within(self, millis: u64, now: Timestamp) -> bool {
        self.nanoseconds() > now.nanoseconds() - millis * 1_000_000
    }

    /// Whether this point in time lies less than `millis` milliseconds
    /// before `now`, or after it.
    pub fn is_within(&self, millis: u64, now: &Timestamp) -> (b: bool)
        ensures
            b == self.within(millis, *now),
    {
        let this: i128 = (self.secs as i128) * 1_000_000_000 + (self.nanos as i128);
        let that: i128 = (now.secs as i128) * 1_000_000_000 + (now.nanos as i128);
        let span: i128 = (millis as i128) * 1_000_000;
        this > that - span
    }
}

/// Reads the clock with `std::time::SystemTime::now`, turns the reading into
/// a `chrono::DateTime<Utc>` with chrono's `From<SystemTime>`, and takes that
/// apart with `DateTime::timestamp` and `DateTime::timestamp_subsec_nanos`.
/// Nothing is claimed of the time that comes back but that its nanoseconds
/// stay below a second, which is how the conversion builds it, before 1970
/// as well as after.
#[verifier::external_body]
pub(crate) fn utc_now() -> (now: Timestamp)
    ensures
        now.nanos < 1_000_000_000,
{
    let now = chrono::DateTime::<chrono::Utc>::from(std::time::SystemTime::now());
    Timestamp { secs: now.timestamp(), nanos: now.timestamp_subsec_nanos() }
}

} // verus!
