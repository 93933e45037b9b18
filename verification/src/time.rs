//! Points in time, as seconds and nanoseconds since the Unix epoch in UTC.

use vstd::prelude::*;

verus! {

/// A point in time. Two timestamps are ordered by their seconds, then by
/// their nanoseconds.
#[derive(Debug, Clone, Copy, PartialEq, Eq, Structural)]
pub struct Timestamp {
    pub secs: i64,
    pub nanos: u32,
}

impl Timestamp {
    /// Strictly earlier.
    pub open spec fn spec_is_before(self, other: Timestamp) -> bool {
        self.secs < other.secs || (self.secs == other.secs && self.nanos < other.nanos)
    }

    /// Earlier or the same.
    pub open spec fn spec_not_after(self, other: Timestamp) -> bool {
        !other.spec_is_before(self)
    }

    /// The later of two timestamps.
    pub open spec fn spec_later(self, other: Timestamp) -> Timestamp {
        if self.spec_is_before(other) {
            other
        } else {
            self
        }
    }

    /// This time moved forward by a number of seconds, stopping at the
    /// last second that can be told.
    pub open spec fn spec_plus_seconds(self, seconds: u32) -> Timestamp {
        if self.secs + seconds > i64::MAX {
            Timestamp { secs: i64::MAX, nanos: self.nanos }
        } else {
            Timestamp { secs: (self.secs + seconds) as i64, nanos: self.nanos }
        }
    }

    pub fn new(secs: i64, nanos: u32) -> (t: Timestamp)
        ensures
            t == (Timestamp { secs, nanos }),
    {
        Timestamp { secs, nanos }
    }

    #[verifier::when_used_as_spec(spec_is_before)]
    pub fn is_before(self, other: Timestamp) -> (before: bool)
        ensures
            before == self.spec_is_before(other),
    {
        self.secs < other.secs || (self.secs == other.secs && self.nanos < other.nanos)
    }

    #[verifier::when_used_as_spec(spec_not_after)]
    pub fn not_after(self, other: Timestamp) -> (r: bool)
        ensures
            r == self.spec_not_after(other),
    {
        !other.is_before(self)
    }

    #[verifier::when_used_as_spec(spec_later)]
    pub fn later(self, other: Timestamp) -> (t: Timestamp)
        ensures
            t == self.spec_later(other),
    {
        if self.is_before(other) {
            other
        } else {
            self
        }
    }

    #[verifier::when_used_as_spec(spec_plus_seconds)]
    pub fn plus_seconds(self, seconds: u32) -> (t: Timestamp)
        ensures
            t == self.spec_plus_seconds(seconds),
    {
        if self.secs > i64::MAX - (seconds as i64) {
            Timestamp { secs: i64::MAX, nanos: self.nanos }
        } else {
            Timestamp { secs: self.secs + (seconds as i64), nanos: self.nanos }
        }
    }
}

} // verus!
