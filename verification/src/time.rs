//! Lengths of time and points in time, to the nanosecond.

use vstd::prelude::*;

verus! {

/// Nanoseconds in a second.
pub const NANOS_PER_SEC: u128 = 1_000_000_000;

/// Nanoseconds in a millisecond.
pub const NANOS_PER_MILLI: u128 = 1_000_000;

/// A length of time.
#[derive(Debug, Clone, Copy, PartialEq, Eq, PartialOrd, Ord, Hash, Structural)]
pub struct Duration {
    /// The length in nanoseconds.
    pub nanos: u128,
}

impl Duration {
    /// A whole number of seconds.
    pub open spec fn of_secs(secs: nat) -> Duration {
        Duration { nanos: (secs * NANOS_PER_SEC) as u128 }
    }

    /// A whole number of seconds.
    pub fn from_secs(secs: u64) -> (r: Duration)
        ensures
            r.nanos == secs * NANOS_PER_SEC,
            r == Duration::of_secs(secs as nat),
    {
        Duration { nanos: secs as u128 * NANOS_PER_SEC }
    }

    /// A whole number of milliseconds.
    pub fn from_millis(millis: u64) -> (r: Duration)
        ensures
            r.nanos == millis * NANOS_PER_MILLI,
    {
        Duration { nanos: millis as u128 * NANOS_PER_MILLI }
    }

    /// The whole seconds in this length, at most `u64::MAX`.
    pub open spec fn secs(self) -> u64 {
        if self.nanos / NANOS_PER_SEC > u64::MAX {
            u64::MAX
        } else {
            (self.nanos / NANOS_PER_SEC) as u64
        }
    }

    /// The whole seconds in this length, at most `u64::MAX`.
    pub fn as_secs(&self) -> (r: u64)
        ensures
            r == self.secs(),
    {
        let whole: u128 = self.nanos / NANOS_PER_SEC;
        if whole > u64::MAX as u128 {
            u64::MAX
        } else {
            whole as u64
        }
    }

    /// The whole milliseconds in this length.
    pub fn as_millis(&self) -> (r: u128)
        ensures
            r == self.nanos / NANOS_PER_MILLI,
    {
        self.nanos / NANOS_PER_MILLI
    }
}

/// What Rust's `Debug` writes for a `std::time::Duration` of this many seconds
/// and nanoseconds.
pub uninterp spec fn debug_duration(secs: u64, nanos: u32) -> Seq<char>;

/// `Debug` of `std::time::Duration`, by `format!` with `{:?}`: the text depends
/// on the length of time alone.
#[verifier::external_body]
fn debug_of_duration(secs: u64, nanos: u32) -> (r: String)
    requires
        nanos < NANOS_PER_SEC,
    ensures
        r@ == debug_duration(secs, nanos),
{
    format!("{:?}", std::time::Duration::new(secs, nanos))
}

impl Duration {
    /// The text that is written for this length, such as `60s` or `1.5s`.
    pub open spec fn text(self) -> Seq<char> {
        debug_duration(self.secs(), (self.nanos % NANOS_PER_SEC) as u32)
    }

    /// The text that is written for this length, such as `60s` or `1.5s`.
    pub fn to_text(&self) -> (r: String)
        ensures
            r@ == self.text(),
    {
        let rest: u128 = self.nanos % NANOS_PER_SEC;
        debug_of_duration(self.as_secs(), rest as u32)
    }
}

/// A point in time: nanoseconds since the Unix epoch.
#[derive(Debug, Clone, Copy, PartialEq, Eq, PartialOrd, Ord, Hash, Structural)]
pub struct Timestamp {
    /// Nanoseconds since the epoch; negative before it.
    pub nanos: i128,
}

impl Timestamp {
    /// The point in time after a length of time, or the last one there is.
    pub open spec fn after(self, d: Duration) -> Timestamp {
        if self.nanos + d.nanos > i128::MAX {
            Timestamp { nanos: i128::MAX }
        } else {
            Timestamp { nanos: (self.nanos + d.nanos) as i128 }
        }
    }

    /// The point in time after a length of time, or the last one there is.
    pub fn plus(&self, d: Duration) -> (r: Timestamp)
        ensures
            r == self.after(d),
    {
        if self.nanos >= 0 {
            let room: u128 = (i128::MAX - self.nanos) as u128;
            if d.nanos > room {
                Timestamp { nanos: i128::MAX }
            } else {
                Timestamp { nanos: self.nanos + d.nanos as i128 }
            }
        } else {
            let below: u128 = (-(self.nanos + 1)) as u128 + 1;
            if d.nanos < below {
                Timestamp { nanos: self.nanos + d.nanos as i128 }
            } else {
                let beyond: u128 = d.nanos - below;
                if beyond > i128::MAX as u128 {
                    Timestamp { nanos: i128::MAX }
                } else {
                    Timestamp { nanos: beyond as i128 }
                }
            }
        }
    }

    /// The length of time from an earlier point to this one; zero from a later
    /// one.
    pub open spec fn since(self, earlier: Timestamp) -> Duration {
        if self.nanos <= earlier.nanos {
            Duration { nanos: 0 }
        } else {
            Duration { nanos: (self.nanos - earlier.nanos) as u128 }
        }
    }

    /// The length of time from an earlier point to this one; zero from a later
    /// one.
    pub fn elapsed_since(&self, earlier: Timestamp) -> (r: Duration)
        ensures
            r == self.since(earlier),
    {
        if self.nanos <= earlier.nanos {
            Duration { nanos: 0 }
        } else if self.nanos < 0 || earlier.nanos >= 0 {
            Duration { nanos: (self.nanos - earlier.nanos) as u128 }
        } else {
            let below: u128 = (-(earlier.nanos + 1)) as u128 + 1;
            Duration { nanos: self.nanos as u128 + below }
        }
    }
}

/// A length of time in whole seconds has that many seconds, and a point in time is as
/// far from another as it comes behind it.
pub proof fn law_times_add_up(secs: u64, at: Timestamp, d: Duration)
    ensures
        Duration::of_secs(secs as nat).secs() == secs,
        Duration::of_secs(secs as nat).nanos == secs * 1_000_000_000,
        at.nanos + d.nanos <= i128::MAX ==> at.after(d).nanos == at.nanos + d.nanos
            && at.after(d).since(at) == d,
        at.since(at.after(d)).nanos == 0,
        d.secs() < u64::MAX ==> d.secs() * 1_000_000_000 <= d.nanos < (d.secs() + 1)
            * 1_000_000_000,
{
}

} // verus!
