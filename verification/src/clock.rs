//! Time as plain numbers: readings of a monotonic clock and spans between them.

use vstd::prelude::*;

verus! {

/// A span of time in whole nanoseconds.
#[derive(Debug, Clone, Copy, PartialEq, Eq, PartialOrd, Ord, Hash, Structural)]
pub struct Duration {
    pub nanos: u128,
}

/// A reading of a monotonic clock: nanoseconds since an origin that the owner
/// of the clock fixes once. Readings of one clock can be compared.
#[derive(Debug, Clone, Copy, PartialEq, Eq, PartialOrd, Ord, Hash, Structural)]
pub struct Instant {
    pub nanos: u64,
}

/// The time between two readings, nothing when the clock went backwards.
pub open spec fn time_between(earlier: Instant, later: Instant) -> nat {
    if earlier.nanos <= later.nanos {
        (later.nanos - earlier.nanos) as nat
    } else {
        0
    }
}

impl Duration {
    pub fn from_secs(secs: u64) -> (result: Duration)
        ensures
            result.nanos == secs * 1_000_000_000,
    {
        Duration { nanos: secs as u128 * 1_000_000_000 }
    }

    pub fn from_millis(millis: u64) -> (result: Duration)
        ensures
            result.nanos == millis * 1_000_000,
    {
        Duration { nanos: millis as u128 * 1_000_000 }
    }

    pub fn is_zero(&self) -> (result: bool)
        ensures
            result == (self.nanos == 0),
    {
        self.nanos == 0
    }
}

impl Instant {
    /// The time since `earlier`, or `None` when `earlier` is later than this
    /// reading.
    pub fn checked_duration_since(&self, earlier: Instant) -> (result: Option<Duration>)
        ensures
            result == if earlier.nanos <= self.nanos {
                Some(Duration { nanos: (self.nanos - earlier.nanos) as u128 })
            } else {
                None
            },
    {
        if earlier.nanos <= self.nanos {
            Some(Duration { nanos: (self.nanos - earlier.nanos) as u128 })
        } else {
            None
        }
    }

    /// The time since `earlier`, zero when `earlier` is later than this
    /// reading.
    pub fn duration_since(&self, earlier: Instant) -> (result: Duration)
        ensures
            result.nanos == time_between(earlier, *self),
    {
        match self.checked_duration_since(earlier) {
            Some(duration) => duration,
            None => Duration { nanos: 0 },
        }
    }

    /// The reading `duration` after this one, if the clock reaches that far.
    pub fn checked_add(&self, duration: Duration) -> (result: Option<Instant>)
        ensures
            result == if self.nanos + duration.nanos <= u64::MAX {
                Some(Instant { nanos: (self.nanos + duration.nanos) as u64 })
            } else {
                None
            },
    {
        if duration.nanos <= (u64::MAX - self.nanos) as u128 {
            Some(Instant { nanos: self.nanos + duration.nanos as u64 })
        } else {
            None
        }
    }
}

/// The time between two readings, put on top of the earlier one, gives the later
/// one; a clock that went backwards has measured nothing.
pub proof fn law_time_adds_up(earlier: Instant, later: Instant)
    ensures
        earlier.nanos <= later.nanos ==> earlier.nanos + time_between(earlier, later)
            == later.nanos,
        earlier.nanos > later.nanos ==> time_between(earlier, later) == 0,
{
}

/// Times in a row add up to the time from the first reading to the last.
pub proof fn law_times_in_a_row_add_up(first: Instant, second: Instant, third: Instant)
    requires
        first.nanos <= second.nanos <= third.nanos,
    ensures
        time_between(first, second) + time_between(second, third) == time_between(first, third),
{
}

} // verus!
