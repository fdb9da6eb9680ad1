//! Points in time and spans of time, in whole nanoseconds.
use vstd::prelude::*;

verus! {

/// A point in time: nanoseconds since a reference point that whoever reads the
/// clock keeps fixed.
#[derive(Debug, Copy, Clone, PartialEq, Eq, Structural)]
pub struct Instant {
    pub nanos: u128,
}

/// A span of time in nanoseconds.
#[derive(Debug, Copy, Clone, PartialEq, Eq)]
pub struct Duration {
    pub nanos: u128,
}

/// How long it takes from `start` to `deadline`: nothing where the deadline has
/// passed.
pub open spec fn span_until(start: Instant, deadline: Instant) -> Duration {
    Duration {
        nanos: if deadline.nanos > start.nanos {
            (deadline.nanos - start.nanos) as u128
        } else {
            0
        },
    }
}

/// Computes how long to block from `start` so as to wake up at `deadline`.
pub fn blocking_duration(start: Instant, deadline: Instant) -> (duration: Duration)
    ensures
        duration == span_until(start, deadline),
{
    if deadline.nanos > start.nanos {
        Duration { nanos: deadline.nanos - start.nanos }
    } else {
        Duration { nanos: 0 }
    }
}

/// A wait that begins before the deadline ends right at it, and one that begins at the
/// deadline or after it is over at once.
pub proof fn law_blocking_ends_at_the_deadline(
    start: Instant,
    deadline: Instant,
    duration: Duration,
)
    requires
        call_ensures(blocking_duration, (start, deadline), duration),
    ensures
        duration == span_until(start, deadline),
        start.nanos < deadline.nanos ==> start.nanos + duration.nanos == deadline.nanos,
        start.nanos >= deadline.nanos ==> duration.nanos == 0,
{
}

} // verus!
