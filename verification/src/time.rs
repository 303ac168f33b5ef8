//! Monotonic time as the loop sees it.

use vstd::prelude::*;

verus! {

/// A point on the loop's monotonic clock, in nanoseconds since the clock's origin.
#[derive(Clone, Copy, Debug, PartialEq, Eq, Structural)]
pub struct Instant {
    pub nanos: u64,
}

impl Instant {
    /// The instant `nanos` nanoseconds after the clock's origin.
    pub fn from_nanos(nanos: u64) -> (t: Instant)
        ensures
            t.nanos == nanos,
    {
        Instant { nanos }
    }

    /// Whether this instant lies at or after `deadline`.
    pub open spec fn reached(self, deadline: Instant) -> bool {
        self.nanos >= deadline.nanos
    }

    /// The later of two instants.
    pub open spec fn later_of(self, other: Instant) -> Instant {
        if self.nanos >= other.nanos {
            self
        } else {
            other
        }
    }

    /// Whether this instant lies at or after `deadline`.
    pub fn has_reached(self, deadline: Instant) -> (r: bool)
        ensures
            r == self.reached(deadline),
    {
        self.nanos >= deadline.nanos
    }

    /// The later of two instants.
    pub fn max(self, other: Instant) -> (t: Instant)
        ensures
            t == self.later_of(other),
    {
        if self.nanos >= other.nanos {
            self
        } else {
            other
        }
    }
}

} // verus!
