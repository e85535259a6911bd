//! Half-open time intervals over UTC instants and the overlap predicate that
//! every other part of the engine uses.
use vstd::prelude::*;

verus! {

/// Nanoseconds in one hour: the length of every candidate slot.
pub const SLOT_NANOS: i128 = 3_600_000_000_000;

/// The interval `[start_time, end_time)`; both bounds are UTC instants
/// counted in nanoseconds since the Unix epoch.
#[derive(Debug, Clone, Copy, PartialEq, Eq, Structural)]
pub struct TimeSlot {
    pub start_time: i128,
    pub end_time: i128,
}

/// Two half-open intervals share at least one instant.
pub open spec fn overlaps(a: TimeSlot, b: TimeSlot) -> bool {
    a.start_time < b.end_time && b.start_time < a.end_time
}

impl TimeSlot {
    /// A slot is proper when it starts before it ends.
    pub open spec fn is_proper(self) -> bool {
        self.start_time < self.end_time
    }

    pub fn new(start_time: i128, end_time: i128) -> (r: TimeSlot)
        ensures
            r.start_time == start_time,
            r.end_time == end_time,
    {
        TimeSlot { start_time, end_time }
    }

    /// Whether the two intervals share an instant; touching endpoints do not.
    pub fn overlaps(&self, other: &TimeSlot) -> (r: bool)
        ensures
            r == overlaps(*self, *other),
    {
        self.start_time < other.end_time && other.start_time < self.end_time
    }
}

} // verus!
