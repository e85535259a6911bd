//! The availability scan: tile a window with one-hour candidates and keep
//! those that no booked interval overlaps.
use vstd::prelude::*;
use crate::interval::{overlaps, TimeSlot, SLOT_NANOS};

verus! {

/// No interval of `booked` overlaps `slot`.
pub open spec fn clear_of(slot: TimeSlot, booked: Seq<TimeSlot>) -> bool {
    forall|k: int| 0 <= k < booked.len() ==> !overlaps(slot, #[trigger] booked[k])
}

/// The candidate slot that starts at `cur`.
pub open spec fn candidate(cur: int) -> TimeSlot {
    TimeSlot { start_time: cur as i128, end_time: (cur + SLOT_NANOS) as i128 }
}

/// The free candidates from `cur` on: one starts at `cur`, and at every hour
/// after it while the start is still before `end`. The last one may reach
/// past `end`.
pub open spec fn free_from(cur: int, end: int, booked: Seq<TimeSlot>) -> Seq<TimeSlot>
    decreases end - cur + SLOT_NANOS,
{
    if cur >= end {
        Seq::empty()
    } else {
        let rest = free_from(cur + SLOT_NANOS, end, booked);
        if clear_of(candidate(cur), booked) {
            seq![candidate(cur)] + rest
        } else {
            rest
        }
    }
}

/// Whether no interval of `booked` overlaps `slot`.
pub fn is_clear(slot: &TimeSlot, booked: &Vec<TimeSlot>) -> (r: bool)
    ensures
        r == clear_of(*slot, booked@),
{
    let mut k: usize = 0;
    while k < booked.len()
        invariant
            k <= booked.len(),
            forall|j: int| 0 <= j < k ==> !overlaps(*slot, #[trigger] booked@[j]),
        decreases booked.len() - k,
    {
        if slot.overlaps(&booked[k]) {
            return false;
        }
        k += 1;
    }
    true
}

/// The free one-hour slots of the window `[window_start, window_end)`, in
/// order. Candidates start at `window_start` and follow each other without
/// gaps; the scan stops once a candidate would start at or after
/// `window_end`, so the last slot may extend past it.
pub fn free_slots(window_start: i128, window_end: i128, booked: &Vec<TimeSlot>) -> (r: Vec<TimeSlot>)
    requires
        window_end <= i128::MAX - SLOT_NANOS,
    ensures
        r@ == free_from(window_start as int, window_end as int, booked@),
{
    let mut out: Vec<TimeSlot> = Vec::new();
    let mut cur: i128 = window_start;
    while cur < window_end
        invariant
            window_end <= i128::MAX - SLOT_NANOS,
            out@ + free_from(cur as int, window_end as int, booked@) == free_from(
                window_start as int,
                window_end as int,
                booked@,
            ),
        decreases window_end - cur + SLOT_NANOS,
    {
        let slot_end: i128 = cur + SLOT_NANOS;
        let slot = TimeSlot { start_time: cur, end_time: slot_end };
        assert(slot == candidate(cur as int));
        let ghost before = out@;
        let ghost rest = free_from(slot_end as int, window_end as int, booked@);
        if is_clear(&slot, booked) {
            out.push(slot);
            assert(out@ + rest == before + (seq![slot] + rest));
        }
        cur = slot_end;
    }
    assert(out@ + free_from(cur as int, window_end as int, booked@) == out@);
    out
}

} // verus!
