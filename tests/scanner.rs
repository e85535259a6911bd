use reservations::{free_slots, is_clear, TimeSlot, SLOT_NANOS};

const HOUR: i128 = SLOT_NANOS;

#[test]
fn slot_length_is_one_hour() {
    assert_eq!(SLOT_NANOS, 3_600_000_000_000);
}

#[test]
fn empty_window_has_no_slots() {
    assert!(free_slots(10, 10, &vec![]).is_empty());
    assert!(free_slots(20, 10, &vec![]).is_empty());
}

#[test]
fn window_is_tiled_by_hours() {
    let slots = free_slots(0, 3 * HOUR, &vec![]);
    assert_eq!(
        slots,
        vec![
            TimeSlot::new(0, HOUR),
            TimeSlot::new(HOUR, 2 * HOUR),
            TimeSlot::new(2 * HOUR, 3 * HOUR)
        ]
    );
}

#[test]
fn partial_window_keeps_the_trailing_slot() {
    let slots = free_slots(0, HOUR + 1, &vec![]);
    assert_eq!(slots, vec![TimeSlot::new(0, HOUR), TimeSlot::new(HOUR, 2 * HOUR)]);
}

#[test]
fn touching_booking_leaves_neighbours_free() {
    let booked = vec![TimeSlot::new(HOUR, 2 * HOUR)];
    let slots = free_slots(0, 3 * HOUR, &booked);
    assert_eq!(slots, vec![TimeSlot::new(0, HOUR), TimeSlot::new(2 * HOUR, 3 * HOUR)]);
}

#[test]
fn short_booking_blocks_its_hour() {
    let booked = vec![TimeSlot::new(HOUR + 5, HOUR + 10)];
    let slots = free_slots(0, 2 * HOUR, &booked);
    assert_eq!(slots, vec![TimeSlot::new(0, HOUR)]);
}

#[test]
fn long_booking_blocks_every_hour_it_covers() {
    let booked = vec![TimeSlot::new(-5, 5 * HOUR)];
    assert!(free_slots(0, 4 * HOUR, &booked).is_empty());
}

#[test]
fn clear_check() {
    let booked = vec![TimeSlot::new(0, 10), TimeSlot::new(20, 30)];
    assert!(is_clear(&TimeSlot::new(10, 20), &booked));
    assert!(!is_clear(&TimeSlot::new(9, 11), &booked));
    assert!(!is_clear(&TimeSlot::new(25, 26), &booked));
}

#[test]
fn overlap_is_half_open() {
    let a = TimeSlot::new(0, 10);
    assert!(!a.overlaps(&TimeSlot::new(10, 20)));
    assert!(!TimeSlot::new(10, 20).overlaps(&a));
    assert!(a.overlaps(&TimeSlot::new(9, 20)));
    assert!(a.overlaps(&TimeSlot::new(2, 3)));
    assert!(a.overlaps(&a));
}
