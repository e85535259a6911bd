use reservations::{
    Client, RepositoryError, Reservation, ReservationRepository, ReservationStatus, TimeSlot,
    SLOT_NANOS,
};

const HOUR: i128 = SLOT_NANOS;
const T: i128 = 1_700_000_000 * 1_000_000_000;

fn store_with_client() -> (ReservationRepository, Client) {
    let mut repo = ReservationRepository::new();
    let client = repo.create_client("Foo Bar".to_string(), "foo-bar@example.com".to_string(), 5);
    (repo, client)
}

fn book(repo: &mut ReservationRepository, client: u128, start: i128, end: i128) -> Result<Reservation, RepositoryError> {
    repo.create_reservation(client, start, end, None, 9)
}

#[test]
fn new_store_is_empty() {
    let repo = ReservationRepository::new();
    assert!(repo.list_clients().is_empty());
    assert!(repo.find_overlapping(0, T).is_empty());
}

#[test]
fn create_client_assigns_next_id() {
    let mut repo = ReservationRepository::new();
    let a = repo.create_client("A".to_string(), "a@x".to_string(), 1);
    let b = repo.create_client("B".to_string(), "b@x".to_string(), 2);
    assert_eq!(a.id, 0);
    assert_eq!(b.id, 1);
    assert_eq!(b.name, "B");
    assert_eq!(b.email, "b@x");
    assert_eq!(b.created_at, 2);
    let all = repo.list_clients();
    assert_eq!(all.len(), 2);
    assert_eq!(all[0].name, "A");
    assert_eq!(all[1].id, 1);
}

#[test]
fn created_reservation_is_confirmed_and_stored() {
    let (mut repo, c) = store_with_client();
    let r = repo
        .create_reservation(c.id, T, T + HOUR, Some("window seat".to_string()), 77)
        .unwrap();
    assert_eq!(r.client_id, c.id);
    assert_eq!(r.start_time, T);
    assert_eq!(r.end_time, T + HOUR);
    assert_eq!(r.status, ReservationStatus::Confirmed);
    assert_eq!(r.notes.as_deref(), Some("window seat"));
    assert_eq!(r.created_at, 77);
    let got = repo.get_reservation(r.id).unwrap();
    assert_eq!(got.id, r.id);
    assert_eq!(got.start_time, T);
}

#[test]
fn touching_bookings_both_succeed() {
    let (mut repo, c) = store_with_client();
    assert!(book(&mut repo, c.id, T, T + HOUR).is_ok());
    assert!(book(&mut repo, c.id, T + HOUR, T + 2 * HOUR).is_ok());
}

#[test]
fn half_hour_shift_conflicts() {
    let (mut repo, c) = store_with_client();
    assert!(book(&mut repo, c.id, T, T + HOUR).is_ok());
    let second = book(&mut repo, c.id, T + HOUR / 2, T + HOUR + HOUR / 2);
    assert_eq!(second.unwrap_err(), RepositoryError::ReservationConflict);
    assert_eq!(repo.find_overlapping(T, T + 2 * HOUR).len(), 1);
}

#[test]
fn same_interval_many_times_one_wins() {
    let mut repo = ReservationRepository::new();
    let mut ids = Vec::new();
    for k in 0..5 {
        ids.push(repo.create_client(format!("c{k}"), format!("c{k}@x"), 0).id);
    }
    let results: Vec<_> = ids.iter().map(|id| book(&mut repo, *id, T, T + HOUR)).collect();
    assert_eq!(results.iter().filter(|r| r.is_ok()).count(), 1);
    assert!(results[0].is_ok());
    for r in &results[1..] {
        assert_eq!(r.clone().unwrap_err(), RepositoryError::ReservationConflict);
    }
}

#[test]
fn unknown_client_is_refused_without_a_row() {
    let (mut repo, _) = store_with_client();
    let r = book(&mut repo, 999, T, T + HOUR);
    assert_eq!(r.unwrap_err(), RepositoryError::ClientNotFound(999));
    assert!(repo.find_overlapping(0, T + 10 * HOUR).is_empty());
    assert!(repo.is_slot_available(T, T + HOUR));
}

#[test]
fn cancel_twice_succeeds() {
    let (mut repo, c) = store_with_client();
    let r = book(&mut repo, c.id, T, T + HOUR).unwrap();
    assert_eq!(repo.cancel_reservation(r.id), Ok(()));
    assert_eq!(repo.cancel_reservation(r.id), Ok(()));
    assert_eq!(repo.get_reservation(r.id).unwrap().status, ReservationStatus::Cancelled);
}

#[test]
fn cancel_unknown_id_is_not_found() {
    let (mut repo, _) = store_with_client();
    assert_eq!(repo.cancel_reservation(4242), Err(RepositoryError::ReservationNotFound(4242)));
}

#[test]
fn cancelled_interval_can_be_booked_again() {
    let (mut repo, c) = store_with_client();
    let r = book(&mut repo, c.id, T, T + HOUR).unwrap();
    assert!(!repo.is_slot_available(T, T + HOUR));
    repo.cancel_reservation(r.id).unwrap();
    assert!(repo.is_slot_available(T, T + HOUR));
    assert!(book(&mut repo, c.id, T, T + HOUR).is_ok());
}

#[test]
fn get_unknown_reservation_is_not_found() {
    let (repo, _) = store_with_client();
    assert_eq!(repo.get_reservation(3).unwrap_err(), RepositoryError::ReservationNotFound(3));
}

#[test]
fn overlapping_query_is_ordered_and_skips_cancelled() {
    let (mut repo, c) = store_with_client();
    book(&mut repo, c.id, T + 4 * HOUR, T + 5 * HOUR).unwrap();
    let middle = book(&mut repo, c.id, T + 2 * HOUR, T + 3 * HOUR).unwrap();
    book(&mut repo, c.id, T, T + HOUR).unwrap();
    book(&mut repo, c.id, T + 10 * HOUR, T + 11 * HOUR).unwrap();
    repo.cancel_reservation(middle.id).unwrap();
    let found = repo.find_overlapping(T, T + 6 * HOUR);
    let starts: Vec<i128> = found.iter().map(|r| r.start_time).collect();
    assert_eq!(starts, vec![T, T + 4 * HOUR]);
}

#[test]
fn client_reservations_include_cancelled_in_start_order() {
    let mut repo = ReservationRepository::new();
    let a = repo.create_client("A".to_string(), "a@x".to_string(), 0);
    let b = repo.create_client("B".to_string(), "b@x".to_string(), 0);
    let late = book(&mut repo, a.id, T + 3 * HOUR, T + 4 * HOUR).unwrap();
    book(&mut repo, b.id, T + HOUR, T + 2 * HOUR).unwrap();
    book(&mut repo, a.id, T, T + HOUR).unwrap();
    repo.cancel_reservation(late.id).unwrap();
    let mine = repo.get_client_reservations(a.id).unwrap();
    let starts: Vec<i128> = mine.iter().map(|r| r.start_time).collect();
    assert_eq!(starts, vec![T, T + 3 * HOUR]);
    assert_eq!(mine[1].status, ReservationStatus::Cancelled);
    assert_eq!(repo.get_client_reservations(7).unwrap_err(), RepositoryError::ClientNotFound(7));
}

#[test]
fn confirmed_reservations_never_overlap() {
    let (mut repo, c) = store_with_client();
    let starts = [0, 30, 60, 90, 120, 45, 150, 10, 200];
    for (k, s) in starts.iter().enumerate() {
        let start = T + s * 60 * 1_000_000_000;
        let r = book(&mut repo, c.id, start, start + HOUR);
        if k == 3 {
            if let Ok(r) = &r {
                repo.cancel_reservation(r.id).unwrap();
            }
        }
    }
    let all = repo.find_overlapping(0, T + 100 * HOUR);
    for i in 0..all.len() {
        for j in 0..all.len() {
            if i != j {
                let a = TimeSlot::new(all[i].start_time, all[i].end_time);
                let b = TimeSlot::new(all[j].start_time, all[j].end_time);
                assert!(!a.overlaps(&b));
            }
        }
    }
}

#[test]
fn available_slot_may_be_taken_before_booking() {
    let mut repo = ReservationRepository::new();
    let first = repo.create_client("A".to_string(), "a@x".to_string(), 0);
    let second = repo.create_client("B".to_string(), "b@x".to_string(), 0);
    let free = repo.find_available_slots(T, T + 2 * HOUR);
    assert_eq!(free.len(), 2);
    let pick = free[0];
    book(&mut repo, second.id, pick.start_time, pick.end_time).unwrap();
    let late = book(&mut repo, first.id, pick.start_time, pick.end_time);
    assert_eq!(late.unwrap_err(), RepositoryError::ReservationConflict);
}

#[test]
fn available_slots_skip_booked_hours() {
    let (mut repo, c) = store_with_client();
    book(&mut repo, c.id, T + HOUR, T + 2 * HOUR).unwrap();
    let free = repo.find_available_slots(T, T + 3 * HOUR);
    assert_eq!(
        free,
        vec![TimeSlot::new(T, T + HOUR), TimeSlot::new(T + 2 * HOUR, T + 3 * HOUR)]
    );
}

#[test]
fn trailing_candidate_ignores_reservations_past_the_window() {
    let (mut repo, c) = store_with_client();
    // Booked just after the window ends, inside the trailing candidate.
    book(&mut repo, c.id, T + 2 * HOUR, T + 3 * HOUR).unwrap();
    let free = repo.find_available_slots(T, T + HOUR + HOUR / 2);
    assert_eq!(free, vec![TimeSlot::new(T, T + HOUR), TimeSlot::new(T + HOUR, T + 2 * HOUR)]);
}
