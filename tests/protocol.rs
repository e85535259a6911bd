use reservations::{
    cancel_needs_lookup, check_client, classify_insert_failure, settle_cancel, settle_insert,
    InsertOutcome, RepositoryError, Reservation, ReservationStatus,
};

fn sample() -> Reservation {
    Reservation {
        id: 1,
        client_id: 2,
        start_time: 10,
        end_time: 20,
        status: ReservationStatus::Confirmed,
        notes: None,
        created_at: 0,
    }
}

#[test]
fn overlap_constraint_is_a_conflict() {
    let out = classify_insert_failure(Some("no_overlapping_reservations".to_string()), "dup".to_string());
    assert!(matches!(out, InsertOutcome::ConstraintViolated));
    assert_eq!(settle_insert(out).unwrap_err(), RepositoryError::ReservationConflict);
}

#[test]
fn other_failures_keep_their_cause() {
    let out = classify_insert_failure(Some("reservations_client_id_fkey".to_string()), "fk".to_string());
    assert!(matches!(&out, InsertOutcome::Failed(c) if c == "fk"));
    assert_eq!(settle_insert(out).unwrap_err(), RepositoryError::DatabaseError("fk".to_string()));
    let out = classify_insert_failure(None, "io".to_string());
    assert_eq!(settle_insert(out).unwrap_err(), RepositoryError::DatabaseError("io".to_string()));
}

#[test]
fn inserted_row_is_the_result() {
    let r = settle_insert(InsertOutcome::Inserted(sample())).unwrap();
    assert_eq!(r.id, 1);
    assert_eq!(r.start_time, 10);
}

#[test]
fn client_check_outcomes() {
    assert_eq!(check_client(3, true), Ok(()));
    assert_eq!(check_client(3, false), Err(RepositoryError::ClientNotFound(3)));
}

#[test]
fn cancel_outcomes() {
    assert!(!cancel_needs_lookup(1));
    assert!(cancel_needs_lookup(0));
    assert_eq!(settle_cancel(5, 1, false), Ok(()));
    assert_eq!(settle_cancel(5, 0, true), Ok(()));
    assert_eq!(settle_cancel(5, 0, false), Err(RepositoryError::ReservationNotFound(5)));
}

#[test]
fn status_text_round_trip() {
    assert_eq!(ReservationStatus::from_text("cancelled"), ReservationStatus::Cancelled);
    assert_eq!(ReservationStatus::from_text("CANCELLED"), ReservationStatus::Cancelled);
    assert_eq!(ReservationStatus::from_text("confirmed"), ReservationStatus::Confirmed);
    assert_eq!(ReservationStatus::from_text("pending"), ReservationStatus::Confirmed);
    assert_eq!(ReservationStatus::Confirmed.as_text(), "confirmed");
    assert_eq!(ReservationStatus::Cancelled.as_text(), "cancelled");
}

#[test]
fn status_from_owned_text() {
    assert_eq!(ReservationStatus::from("Cancelled".to_string()), ReservationStatus::Cancelled);
    assert_eq!(ReservationStatus::from("confirmed".to_string()), ReservationStatus::Confirmed);
}
