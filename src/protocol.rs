//! The decisions of the creation and cancellation protocols when the store
//! is an outside database: the caller runs each statement and hands back
//! what the database reported; these functions say what it means.
use vstd::prelude::*;
use vstd::string::StringExecFns;
use crate::models::Reservation;
use crate::repository::RepositoryError;

verus! {

/// The name of the database's exclusion constraint over confirmed intervals.
pub open spec fn overlap_constraint() -> Seq<char> {
    "no_overlapping_reservations"@
}

/// What the database reported for an attempt to insert a reservation.
#[derive(Debug, Clone)]
pub enum InsertOutcome {
    /// The row was inserted; the transaction may commit.
    Inserted(Reservation),
    /// The exclusion constraint refused the row: it overlaps a confirmed one.
    ConstraintViolated,
    /// Any other failure, with its cause.
    Failed(String),
}

/// The outcome of a failed insert: a violation of the overlap constraint,
/// or any other failure.
pub open spec fn failure_outcome(constraint: Option<String>, cause: String) -> InsertOutcome {
    match constraint {
        Some(c) if c@ == overlap_constraint() => InsertOutcome::ConstraintViolated,
        _ => InsertOutcome::Failed(cause),
    }
}

/// Classifies a failed insert by the constraint the database names, if any.
pub fn classify_insert_failure(constraint: Option<String>, cause: String) -> (r: InsertOutcome)
    ensures
        r == failure_outcome(constraint, cause),
{
    let name = String::from_str("no_overlapping_reservations");
    proof {
        reveal_strlit("no_overlapping_reservations");
    }
    match constraint {
        Some(c) => {
            if c == name {
                InsertOutcome::ConstraintViolated
            } else {
                InsertOutcome::Failed(cause)
            }
        },
        None => InsertOutcome::Failed(cause),
    }
}

/// Step one of creation: an unknown client ends the attempt before any
/// insert, and the transaction is rolled back.
pub fn check_client(client_id: u128, exists: bool) -> (r: Result<(), RepositoryError>)
    ensures
        exists ==> r is Ok,
        !exists ==> r == Err::<(), RepositoryError>(RepositoryError::ClientNotFound(client_id)),
{
    if exists {
        Ok(())
    } else {
        Err(RepositoryError::ClientNotFound(client_id))
    }
}

/// Step three of creation: an inserted row is the result (commit); a
/// constraint violation is a `ReservationConflict` and any other failure a
/// `DatabaseError` with its cause (roll back).
pub fn settle_insert(outcome: InsertOutcome) -> (r: Result<Reservation, RepositoryError>)
    ensures
        outcome matches InsertOutcome::Inserted(res) ==> r == Ok::<Reservation, RepositoryError>(res),
        outcome is ConstraintViolated ==> r == Err::<Reservation, RepositoryError>(
            RepositoryError::ReservationConflict,
        ),
        outcome matches InsertOutcome::Failed(cause) ==> r == Err::<Reservation, RepositoryError>(
            RepositoryError::DatabaseError(cause),
        ),
{
    match outcome {
        InsertOutcome::Inserted(res) => Ok(res),
        InsertOutcome::ConstraintViolated => Err(RepositoryError::ReservationConflict),
        InsertOutcome::Failed(cause) => Err(RepositoryError::DatabaseError(cause)),
    }
}

/// Whether a cancellation must ask if the reservation exists: only when the
/// conditional update (confirmed to cancelled) touched no row.
pub fn cancel_needs_lookup(rows_affected: u64) -> (r: bool)
    ensures
        r == (rows_affected == 0),
{
    rows_affected == 0
}

/// The result of a cancellation: it succeeds when the conditional update
/// touched a row, or when the reservation exists but was already cancelled;
/// it fails with `ReservationNotFound` only for an id that does not exist.
pub fn settle_cancel(id: u128, rows_affected: u64, exists: bool) -> (r: Result<(), RepositoryError>)
    ensures
        (rows_affected > 0 || exists) ==> r is Ok,
        !(rows_affected > 0 || exists) ==> r == Err::<(), RepositoryError>(
            RepositoryError::ReservationNotFound(id),
        ),
{
    if rows_affected > 0 || exists {
        Ok(())
    } else {
        Err(RepositoryError::ReservationNotFound(id))
    }
}

} // verus!
