//! A booking engine for one shared calendar: clients reserve half-open time
//! intervals, and no two confirmed reservations may ever overlap.

pub mod interval;
pub mod models;
pub mod protocol;
pub mod repository;
pub mod scanner;
pub mod service;

pub use interval::{TimeSlot, SLOT_NANOS};
pub use models::{Client, Reservation, ReservationStatus};
pub use protocol::{
    cancel_needs_lookup, check_client, classify_insert_failure, settle_cancel, settle_insert,
    InsertOutcome,
};
pub use repository::{RepositoryError, ReservationRepository};
pub use scanner::{free_slots, is_clear};
pub use service::{
    check_slot, check_window, id_from_parsed, map_error, parse_id, ReservationServiceImpl,
    ServiceError, SlotRequest, StatusCode,
};
