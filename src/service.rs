//! The request boundary of the engine: it checks caller input, parses ids,
//! runs the store operation and turns store errors into status errors that
//! a transport can send back.
use vstd::prelude::*;
use vstd::string::StringExecFns;
use crate::interval::{TimeSlot, SLOT_NANOS};
use crate::models::{Client, Reservation};
use crate::repository::{
    blocking, owned_by, slots_of, RepositoryError, ReservationRepository,
};
use crate::scanner::free_from;

verus! {

/// The kind of a failed request, as a transport reports it.
#[derive(Debug, Clone, Copy, PartialEq, Eq, Structural)]
pub enum StatusCode {
    InvalidArgument,
    NotFound,
    AlreadyExists,
    Internal,
}

/// A failed request: its kind and a message for the caller.
#[derive(Debug, Clone, PartialEq, Eq)]
pub struct ServiceError {
    pub code: StatusCode,
    pub message: String,
}

/// The interval part of a reservation request; either bound may be missing.
#[derive(Debug, Clone, Copy, PartialEq, Eq, Structural)]
pub struct SlotRequest {
    pub start_time: Option<i128>,
    pub end_time: Option<i128>,
}

/// The value of a UUID text, as `uuid::Uuid::parse_str` reads it.
pub uninterp spec fn uuid_value(s: Seq<char>) -> Option<u128>;

/// The text of a UUID, as `uuid::Uuid`'s `Display` writes it.
pub uninterp spec fn uuid_text(v: u128) -> Seq<char>;

/// Relies on `uuid::Uuid::parse_str` (and `as_u128`): the 128 bits of the
/// UUID that the text spells, or nothing when it spells none. The result
/// depends on the text alone.
#[verifier::external_body]
fn parse_uuid(s: &str) -> (r: Option<u128>)
    ensures
        r == uuid_value(s@),
{
    match uuid::Uuid::parse_str(s) {
        Ok(u) => Some(u.as_u128()),
        Err(_) => None,
    }
}

/// Relies on `uuid::Uuid::from_u128` and `Display` for `uuid::Uuid`: the
/// hyphenated lower-case text of the 128 bits, which depends on them alone.
#[verifier::external_body]
fn format_uuid(v: u128) -> (r: String)
    ensures
        r@ == uuid_text(v),
{
    uuid::Uuid::from_u128(v).to_string()
}

/// `r` is a refusal of the input with the given message.
pub open spec fn rejects<T>(r: Result<T, ServiceError>, message: Seq<char>) -> bool {
    r matches Err(e) && e.code == StatusCode::InvalidArgument && e.message@ == message
}

/// The status kind and message that report a store error.
pub open spec fn error_status(e: RepositoryError) -> (StatusCode, Seq<char>) {
    match e {
        RepositoryError::DatabaseError(cause) => (StatusCode::Internal, "Internal error: "@ + cause@),
        RepositoryError::ReservationConflict => (
            StatusCode::AlreadyExists,
            "The requested time slot is already booked"@,
        ),
        RepositoryError::ReservationNotFound(id) => (
            StatusCode::NotFound,
            "Reservation not found with ID: "@ + uuid_text(id),
        ),
        RepositoryError::ClientNotFound(id) => (
            StatusCode::NotFound,
            "Client not found with ID: "@ + uuid_text(id),
        ),
    }
}

/// `e` reports the store error `re`.
pub open spec fn reports(e: ServiceError, re: RepositoryError) -> bool {
    (e.code, e.message@) == error_status(re)
}

/// The request result `r` answers the store result `rr`: the same value,
/// or the report of the same error.
pub open spec fn answers<T>(r: Result<T, ServiceError>, rr: Result<T, RepositoryError>) -> bool {
    match rr {
        Ok(v) => r == Ok::<T, ServiceError>(v),
        Err(re) => r matches Err(e) && reports(e, re),
    }
}

/// The result of reading an id: its value, or a refusal with `invalid`.
pub open spec fn id_outcome(r: Result<u128, ServiceError>, parsed: Option<u128>, invalid: Seq<char>) -> bool {
    match parsed {
        Some(v) => r == Ok::<u128, ServiceError>(v),
        None => rejects(r, invalid),
    }
}

/// Notes as the store keeps them: an empty text is no notes.
pub open spec fn notes_of(notes: String) -> Option<String> {
    if notes@.len() == 0 {
        None
    } else {
        Some(notes)
    }
}

/// The interval that a request gives by its two bounds, or the message
/// that refuses it.
pub open spec fn window_check(start_time: Option<i128>, end_time: Option<i128>) -> Result<TimeSlot, Seq<char>> {
    match (start_time, end_time) {
        (None, _) => Err("Start time is required"@),
        (Some(_), None) => Err("End time is required"@),
        (Some(s), Some(e)) => if s >= e {
            Err("Start time must be before end time"@)
        } else {
            Ok(TimeSlot { start_time: s, end_time: e })
        },
    }
}

/// The interval of a reservation request, or the message that refuses it.
pub open spec fn slot_check(slot: Option<SlotRequest>) -> Result<TimeSlot, Seq<char>> {
    match slot {
        None => Err("Time slot is required"@),
        Some(q) => window_check(q.start_time, q.end_time),
    }
}

/// `r` is the checked value, or a refusal with the message of the check.
pub open spec fn checked<T>(r: Result<T, ServiceError>, c: Result<T, Seq<char>>) -> bool {
    match c {
        Ok(v) => r == Ok::<T, ServiceError>(v),
        Err(m) => rejects(r, m),
    }
}

fn invalid<T>(message: &str) -> (r: Result<T, ServiceError>)
    ensures
        rejects(r, message@),
{
    Err(ServiceError { code: StatusCode::InvalidArgument, message: String::from_str(message) })
}

/// Turns a store error into the status error sent back to the caller.
/// Storage failures keep their cause in the message.
pub fn map_error(err: RepositoryError) -> (r: ServiceError)
    ensures
        reports(r, err),
{
    match err {
        RepositoryError::DatabaseError(cause) => {
            let mut message = String::from_str("Internal error: ");
            message.append(cause.as_str());
            ServiceError { code: StatusCode::Internal, message }
        },
        RepositoryError::ReservationConflict => ServiceError {
            code: StatusCode::AlreadyExists,
            message: String::from_str("The requested time slot is already booked"),
        },
        RepositoryError::ReservationNotFound(id) => {
            let mut message = String::from_str("Reservation not found with ID: ");
            let text = format_uuid(id);
            message.append(text.as_str());
            ServiceError { code: StatusCode::NotFound, message }
        },
        RepositoryError::ClientNotFound(id) => {
            let mut message = String::from_str("Client not found with ID: ");
            let text = format_uuid(id);
            message.append(text.as_str());
            ServiceError { code: StatusCode::NotFound, message }
        },
    }
}

fn answer<T>(rr: Result<T, RepositoryError>) -> (r: Result<T, ServiceError>)
    ensures
        answers(r, rr),
{
    match rr {
        Ok(v) => Ok(v),
        Err(e) => Err(map_error(e)),
    }
}

/// The id that a parsed UUID text gives, or a refusal with `invalid` when
/// the text spelled no UUID.
pub fn id_from_parsed(parsed: Option<u128>, invalid_message: &str) -> (r: Result<u128, ServiceError>)
    ensures
        id_outcome(r, parsed, invalid_message@),
{
    match parsed {
        Some(v) => Ok(v),
        None => invalid(invalid_message),
    }
}

/// Reads an id from its UUID text, refusing an unreadable one with
/// `invalid_message`.
pub fn parse_id(text: &str, invalid_message: &str) -> (r: Result<u128, ServiceError>)
    ensures
        id_outcome(r, uuid_value(text@), invalid_message@),
{
    let parsed = parse_uuid(text);
    id_from_parsed(parsed, invalid_message)
}

/// Checks the bounds of a window or interval: both are required and the
/// start must come before the end.
pub fn check_window(start_time: Option<i128>, end_time: Option<i128>) -> (r: Result<TimeSlot, ServiceError>)
    ensures
        checked(r, window_check(start_time, end_time)),
{
    let s = match start_time {
        Some(s) => s,
        None => return invalid("Start time is required"),
    };
    let e = match end_time {
        Some(e) => e,
        None => return invalid("End time is required"),
    };
    if s >= e {
        return invalid("Start time must be before end time");
    }
    Ok(TimeSlot { start_time: s, end_time: e })
}

/// Checks the interval of a reservation request.
pub fn check_slot(slot: Option<SlotRequest>) -> (r: Result<TimeSlot, ServiceError>)
    ensures
        checked(r, slot_check(slot)),
{
    match slot {
        Some(q) => check_window(q.start_time, q.end_time),
        None => invalid("Time slot is required"),
    }
}

/// The engine behind the request boundary; it owns its store.
pub struct ReservationServiceImpl {
    repository: ReservationRepository,
}

impl ReservationServiceImpl {
    /// The store the service works on.
    pub closed spec fn store(&self) -> ReservationRepository {
        self.repository
    }

    pub open spec fn wf(&self) -> bool {
        self.store().wf()
    }

    pub fn new(repository: ReservationRepository) -> (r: ReservationServiceImpl)
        ensures
            r.store() == repository,
    {
        ReservationServiceImpl { repository }
    }

    /// Read access to the store.
    pub fn repository(&self) -> (r: &ReservationRepository)
        ensures
            *r == self.store(),
    {
        &self.repository
    }

    /// The free one-hour slots of `[start_time, end_time)`; both bounds are
    /// required and the start must come before the end.
    pub fn list_available_slots(&self, start_time: Option<i128>, end_time: Option<i128>) -> (r:
        Result<Vec<TimeSlot>, ServiceError>)
        requires
            self.wf(),
            end_time matches Some(e) ==> e <= i128::MAX - SLOT_NANOS,
        ensures
            match window_check(start_time, end_time) {
                Err(m) => rejects(r, m),
                Ok(w) => (r matches Ok(v) && v@ == free_from(
                    w.start_time as int,
                    w.end_time as int,
                    slots_of(self.store().reservations().filter(blocking(w))),
                )),
            },
    {
        let w = match check_window(start_time, end_time) {
            Ok(w) => w,
            Err(err) => return Err(err),
        };
        Ok(self.repository.find_available_slots(w.start_time, w.end_time))
    }

    /// Books an interval for a client. The client id must be a UUID text,
    /// the interval must be given with both bounds and start before it ends;
    /// empty notes are stored as none. A refused request changes nothing;
    /// otherwise the store decides, and its errors are reported as status
    /// errors.
    pub fn create_reservation(
        &mut self,
        client_id: &str,
        slot: Option<SlotRequest>,
        notes: String,
        now: i128,
    ) -> (r: Result<Reservation, ServiceError>)
        requires
            old(self).wf(),
        ensures
            final(self).wf(),
            match uuid_value(client_id@) {
                None => rejects(r, "Invalid client ID format"@) && final(self).store() == old(self).store(),
                Some(c) => match slot_check(slot) {
                    Err(m) => rejects(r, m) && final(self).store() == old(self).store(),
                    Ok(w) => exists|rr: Result<Reservation, RepositoryError>|
                        ReservationRepository::creation_step(
                            old(self).store(),
                            final(self).store(),
                            c,
                            w,
                            notes_of(notes),
                            now,
                            rr,
                        ) && answers(r, rr),
                },
            },
    {
        let c = match parse_id(client_id, "Invalid client ID format") {
            Ok(c) => c,
            Err(err) => return Err(err),
        };
        let w = match check_slot(slot) {
            Ok(w) => w,
            Err(err) => return Err(err),
        };
        let kept = if notes.as_str().is_empty() {
            None
        } else {
            Some(notes)
        };
        let rr = self.repository.create_reservation(c, w.start_time, w.end_time, kept, now);
        answer(rr)
    }

    /// The reservation whose id the UUID text `id` spells.
    pub fn get_reservation(&self, id: &str) -> (r: Result<Reservation, ServiceError>)
        requires
            self.wf(),
        ensures
            match uuid_value(id@) {
                None => rejects(r, "Invalid reservation ID format"@),
                Some(v) => if self.store().has_reservation(v) {
                    exists|i: int|
                        0 <= i < self.store().reservations().len()
                            && self.store().reservations()[i].id == v
                            && r == Ok::<Reservation, ServiceError>(#[trigger] self.store().reservations()[i])
                } else {
                    (r matches Err(e) && reports(e, RepositoryError::ReservationNotFound(v)))
                },
            },
    {
        let v = match parse_id(id, "Invalid reservation ID format") {
            Ok(v) => v,
            Err(err) => return Err(err),
        };
        answer(self.repository.get_reservation(v))
    }

    /// Cancels the reservation whose id the UUID text `id` spells; a second
    /// cancellation succeeds too.
    pub fn cancel_reservation(&mut self, id: &str) -> (r: Result<(), ServiceError>)
        requires
            old(self).wf(),
        ensures
            final(self).wf(),
            match uuid_value(id@) {
                None => rejects(r, "Invalid reservation ID format"@) && final(self).store() == old(self).store(),
                Some(v) => exists|rr: Result<(), RepositoryError>|
                    ReservationRepository::cancel_step(old(self).store(), final(self).store(), v, rr)
                        && answers(r, rr),
            },
    {
        let v = match parse_id(id, "Invalid reservation ID format") {
            Ok(v) => v,
            Err(err) => return Err(err),
        };
        let rr = self.repository.cancel_reservation(v);
        answer(rr)
    }

    /// All reservations of the client whose id the UUID text spells, of any
    /// status, ordered by start time.
    pub fn list_client_reservations(&self, client_id: &str) -> (r: Result<Vec<Reservation>, ServiceError>)
        requires
            self.wf(),
        ensures
            match uuid_value(client_id@) {
                None => rejects(r, "Invalid client ID format"@),
                Some(c) => if self.store().has_client(c) {
                    (r matches Ok(v) && v@ == self.store().reservations().filter(owned_by(c)))
                } else {
                    (r matches Err(e) && reports(e, RepositoryError::ClientNotFound(c)))
                },
            },
    {
        let c = match parse_id(client_id, "Invalid client ID format") {
            Ok(c) => c,
            Err(err) => return Err(err),
        };
        answer(self.repository.get_client_reservations(c))
    }

    /// Registers a client; the name and the email address must not be empty.
    pub fn create_client(&mut self, name: String, email: String, now: i128) -> (r: Result<Client, ServiceError>)
        requires
            old(self).wf(),
        ensures
            final(self).wf(),
            if name@.len() == 0 {
                rejects(r, "Client name is required"@) && final(self).store() == old(self).store()
            } else if email@.len() == 0 {
                rejects(r, "Client email is required"@) && final(self).store() == old(self).store()
            } else {
                (r matches Ok(c) && c.name == name && c.email == email && c.created_at == now
                    && c.id == old(self).store().clients().len()
                    && final(self).store().clients() == old(self).store().clients().push(c)
                    && final(self).store().reservations() == old(self).store().reservations())
            },
    {
        if name.as_str().is_empty() {
            return invalid("Client name is required");
        }
        if email.as_str().is_empty() {
            return invalid("Client email is required");
        }
        Ok(self.repository.create_client(name, email, now))
    }

    /// All clients, in order of creation.
    pub fn list_clients(&self) -> (r: Vec<Client>)
        ensures
            r@ == self.store().clients(),
    {
        self.repository.list_clients()
    }
}

} // verus!
