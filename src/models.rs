//! The records the store keeps: clients and reservations.
use vstd::prelude::*;
use vstd::string::StringExecFns;
use crate::interval::TimeSlot;

verus! {

/// A client who can hold reservations. Immutable once created.
#[derive(Debug, Clone)]
pub struct Client {
    /// Opaque unique id: the 128 bits of a UUID.
    pub id: u128,
    pub name: String,
    pub email: String,
    /// Creation instant, in nanoseconds since the Unix epoch.
    pub created_at: i128,
}

/// Status of a reservation: `Confirmed` blocks its interval, `Cancelled`
/// is terminal and blocks nothing.
#[derive(Debug, Clone, Copy, PartialEq, Eq, Structural)]
pub enum ReservationStatus {
    Confirmed,
    Cancelled,
}

/// A booking of one interval by one client.
#[derive(Debug, Clone)]
pub struct Reservation {
    /// Opaque unique id: the 128 bits of a UUID.
    pub id: u128,
    pub client_id: u128,
    pub start_time: i128,
    pub end_time: i128,
    pub status: ReservationStatus,
    pub notes: Option<String>,
    pub created_at: i128,
}

/// The lower-case form of a text, as `str::to_lowercase` computes it.
pub uninterp spec fn lower_of(s: Seq<char>) -> Seq<char>;

/// Relies on `str::to_lowercase`: the result depends on the characters alone.
#[verifier::external_body]
fn lowercase(s: &str) -> (r: String)
    ensures
        r@ == lower_of(s@),
{
    s.to_lowercase()
}

/// The status a stored status text denotes: `cancelled` in any letter case
/// is `Cancelled`, every other text is `Confirmed`.
pub open spec fn status_of_lowered(lowered: Seq<char>) -> ReservationStatus {
    if lowered == "cancelled"@ {
        ReservationStatus::Cancelled
    } else {
        ReservationStatus::Confirmed
    }
}

/// The stored text of a status.
pub open spec fn status_text(s: ReservationStatus) -> Seq<char> {
    match s {
        ReservationStatus::Confirmed => "confirmed"@,
        ReservationStatus::Cancelled => "cancelled"@,
    }
}

impl ReservationStatus {
    /// The status denoted by a text that is already in lower case.
    pub fn from_lowered(lowered: &String) -> (r: ReservationStatus)
        ensures
            r == status_of_lowered(lowered@),
    {
        let cancelled = String::from_str("cancelled");
        proof {
            reveal_strlit("cancelled");
        }
        if *lowered == cancelled {
            ReservationStatus::Cancelled
        } else {
            ReservationStatus::Confirmed
        }
    }

    /// The status a stored text denotes, ignoring letter case.
    pub fn from_text(s: &str) -> (r: ReservationStatus)
        ensures
            r == status_of_lowered(lower_of(s@)),
    {
        let lowered = lowercase(s);
        ReservationStatus::from_lowered(&lowered)
    }

    /// The text under which the status is stored.
    pub fn as_text(&self) -> (r: String)
        ensures
            r@ == status_text(*self),
    {
        match self {
            ReservationStatus::Confirmed => String::from_str("confirmed"),
            ReservationStatus::Cancelled => String::from_str("cancelled"),
        }
    }
}

impl From<String> for ReservationStatus {
    /// The status a stored text denotes, ignoring letter case.
    fn from(s: String) -> (r: ReservationStatus) {
        ReservationStatus::from_text(s.as_str())
    }
}

impl vstd::std_specs::convert::FromSpecImpl<String> for ReservationStatus {
    open spec fn obeys_from_spec() -> bool {
        true
    }

    open spec fn from_spec(s: String) -> ReservationStatus {
        status_of_lowered(lower_of(s@))
    }
}

impl Reservation {
    /// The interval the reservation books.
    pub open spec fn slot(self) -> TimeSlot {
        TimeSlot { start_time: self.start_time, end_time: self.end_time }
    }

    pub open spec fn is_confirmed(self) -> bool {
        self.status == ReservationStatus::Confirmed
    }

    /// The booked interval as a value.
    pub fn time_slot(&self) -> (r: TimeSlot)
        ensures
            r == self.slot(),
    {
        TimeSlot { start_time: self.start_time, end_time: self.end_time }
    }

    /// A field-by-field copy, equal to the original.
    pub fn copy(&self) -> (r: Reservation)
        ensures
            r == *self,
    {
        let notes = match &self.notes {
            Some(n) => Some(n.clone()),
            None => None,
        };
        Reservation {
            id: self.id,
            client_id: self.client_id,
            start_time: self.start_time,
            end_time: self.end_time,
            status: self.status,
            notes,
            created_at: self.created_at,
        }
    }
}

impl Client {
    /// A field-by-field copy, equal to the original.
    pub fn copy(&self) -> (r: Client)
        ensures
            r == *self,
    {
        Client {
            id: self.id,
            name: self.name.clone(),
            email: self.email.clone(),
            created_at: self.created_at,
        }
    }
}

} // verus!
