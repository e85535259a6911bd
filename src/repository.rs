//! The store of clients and reservations. It owns the authoritative rule
//! that no two confirmed reservations overlap: a creation that would break
//! it is refused with a conflict, whatever any earlier availability read said.
use vstd::prelude::*;
use crate::interval::{overlaps, TimeSlot, SLOT_NANOS};
use crate::models::{Client, Reservation, ReservationStatus};
use crate::scanner::{free_from, free_slots};

verus! {

/// Why a store operation failed.
#[derive(Debug, Clone, PartialEq, Eq)]
pub enum RepositoryError {
    /// The storage itself failed; the text keeps the cause.
    DatabaseError(String),
    /// The interval overlaps a confirmed reservation.
    ReservationConflict,
    ReservationNotFound(u128),
    ClientNotFound(u128),
}

/// A confirmed reservation that shares an instant with `slot`.
pub open spec fn blocks(r: Reservation, slot: TimeSlot) -> bool {
    r.is_confirmed() && overlaps(r.slot(), slot)
}

pub open spec fn blocking(slot: TimeSlot) -> spec_fn(Reservation) -> bool {
    |r: Reservation| blocks(r, slot)
}

pub open spec fn owned_by(client_id: u128) -> spec_fn(Reservation) -> bool {
    |r: Reservation| r.client_id == client_id
}

/// Ordered by start time, ascending.
pub open spec fn sorted_by_start(s: Seq<Reservation>) -> bool {
    forall|i: int, j: int| 0 <= i < j < s.len() ==> s[i].start_time <= s[j].start_time
}

/// The booked intervals of a sequence of reservations.
pub open spec fn slots_of(s: Seq<Reservation>) -> Seq<TimeSlot> {
    s.map_values(|r: Reservation| r.slot())
}

/// The reservation as it is after cancellation.
pub open spec fn cancelled(r: Reservation) -> Reservation {
    Reservation { status: ReservationStatus::Cancelled, ..r }
}

/// The in-process store: a handle that the engine constructs and owns, so
/// that independent stores can live side by side.
pub struct ReservationRepository {
    clients: Vec<Client>,
    reservations: Vec<Reservation>,
}

impl ReservationRepository {
    /// The clients, in order of creation.
    pub closed spec fn clients(&self) -> Seq<Client> {
        self.clients@
    }

    /// Every reservation ever made, of any status, ordered by start time.
    pub closed spec fn reservations(&self) -> Seq<Reservation> {
        self.reservations@
    }

    pub open spec fn has_client(&self, id: u128) -> bool {
        exists|i: int| 0 <= i < self.clients().len() && (#[trigger] self.clients()[i]).id == id
    }

    pub open spec fn has_reservation(&self, id: u128) -> bool {
        exists|i: int|
            0 <= i < self.reservations().len() && (#[trigger] self.reservations()[i]).id == id
    }

    /// No confirmed reservation overlaps `slot`.
    pub open spec fn is_free(&self, slot: TimeSlot) -> bool {
        forall|i: int|
            0 <= i < self.reservations().len() ==> !blocks(#[trigger] self.reservations()[i], slot)
    }

    /// The store's invariant. Client ids are their positions; reservation
    /// ids are distinct; every reservation is proper, belongs to a stored
    /// client, and the sequence is ordered by start time; and no two
    /// confirmed reservations overlap.
    pub closed spec fn wf(&self) -> bool {
        let c = self.clients@;
        let r = self.reservations@;
        &&& forall|i: int| 0 <= i < c.len() ==> (#[trigger] c[i]).id == i
        &&& sorted_by_start(r)
        &&& forall|i: int|
            0 <= i < r.len() ==> {
                &&& (#[trigger] r[i]).start_time < r[i].end_time
                &&& r[i].id < r.len()
                &&& r[i].client_id < c.len()
            }
        &&& forall|i: int, j: int|
            0 <= i < r.len() && 0 <= j < r.len() && i != j ==> (#[trigger] r[i]).id != (#[trigger] r[j]).id
        &&& forall|i: int, j: int|
            0 <= i < r.len() && 0 <= j < r.len() && i != j && r[i].is_confirmed()
                && r[j].is_confirmed() ==> !overlaps((#[trigger] r[i]).slot(), (#[trigger] r[j]).slot())
    }

    /// The reservation that a successful creation stores and returns.
    pub open spec fn fresh_reservation(
        &self,
        client_id: u128,
        slot: TimeSlot,
        notes: Option<String>,
        now: i128,
    ) -> Reservation {
        Reservation {
            id: self.reservations().len() as u128,
            client_id,
            start_time: slot.start_time,
            end_time: slot.end_time,
            status: ReservationStatus::Confirmed,
            notes,
            created_at: now,
        }
    }

    /// What one creation attempt does: an unknown client is refused first,
    /// then an interval that a confirmed reservation overlaps; otherwise the
    /// new confirmed reservation is stored and returned. A refusal changes
    /// nothing.
    pub open spec fn creation_step(
        pre: Self,
        post: Self,
        client_id: u128,
        slot: TimeSlot,
        notes: Option<String>,
        now: i128,
        r: Result<Reservation, RepositoryError>,
    ) -> bool {
        &&& post.clients() == pre.clients()
        &&& if !pre.has_client(client_id) {
            r == Err::<Reservation, RepositoryError>(RepositoryError::ClientNotFound(client_id))
                && post.reservations() == pre.reservations()
        } else if !pre.is_free(slot) {
            r == Err::<Reservation, RepositoryError>(RepositoryError::ReservationConflict)
                && post.reservations() == pre.reservations()
        } else {
            let fresh = pre.fresh_reservation(client_id, slot, notes, now);
            &&& r == Ok::<Reservation, RepositoryError>(fresh)
            &&& exists|p: int|
                0 <= p <= pre.reservations().len() && post.reservations()
                    == pre.reservations().insert(p, fresh)
        }
    }

    /// What one cancellation does: a stored reservation becomes (or stays)
    /// cancelled and the call succeeds; an unknown id is refused and
    /// nothing changes.
    pub open spec fn cancel_step(
        pre: Self,
        post: Self,
        id: u128,
        r: Result<(), RepositoryError>,
    ) -> bool {
        &&& post.clients() == pre.clients()
        &&& if pre.has_reservation(id) {
            &&& r is Ok
            &&& exists|i: int|
                0 <= i < pre.reservations().len() && pre.reservations()[i].id == id
                    && post.reservations() == pre.reservations().update(
                    i,
                    cancelled(pre.reservations()[i]),
                )
        } else {
            r == Err::<(), RepositoryError>(RepositoryError::ReservationNotFound(id))
                && post.reservations() == pre.reservations()
        }
    }

    /// An empty store.
    pub fn new() -> (r: ReservationRepository)
        ensures
            r.wf(),
            r.clients() == Seq::<Client>::empty(),
            r.reservations() == Seq::<Reservation>::empty(),
    {
        ReservationRepository { clients: Vec::new(), reservations: Vec::new() }
    }

    proof fn lemma_has_client(&self, id: u128)
        requires
            self.wf(),
        ensures
            self.has_client(id) <==> id < self.clients().len(),
    {
        if id < self.clients().len() {
            assert(self.clients()[id as int].id == id);
        }
    }

    /// Stores a new client with the next id and returns it. Names and
    /// addresses are checked by the caller.
    pub fn create_client(&mut self, name: String, email: String, now: i128) -> (r: Client)
        requires
            old(self).wf(),
        ensures
            final(self).wf(),
            r.id == old(self).clients().len(),
            r.name == name,
            r.email == email,
            r.created_at == now,
            final(self).clients() == old(self).clients().push(r),
            final(self).reservations() == old(self).reservations(),
    {
        let client = Client { id: self.clients.len() as u128, name, email, created_at: now };
        let r = client.copy();
        self.clients.push(client);
        proof {
            let c = self.clients@;
            assert forall|i: int| 0 <= i < c.len() implies (#[trigger] c[i]).id == i by {
                if i < c.len() - 1 {
                    assert(c[i] == old(self).clients@[i]);
                }
            }
        }
        r
    }

    /// All clients, in order of creation.
    pub fn list_clients(&self) -> (r: Vec<Client>)
        ensures
            r@ == self.clients(),
    {
        let mut out: Vec<Client> = Vec::new();
        let mut i: usize = 0;
        while i < self.clients.len()
            invariant
                i <= self.clients@.len(),
                out@ == self.clients@.subrange(0, i as int),
            decreases self.clients@.len() - i,
        {
            out.push(self.clients[i].copy());
            i += 1;
            assert(out@ =~= self.clients@.subrange(0, i as int));
        }
        assert(self.clients@.subrange(0, i as int) =~= self.clients@);
        out
    }

    /// Advisory check: whether no confirmed reservation overlaps
    /// `[start_time, end_time)` at the moment of the call. A later creation
    /// may still conflict.
    pub fn is_slot_available(&self, start_time: i128, end_time: i128) -> (r: bool)
        ensures
            r == self.is_free(TimeSlot { start_time, end_time }),
    {
        let slot = TimeSlot { start_time, end_time };
        let mut i: usize = 0;
        while i < self.reservations.len()
            invariant
                i <= self.reservations@.len(),
                slot == (TimeSlot { start_time, end_time }),
                forall|k: int| 0 <= k < i ==> !blocks(#[trigger] self.reservations@[k], slot),
            decreases self.reservations@.len() - i,
        {
            let res = &self.reservations[i];
            if res.status == ReservationStatus::Confirmed && res.time_slot().overlaps(&slot) {
                assert(blocks(self.reservations()[i as int], slot));
                return false;
            }
            i += 1;
        }
        true
    }
    /// Creates a confirmed reservation of `[start_time, end_time)` for
    /// `client_id`, all or nothing. An unknown client is refused with
    /// `ClientNotFound` before anything else; an interval that a confirmed
    /// reservation overlaps is refused with `ReservationConflict`. The
    /// caller has already checked that the interval is proper.
    #[verifier::rlimit(40)]
    pub fn create_reservation(
        &mut self,
        client_id: u128,
        start_time: i128,
        end_time: i128,
        notes: Option<String>,
        now: i128,
    ) -> (r: Result<Reservation, RepositoryError>)
        requires
            old(self).wf(),
            start_time < end_time,
        ensures
            final(self).wf(),
            Self::creation_step(
                *old(self),
                *final(self),
                client_id,
                TimeSlot { start_time, end_time },
                notes,
                now,
                r,
            ),
    {
        proof {
            self.lemma_has_client(client_id);
        }
        if client_id >= self.clients.len() as u128 {
            return Err(RepositoryError::ClientNotFound(client_id));
        }
        if !self.is_slot_available(start_time, end_time) {
            return Err(RepositoryError::ReservationConflict);
        }
        let ghost pre = self.reservations@;
        let ghost slot = TimeSlot { start_time, end_time };
        // Keep the order by start time: the new reservation goes after every
        // one that starts no later than it.
        let mut p: usize = 0;
        while p < self.reservations.len() && self.reservations[p].start_time <= start_time
            invariant
                p <= self.reservations@.len(),
                forall|k: int| 0 <= k < p ==> (#[trigger] self.reservations@[k]).start_time <= start_time,
            decreases self.reservations@.len() - p,
        {
            p += 1;
        }
        let fresh = Reservation {
            id: self.reservations.len() as u128,
            client_id,
            start_time,
            end_time,
            status: ReservationStatus::Confirmed,
            notes,
            created_at: now,
        };
        let result = fresh.copy();
        self.reservations.insert(p, fresh);
        proof {
            let post = self.reservations@;
            let c = self.clients@;
            pre.insert_ensures(p as int, result);
            assert(p < pre.len() ==> pre[p as int].start_time > start_time);
            // Every old reservation keeps its place or moves one up.
            assert forall|i: int| 0 <= i < post.len() && i != p implies
                (#[trigger] post[i]) == pre[if i < p { i } else { i - 1 }] by {}
            assert(sorted_by_start(post)) by {
                assert forall|i: int, j: int| 0 <= i < j < post.len() implies
                    post[i].start_time <= post[j].start_time by {
                    if j < p {
                    } else if j == p {
                    } else if i == p {
                        assert(pre[p as int].start_time > start_time);
                        assert(pre[p as int].start_time <= pre[j - 1].start_time);
                    } else {
                        assert(pre[if i < p { i } else { i - 1 }].start_time <= pre[j - 1].start_time);
                    }
                }
            }
            assert forall|i: int| 0 <= i < post.len() implies {
                &&& (#[trigger] post[i]).start_time < post[i].end_time
                &&& post[i].id < post.len()
                &&& post[i].client_id < c.len()
            } by {
                if i != p {
                    let k = if i < p { i } else { i - 1 };
                    assert(pre[k].start_time < pre[k].end_time);
                }
            }
            assert forall|i: int, j: int|
                0 <= i < post.len() && 0 <= j < post.len() && i != j implies
                (#[trigger] post[i]).id != (#[trigger] post[j]).id by {
                let ki = if i < p { i } else { i - 1 };
                let kj = if j < p { j } else { j - 1 };
                if i != p && j != p {
                    assert(pre[ki].id != pre[kj].id);
                } else if i == p {
                    assert(pre[kj].id < pre.len());
                } else {
                    assert(pre[ki].id < pre.len());
                }
            }
            assert forall|i: int, j: int|
                0 <= i < post.len() && 0 <= j < post.len() && i != j && post[i].is_confirmed()
                    && post[j].is_confirmed() implies
                !overlaps((#[trigger] post[i]).slot(), (#[trigger] post[j]).slot()) by {
                let ki = if i < p { i } else { i - 1 };
                let kj = if j < p { j } else { j - 1 };
                if i != p && j != p {
                    assert(!overlaps(pre[ki].slot(), pre[kj].slot()));
                } else if i == p {
                    assert(!blocks(pre[kj], slot));
                } else {
                    assert(!blocks(pre[ki], slot));
                }
            }
            assert(result == old(self).fresh_reservation(client_id, slot, notes, now));
        }
        Ok(result)
    }
    /// Copies, in order, the reservations of one client (`by_client`) or the
    /// confirmed ones that overlap `slot`.
    fn select(&self, slot: TimeSlot, client_id: u128, by_client: bool) -> (r: Vec<Reservation>)
        requires
            self.wf(),
        ensures
            r@ == self.reservations().filter(
                if by_client {
                    owned_by(client_id)
                } else {
                    blocking(slot)
                },
            ),
            sorted_by_start(r@),
    {
        let ghost pred = if by_client {
            owned_by(client_id)
        } else {
            blocking(slot)
        };
        let ghost all = self.reservations@;
        let mut out: Vec<Reservation> = Vec::new();
        let mut i: usize = 0;
        while i < self.reservations.len()
            invariant
                self.wf(),
                all == self.reservations@,
                pred == (if by_client {
                    owned_by(client_id)
                } else {
                    blocking(slot)
                }),
                i <= all.len(),
                out@ == all.subrange(0, i as int).filter(pred),
                sorted_by_start(out@),
                forall|k: int, j: int|
                    0 <= k < out@.len() && i <= j < all.len() ==> (#[trigger] out@[k]).start_time
                        <= (#[trigger] all[j]).start_time,
            decreases all.len() - i,
        {
            let res = &self.reservations[i];
            let keep = if by_client {
                res.client_id == client_id
            } else {
                res.status == ReservationStatus::Confirmed && res.time_slot().overlaps(&slot)
            };
            proof {
                reveal(Seq::filter);
                assert(all.subrange(0, i + 1).drop_last() =~= all.subrange(0, i as int));
                assert(keep == pred(all[i as int]));
            }
            if keep {
                out.push(res.copy());
            }
            i += 1;
        }
        assert(all.subrange(0, i as int) =~= all);
        out
    }

    /// The confirmed reservations that overlap the window
    /// `[window_start, window_end)`, ordered by start time.
    pub fn find_overlapping(&self, window_start: i128, window_end: i128) -> (r: Vec<Reservation>)
        requires
            self.wf(),
        ensures
            r@ == self.reservations().filter(
                blocking(TimeSlot { start_time: window_start, end_time: window_end }),
            ),
            sorted_by_start(r@),
    {
        self.select(TimeSlot { start_time: window_start, end_time: window_end }, 0, false)
    }

    /// The free one-hour slots of the window: candidates tile the window
    /// from `window_start`, and one is free when no confirmed reservation
    /// that overlaps the window overlaps it. The last candidate may reach
    /// past `window_end`.
    pub fn find_available_slots(&self, window_start: i128, window_end: i128) -> (r: Vec<TimeSlot>)
        requires
            self.wf(),
            window_end <= i128::MAX - SLOT_NANOS,
        ensures
            r@ == free_from(
                window_start as int,
                window_end as int,
                slots_of(
                    self.reservations().filter(
                        blocking(TimeSlot { start_time: window_start, end_time: window_end }),
                    ),
                ),
            ),
    {
        let existing = self.find_overlapping(window_start, window_end);
        let mut booked: Vec<TimeSlot> = Vec::new();
        let mut i: usize = 0;
        while i < existing.len()
            invariant
                i <= existing@.len(),
                booked@ == slots_of(existing@.subrange(0, i as int)),
            decreases existing@.len() - i,
        {
            booked.push(existing[i].time_slot());
            i += 1;
            assert(booked@ =~= slots_of(existing@.subrange(0, i as int)));
        }
        assert(existing@.subrange(0, i as int) =~= existing@);
        free_slots(window_start, window_end, &booked)
    }

    /// The reservation with id `id`, of any status.
    pub fn get_reservation(&self, id: u128) -> (r: Result<Reservation, RepositoryError>)
        requires
            self.wf(),
        ensures
            self.has_reservation(id) <==> r is Ok,
            r is Ok ==> exists|i: int|
                0 <= i < self.reservations().len() && self.reservations()[i].id == id
                    && r == Ok::<Reservation, RepositoryError>(#[trigger] self.reservations()[i]),
            !self.has_reservation(id) ==> r == Err::<Reservation, RepositoryError>(
                RepositoryError::ReservationNotFound(id),
            ),
    {
        match self.position_of(id) {
            Some(i) => Ok(self.reservations[i].copy()),
            None => Err(RepositoryError::ReservationNotFound(id)),
        }
    }

    fn position_of(&self, id: u128) -> (r: Option<usize>)
        ensures
            r is None ==> !self.has_reservation(id),
            r matches Some(i) ==> i < self.reservations().len() && self.reservations()[i as int].id == id,
    {
        let mut i: usize = 0;
        while i < self.reservations.len()
            invariant
                i <= self.reservations@.len(),
                forall|k: int| 0 <= k < i ==> (#[trigger] self.reservations()[k]).id != id,
            decreases self.reservations@.len() - i,
        {
            if self.reservations[i].id == id {
                return Some(i);
            }
            i += 1;
        }
        None
    }

    /// Cancels the reservation `id`. A confirmed one becomes cancelled; one
    /// already cancelled stays so and the call still succeeds; an unknown id
    /// is refused with `ReservationNotFound`.
    pub fn cancel_reservation(&mut self, id: u128) -> (r: Result<(), RepositoryError>)
        requires
            old(self).wf(),
        ensures
            final(self).wf(),
            Self::cancel_step(*old(self), *final(self), id, r),
    {
        match self.position_of(id) {
            None => Err(RepositoryError::ReservationNotFound(id)),
            Some(i) => {
                let ghost pre = self.reservations@;
                self.reservations[i].status = ReservationStatus::Cancelled;
                proof {
                    let post = self.reservations@;
                    assert(post =~= pre.update(i as int, cancelled(pre[i as int])));
                    assert forall|a: int, b: int|
                        0 <= a < post.len() && 0 <= b < post.len() && a != b && post[a].is_confirmed()
                            && post[b].is_confirmed() implies
                        !overlaps((#[trigger] post[a]).slot(), (#[trigger] post[b]).slot()) by {
                        assert(pre[a].slot() == post[a].slot());
                        assert(pre[b].slot() == post[b].slot());
                    }
                    assert forall|a: int, b: int|
                        0 <= a < post.len() && 0 <= b < post.len() && a != b implies
                        (#[trigger] post[a]).id != (#[trigger] post[b]).id by {
                        assert(pre[a].id != pre[b].id);
                    }
                    assert(sorted_by_start(post)) by {
                        assert forall|a: int, b: int| 0 <= a < b < post.len() implies
                            post[a].start_time <= post[b].start_time by {
                            assert(pre[a].start_time <= pre[b].start_time);
                        }
                    }
                    assert forall|a: int| 0 <= a < post.len() implies {
                        &&& (#[trigger] post[a]).start_time < post[a].end_time
                        &&& post[a].id < post.len()
                        &&& post[a].client_id < self.clients@.len()
                    } by {
                        assert(pre[a].start_time < pre[a].end_time);
                    }
                }
                Ok(())
            }
        }
    }

    /// All reservations of a client, of any status, ordered by start time;
    /// an unknown client is refused with `ClientNotFound`.
    pub fn get_client_reservations(&self, client_id: u128) -> (r: Result<Vec<Reservation>, RepositoryError>)
        requires
            self.wf(),
        ensures
            self.has_client(client_id) <==> r is Ok,
            r matches Ok(v) ==> v@ == self.reservations().filter(owned_by(client_id)) && sorted_by_start(v@),
            !self.has_client(client_id) ==> r == Err::<Vec<Reservation>, RepositoryError>(
                RepositoryError::ClientNotFound(client_id),
            ),
    {
        proof {
            self.lemma_has_client(client_id);
        }
        if client_id >= self.clients.len() as u128 {
            return Err(RepositoryError::ClientNotFound(client_id));
        }
        Ok(self.select(TimeSlot { start_time: 0, end_time: 0 }, client_id, true))
    }
}


/// No two confirmed reservations of a well-formed store share an instant.
pub proof fn lemma_confirmed_never_overlap(store: ReservationRepository, i: int, j: int)
    requires
        store.wf(),
        0 <= i < store.reservations().len(),
        0 <= j < store.reservations().len(),
        i != j,
        store.reservations()[i].is_confirmed(),
        store.reservations()[j].is_confirmed(),
    ensures
        !overlaps(store.reservations()[i].slot(), store.reservations()[j].slot()),
{
    assert(!overlaps(store.reservations@[i].slot(), store.reservations@[j].slot()));
}

/// After a successful creation the interval is no longer free.
proof fn lemma_created_is_taken(
    pre: ReservationRepository,
    post: ReservationRepository,
    client_id: u128,
    slot: TimeSlot,
    notes: Option<String>,
    now: i128,
    r: Result<Reservation, RepositoryError>,
)
    requires
        slot.is_proper(),
        ReservationRepository::creation_step(pre, post, client_id, slot, notes, now, r),
        r is Ok,
    ensures
        !post.is_free(slot),
{
    let fresh = pre.fresh_reservation(client_id, slot, notes, now);
    let p = choose|p: int|
        0 <= p <= pre.reservations().len() && post.reservations() == pre.reservations().insert(p, fresh);
    pre.reservations().insert_ensures(p, fresh);
    assert(blocks(post.reservations()[p], slot));
}

proof fn lemma_taken_stays_taken(
    stores: Seq<ReservationRepository>,
    results: Seq<Result<Reservation, RepositoryError>>,
    client_ids: Seq<u128>,
    notes: Seq<Option<String>>,
    nows: Seq<i128>,
    slot: TimeSlot,
    k: int,
)
    requires
        slot.is_proper(),
        1 <= k < stores.len(),
        stores.len() == results.len() + 1,
        client_ids.len() == results.len(),
        notes.len() == results.len(),
        nows.len() == results.len(),
        stores[0].is_free(slot),
        forall|m: int| 0 <= m < client_ids.len() ==> stores[0].has_client(#[trigger] client_ids[m]),
        forall|m: int|
            0 <= m < results.len() ==> ReservationRepository::creation_step(
                #[trigger] stores[m],
                stores[m + 1],
                client_ids[m],
                slot,
                notes[m],
                nows[m],
                results[m],
            ),
    ensures
        !stores[k].is_free(slot),
        stores[k].clients() == stores[0].clients(),
        results[0] is Ok,
    decreases k,
{
    assert(ReservationRepository::creation_step(
        stores[0], stores[1], client_ids[0], slot, notes[0], nows[0], results[0]));
    if k == 1 {
        lemma_created_is_taken(stores[0], stores[1], client_ids[0], slot, notes[0], nows[0], results[0]);
    } else {
        lemma_taken_stays_taken(stores, results, client_ids, notes, nows, slot, k - 1);
        assert(ReservationRepository::creation_step(
            stores[k - 1], stores[k], client_ids[k - 1], slot, notes[k - 1], nows[k - 1], results[k - 1]));
        assert(stores[k - 1].has_client(client_ids[k - 1]));
    }
}

/// Of any number of attempts to book the same interval, made one after
/// another by clients that exist, on a store where the interval is free:
/// the first attempt succeeds and every later one fails with
/// `ReservationConflict`. Concurrent attempts are ordered by the store, so
/// exactly one of them wins.
pub proof fn lemma_one_creation_wins(
    stores: Seq<ReservationRepository>,
    results: Seq<Result<Reservation, RepositoryError>>,
    client_ids: Seq<u128>,
    notes: Seq<Option<String>>,
    nows: Seq<i128>,
    slot: TimeSlot,
)
    requires
        slot.is_proper(),
        results.len() >= 1,
        stores.len() == results.len() + 1,
        client_ids.len() == results.len(),
        notes.len() == results.len(),
        nows.len() == results.len(),
        stores[0].is_free(slot),
        forall|m: int| 0 <= m < client_ids.len() ==> stores[0].has_client(#[trigger] client_ids[m]),
        forall|m: int|
            0 <= m < results.len() ==> ReservationRepository::creation_step(
                #[trigger] stores[m],
                stores[m + 1],
                client_ids[m],
                slot,
                notes[m],
                nows[m],
                results[m],
            ),
    ensures
        results[0] is Ok,
        forall|m: int|
            1 <= m < results.len() ==> #[trigger] results[m] == Err::<Reservation, RepositoryError>(
                RepositoryError::ReservationConflict,
            ),
{
    lemma_taken_stays_taken(stores, results, client_ids, notes, nows, slot, 1);
    assert forall|m: int| 1 <= m < results.len() implies #[trigger] results[m] == Err::<
        Reservation,
        RepositoryError,
    >(RepositoryError::ReservationConflict) by {
        lemma_taken_stays_taken(stores, results, client_ids, notes, nows, slot, m);
        assert(ReservationRepository::creation_step(
            stores[m], stores[m + 1], client_ids[m], slot, notes[m], nows[m], results[m]));
        assert(stores[m].has_client(client_ids[m]));
    }
}

/// Cancelling the same reservation twice in a row succeeds both times, and
/// the second call changes nothing; cancelling an unknown id fails with
/// `ReservationNotFound`.
pub proof fn lemma_cancel_idempotent(
    s0: ReservationRepository,
    s1: ReservationRepository,
    s2: ReservationRepository,
    id: u128,
    r1: Result<(), RepositoryError>,
    r2: Result<(), RepositoryError>,
)
    requires
        s0.wf(),
        ReservationRepository::cancel_step(s0, s1, id, r1),
        ReservationRepository::cancel_step(s1, s2, id, r2),
    ensures
        s0.has_reservation(id) ==> r1 is Ok && r2 is Ok && s2.reservations() == s1.reservations()
            && s2.clients() == s1.clients(),
        !s0.has_reservation(id) ==> r1 == Err::<(), RepositoryError>(
            RepositoryError::ReservationNotFound(id),
        ),
{
    if s0.has_reservation(id) {
        let a = s0.reservations();
        let i = choose|i: int|
            0 <= i < a.len() && a[i].id == id && s1.reservations() == a.update(i, cancelled(a[i]));
        let b = s1.reservations();
        assert(b[i].id == id);
        assert(s1.has_reservation(id));
        let j = choose|j: int|
            0 <= j < b.len() && b[j].id == id && s2.reservations() == b.update(j, cancelled(b[j]));
        if j != i {
            assert(a[j].id == b[j].id);
            assert(a[i].id != a[j].id) by {
                assert(a == s0.reservations@);
            }
        }
        assert(cancelled(b[i]) == b[i]);
        assert(s2.reservations() =~= b);
    }
}

/// Two one-hour bookings that only touch at an endpoint both succeed: on a
/// store where `[t, t + 2h)` is free and the client exists, booking
/// `[t, t + 1h)` and then `[t + 1h, t + 2h)` gives two reservations.
pub proof fn lemma_touching_bookings_succeed(
    s0: ReservationRepository,
    s1: ReservationRepository,
    s2: ReservationRepository,
    client_id: u128,
    t: i128,
    notes1: Option<String>,
    notes2: Option<String>,
    now1: i128,
    now2: i128,
    r1: Result<Reservation, RepositoryError>,
    r2: Result<Reservation, RepositoryError>,
)
    requires
        t <= i128::MAX - 2 * SLOT_NANOS,
        s0.has_client(client_id),
        s0.is_free(TimeSlot { start_time: t, end_time: (t + 2 * SLOT_NANOS) as i128 }),
        ReservationRepository::creation_step(
            s0,
            s1,
            client_id,
            TimeSlot { start_time: t, end_time: (t + SLOT_NANOS) as i128 },
            notes1,
            now1,
            r1,
        ),
        ReservationRepository::creation_step(
            s1,
            s2,
            client_id,
            TimeSlot { start_time: (t + SLOT_NANOS) as i128, end_time: (t + 2 * SLOT_NANOS) as i128 },
            notes2,
            now2,
            r2,
        ),
    ensures
        r1 is Ok,
        r2 is Ok,
{
    let wide = TimeSlot { start_time: t, end_time: (t + 2 * SLOT_NANOS) as i128 };
    let first = TimeSlot { start_time: t, end_time: (t + SLOT_NANOS) as i128 };
    let second = TimeSlot { start_time: (t + SLOT_NANOS) as i128, end_time: (t + 2 * SLOT_NANOS) as i128 };
    let a = s0.reservations();
    assert(s0.is_free(first)) by {
        assert forall|i: int| 0 <= i < a.len() implies !blocks(#[trigger] a[i], first) by {
            assert(!blocks(a[i], wide));
        }
    }
    let fresh = s0.fresh_reservation(client_id, first, notes1, now1);
    let p = choose|p: int| 0 <= p <= a.len() && s1.reservations() == a.insert(p, fresh);
    a.insert_ensures(p, fresh);
    let b = s1.reservations();
    assert(s1.has_client(client_id));
    assert forall|i: int| 0 <= i < b.len() implies !blocks(#[trigger] b[i], second) by {
        if i < p {
            assert(!blocks(a[i], wide));
        } else if i > p {
            assert(b[i] == a[i - 1]);
            assert(!blocks(a[i - 1], wide));
        }
    }
}

/// A booking that overlaps the previous one by half an hour is refused:
/// on a store where `[t, t + 1h)` is free and the client exists, booking it
/// succeeds, and booking `[t + 30min, t + 90min)` next fails with
/// `ReservationConflict`.
pub proof fn lemma_shifted_booking_conflicts(
    s0: ReservationRepository,
    s1: ReservationRepository,
    s2: ReservationRepository,
    client_id: u128,
    t: i128,
    notes1: Option<String>,
    notes2: Option<String>,
    now1: i128,
    now2: i128,
    r1: Result<Reservation, RepositoryError>,
    r2: Result<Reservation, RepositoryError>,
)
    requires
        t <= i128::MAX - 2 * SLOT_NANOS,
        s0.has_client(client_id),
        s0.is_free(TimeSlot { start_time: t, end_time: (t + SLOT_NANOS) as i128 }),
        ReservationRepository::creation_step(
            s0,
            s1,
            client_id,
            TimeSlot { start_time: t, end_time: (t + SLOT_NANOS) as i128 },
            notes1,
            now1,
            r1,
        ),
        ReservationRepository::creation_step(
            s1,
            s2,
            client_id,
            TimeSlot {
                start_time: (t + SLOT_NANOS / 2) as i128,
                end_time: (t + SLOT_NANOS + SLOT_NANOS / 2) as i128,
            },
            notes2,
            now2,
            r2,
        ),
    ensures
        r1 is Ok,
        r2 == Err::<Reservation, RepositoryError>(RepositoryError::ReservationConflict),
{
    let first = TimeSlot { start_time: t, end_time: (t + SLOT_NANOS) as i128 };
    let shifted = TimeSlot {
        start_time: (t + SLOT_NANOS / 2) as i128,
        end_time: (t + SLOT_NANOS + SLOT_NANOS / 2) as i128,
    };
    let a = s0.reservations();
    let fresh = s0.fresh_reservation(client_id, first, notes1, now1);
    let p = choose|p: int| 0 <= p <= a.len() && s1.reservations() == a.insert(p, fresh);
    a.insert_ensures(p, fresh);
    assert(blocks(s1.reservations()[p], shifted));
    assert(s1.has_client(client_id));
}

} // verus!
