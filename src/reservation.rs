use vstd::prelude::*;

use crate::error::Error;
use crate::status::{persisted_code, status_code, wire_of, ReservationStatus, RsvpStatus};
use crate::text::owned;
use crate::time::{instant, Timestamp};

verus! {

/// The identifier the store gives a reservation; `0` means "not yet stored".
pub type ReservationId = i64;

/// A hold of a user on a resource for the half-open interval `[start, end)`.
#[derive(Debug, PartialEq, Eq)]
pub struct Reservation {
    pub id: i64,
    pub user_id: String,
    pub resource_id: String,
    pub start: Option<Timestamp>,
    pub end: Option<Timestamp>,
    pub note: String,
    /// The wire code of the status (see `ReservationStatus`).
    pub status: i32,
}

/// The value of a reservation, with its strings as character sequences.
pub struct ReservationView {
    pub id: i64,
    pub user_id: Seq<char>,
    pub resource_id: Seq<char>,
    pub start: Option<Timestamp>,
    pub end: Option<Timestamp>,
    pub note: Seq<char>,
    pub status: i32,
}

impl View for Reservation {
    type V = ReservationView;

    open spec fn view(&self) -> ReservationView {
        ReservationView {
            id: self.id,
            user_id: self.user_id@,
            resource_id: self.resource_id@,
            start: self.start,
            end: self.end,
            note: self.note@,
            status: self.status,
        }
    }
}

impl Clone for Reservation {
    fn clone(&self) -> (r: Self)
        ensures
            r@ == self@,
    {
        Reservation {
            id: self.id,
            user_id: self.user_id.clone(),
            resource_id: self.resource_id.clone(),
            start: self.start,
            end: self.end,
            note: self.note.clone(),
            status: self.status,
        }
    }
}

/// The values of a sequence of reservations.
pub open spec fn views(s: Seq<Reservation>) -> Seq<ReservationView> {
    s.map_values(|r: Reservation| r@)
}

/// Whether an optional pair of bounds is a proper interval: both present and
/// the start strictly before the end.
pub open spec fn valid_range(start: Option<Timestamp>, end: Option<Timestamp>) -> bool {
    match (start, end) {
        (Some(s), Some(e)) => instant(s) < instant(e),
        _ => false,
    }
}

/// Whether a reservation carries a proper interval.
pub open spec fn has_valid_span(r: ReservationView) -> bool {
    valid_range(r.start, r.end)
}

/// A range whose bounds may be open ended (`None`).
#[derive(Clone, Copy, Debug, PartialEq, Eq)]
pub struct NaiveRange<T> {
    pub start: Option<T>,
    pub end: Option<T>,
}

/// Checks that both bounds are present and that `start` is strictly before `end`.
pub fn validate_range(start: Option<Timestamp>, end: Option<Timestamp>) -> (r: Result<(), Error>)
    ensures
        r is Ok <==> valid_range(start, end),
        r is Err ==> r == Err::<(), Error>(Error::InvalidTime),
{
    match (start, end) {
        (Some(s), Some(e)) => {
            if s.is_before(&e) {
                Ok(())
            } else {
                Err(Error::InvalidTime)
            }
        },
        _ => Err(Error::InvalidTime),
    }
}

/// The interval `[start, end)` of two present bounds.
pub fn get_timespan(start: Option<Timestamp>, end: Option<Timestamp>) -> (r: NaiveRange<Timestamp>)
    requires
        start is Some,
        end is Some,
    ensures
        r.start == start,
        r.end == end,
{
    NaiveRange { start, end }
}

/// Checks that a reservation id names a stored reservation: it must be positive.
pub fn validate_id(id: ReservationId) -> (r: Result<(), Error>)
    ensures
        r is Ok <==> id > 0,
        r is Err ==> r == Err::<(), Error>(Error::InvalidReservationId(id)),
{
    if id <= 0 {
        Err(Error::InvalidReservationId(id))
    } else {
        Ok(())
    }
}

impl Reservation {
    /// A reservation that is not stored yet, in the `Pending` state.
    pub fn new_pending(uid: &str, rid: &str, start: Timestamp, end: Timestamp, note: &str) -> (r:
        Reservation)
        ensures
            r.id == 0,
            r.user_id@ == uid@,
            r.resource_id@ == rid@,
            r.start == Some(start),
            r.end == Some(end),
            r.note@ == note@,
            r.status == status_code(ReservationStatus::Pending),
    {
        Reservation {
            id: 0,
            user_id: owned(uid),
            resource_id: owned(rid),
            start: Some(start),
            end: Some(end),
            note: owned(note),
            status: ReservationStatus::Pending.code(),
        }
    }

    /// Rebuilds a reservation from the columns of a stored row.
    pub fn from_columns(
        id: i64,
        resource_id: String,
        user_id: String,
        range: NaiveRange<Timestamp>,
        note: String,
        status: RsvpStatus,
    ) -> (r: Reservation)
        requires
            range.start is Some,
            range.end is Some,
        ensures
            r@ == (ReservationView {
                id,
                user_id: user_id@,
                resource_id: resource_id@,
                start: range.start,
                end: range.end,
                note: note@,
                status: status_code(wire_of(status)),
            }),
    {
        let wire: ReservationStatus = ReservationStatus::from(status);
        Reservation {
            id,
            resource_id,
            user_id,
            start: range.start,
            end: range.end,
            note,
            status: wire.code(),
        }
    }

    /// Checks that the reservation carries a proper interval.
    pub fn validate(&self) -> (r: Result<(), Error>)
        ensures
            r is Ok <==> has_valid_span(self@),
            r is Err ==> r == Err::<(), Error>(Error::InvalidTime),
    {
        validate_range(self.start, self.end)
    }

    /// The interval `[start, end)` of a reservation whose bounds are present.
    pub fn get_time_span(&self) -> (r: NaiveRange<Timestamp>)
        requires
            self.start is Some,
            self.end is Some,
        ensures
            r.start == self.start,
            r.end == self.end,
    {
        get_timespan(self.start, self.end)
    }

    /// The status a row stores for this reservation when it is inserted.
    pub fn insert_status(&self) -> (r: RsvpStatus)
        ensures
            status_code(wire_of(r)) == persisted_code(self.status),
    {
        RsvpStatus::for_insert(self.status)
    }
}

} // verus!
