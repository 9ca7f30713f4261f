use vstd::prelude::*;

use crate::error::Error;
use crate::reservation::{NaiveRange, ReservationView};
use crate::status::STATUS_UNKNOWN;
use crate::time::{instant, Timestamp};

verus! {

/// A time-window read: every reservation whose interval lies inside
/// `[start, end)` (a missing bound leaves that side open), for the given user
/// and resource (an empty id matches everything) and status (`Unknown`
/// matches every status).
#[derive(Debug, PartialEq, Eq, Default)]
pub struct ReservationQuery {
    pub user_id: String,
    pub resource_id: String,
    /// The wire code of the status to match.
    pub status: i32,
    pub start: Option<Timestamp>,
    pub end: Option<Timestamp>,
    pub page: i64,
    pub page_size: i64,
    pub desc: bool,
}

/// The value of a query, with its strings as character sequences.
pub struct ReservationQueryView {
    pub user_id: Seq<char>,
    pub resource_id: Seq<char>,
    pub status: i32,
    pub start: Option<Timestamp>,
    pub end: Option<Timestamp>,
    pub desc: bool,
}

impl View for ReservationQuery {
    type V = ReservationQueryView;

    open spec fn view(&self) -> ReservationQueryView {
        ReservationQueryView {
            user_id: self.user_id@,
            resource_id: self.resource_id@,
            status: self.status,
            start: self.start,
            end: self.end,
            desc: self.desc,
        }
    }
}

/// Whether the window of a query is acceptable: when both bounds are given the
/// start must come strictly before the end.
pub open spec fn query_window_ok(q: ReservationQueryView) -> bool {
    match (q.start, q.end) {
        (Some(s), Some(e)) => instant(s) < instant(e),
        _ => true,
    }
}

/// Whether a reservation with an interval is one a query asks for.
pub open spec fn query_matches(q: ReservationQueryView, r: ReservationView) -> bool {
    &&& (q.user_id.len() == 0 || r.user_id == q.user_id)
    &&& (q.resource_id.len() == 0 || r.resource_id == q.resource_id)
    &&& (q.status == STATUS_UNKNOWN || r.status == q.status)
    &&& (q.start is None || instant(q.start->0) <= instant(r.start->0))
    &&& (q.end is None || instant(r.end->0) <= instant(q.end->0))
}

impl ReservationQuery {
    /// The window of the query; a missing bound leaves that side open.
    pub fn get_query_timespan(&self) -> (r: NaiveRange<Timestamp>)
        ensures
            r.start == self.start,
            r.end == self.end,
    {
        NaiveRange { start: self.start, end: self.end }
    }

    /// The status code the query narrows to, or `None` when it matches every status.
    pub fn status_filter(&self) -> (r: Option<i32>)
        ensures
            r == (if self.status == STATUS_UNKNOWN {
                None
            } else {
                Some(self.status)
            }),
    {
        if self.status == STATUS_UNKNOWN {
            None
        } else {
            Some(self.status)
        }
    }

    /// Checks the window: with both bounds given, the start must come first.
    pub fn validate(&self) -> (r: Result<(), Error>)
        ensures
            r is Ok <==> query_window_ok(self@),
            r is Err ==> r == Err::<(), Error>(Error::InvalidTime),
    {
        match (self.start, self.end) {
            (Some(s), Some(e)) => if s.is_before(&e) {
                Ok(())
            } else {
                Err(Error::InvalidTime)
            },
            _ => Ok(()),
        }
    }
}

} // verus!
