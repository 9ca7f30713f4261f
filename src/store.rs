use vstd::prelude::*;

use crate::conflict::{ReservationConflict, ReservationConflictInfo, ReservationWindow};
use crate::error::Error;
use crate::filter::{cursor_value, filter_error, filter_limit, normalized, page_info_of, ReservationFilter, ReservationFilterView};
use crate::pager::{page_pager, page_rows, FilterPager};
use crate::query::{query_matches, query_window_ok, ReservationQuery, ReservationQueryView};
use crate::reservation::{has_valid_span, validate_id, views, Reservation, ReservationView};
use crate::status::{persisted_code, STATUS_BLOCKED, STATUS_CONFIRMED, STATUS_PENDING};
use crate::text::owned;
use crate::time::instant;

verus! {

/// Whether two reservations hold the same resource over intersecting intervals.
pub open spec fn overlaps(a: ReservationView, b: ReservationView) -> bool {
    &&& a.resource_id == b.resource_id
    &&& instant(a.start->0) < instant(b.end->0)
    &&& instant(b.start->0) < instant(a.end->0)
}

/// Whether a status code is one a stored row can carry.
pub open spec fn is_stored_status(code: i32) -> bool {
    code == STATUS_PENDING || code == STATUS_CONFIRMED || code == STATUS_BLOCKED
}

/// No two rows hold the same resource over intersecting intervals.
pub open spec fn no_overlap(rows: Seq<ReservationView>) -> bool {
    forall|i: int, j: int|
        0 <= i < rows.len() && 0 <= j < rows.len() && i != j ==> !overlaps(
            #[trigger] rows[i],
            #[trigger] rows[j],
        )
}

/// Row ids strictly increase along the sequence.
pub open spec fn ids_ascending(rows: Seq<ReservationView>) -> bool {
    forall|i: int, j: int| 0 <= i < j < rows.len() ==> #[trigger] rows[i].id < #[trigger] rows[j].id
}

/// The invariant of the stored rows: ids positive, increasing and below the
/// next id to hand out; every row with a proper interval and a stored status;
/// no two rows in conflict.
pub open spec fn rows_wf(rows: Seq<ReservationView>, next_id: int) -> bool {
    &&& 1 <= next_id <= i64::MAX
    &&& ids_ascending(rows)
    &&& forall|i: int|
        0 <= i < rows.len() ==> {
            &&& 0 < (#[trigger] rows[i]).id < next_id
            &&& has_valid_span(rows[i])
            &&& is_stored_status(rows[i].status)
        }
    &&& no_overlap(rows)
}

/// Row `i` is the first that conflicts with `r`.
pub open spec fn first_overlap(rows: Seq<ReservationView>, r: ReservationView, i: int) -> bool {
    &&& 0 <= i < rows.len()
    &&& overlaps(rows[i], r)
    &&& forall|j: int| 0 <= j < i ==> !overlaps(#[trigger] rows[j], r)
}

/// Whether some row holds the given id.
pub open spec fn has_id(rows: Seq<ReservationView>, id: i64) -> bool {
    exists|i: int| 0 <= i < rows.len() && #[trigger] rows[i].id == id
}

/// Whether a window describes the interval of a reservation.
pub open spec fn window_is(w: ReservationWindow, r: ReservationView) -> bool {
    w.rid@ == r.resource_id && w.start == r.start->0 && w.end == r.end->0
}

/// The failure a conflict is reported with: both windows, the asked-for one as `new`.
pub open spec fn conflict_reported(
    res: Result<Reservation, Error>,
    new: ReservationView,
    old: ReservationView,
) -> bool {
    &&& res matches Err(Error::ConflictReservation(ReservationConflictInfo::Parsed(c)))
    &&& window_is(res->Err_0->ConflictReservation_0->Parsed_0.new, new)
    &&& window_is(res->Err_0->ConflictReservation_0->Parsed_0.old, old)
}

/// The row stored for a reservation: the given id and the persisted status.
pub open spec fn inserted(r: ReservationView, id: int) -> ReservationView {
    ReservationView { id: id as i64, status: persisted_code(r.status), ..r }
}

/// A row after confirmation: `Pending` becomes `Confirmed`, any other status stays.
pub open spec fn confirmed(r: ReservationView) -> ReservationView {
    if r.status == STATUS_PENDING {
        ReservationView { status: STATUS_CONFIRMED, ..r }
    } else {
        r
    }
}

/// Rows in id order, ascending or descending.
pub open spec fn in_order(rows: Seq<ReservationView>, desc: bool) -> Seq<ReservationView> {
    if desc {
        rows.reverse()
    } else {
        rows
    }
}

/// The position of an id along a direction: larger is later.
pub open spec fn key(desc: bool, id: int) -> int {
    if desc {
        -id
    } else {
        id
    }
}

/// Whether a row has the user, resource and status a filter asks for.
pub open spec fn filter_matches(f: ReservationFilterView, r: ReservationView) -> bool {
    &&& (f.user_id.len() == 0 || r.user_id == f.user_id)
    &&& (f.resource_id.len() == 0 || r.resource_id == f.resource_id)
    &&& r.status == f.status
}

/// The rows a filter asks for that come after position `after` in its direction.
pub open spec fn after_pred(f: ReservationFilterView, after: int) -> spec_fn(ReservationView) -> bool {
    |r: ReservationView| filter_matches(f, r) && key(f.desc, r.id as int) > after
}

/// The rows a filter asks for, wherever they stand.
pub open spec fn match_pred(f: ReservationFilterView) -> spec_fn(ReservationView) -> bool {
    |r: ReservationView| filter_matches(f, r)
}

/// Every row a filter asks for, in its direction.
pub open spec fn filter_all(rows: Seq<ReservationView>, f: ReservationFilterView) -> Seq<
    ReservationView,
> {
    in_order(rows, f.desc).filter(match_pred(f))
}

/// The rows a filter asks for after its cursor, in its direction.
pub open spec fn filter_candidates(rows: Seq<ReservationView>, f: ReservationFilterView) -> Seq<
    ReservationView,
> {
    in_order(rows, f.desc).filter(after_pred(f, key(f.desc, cursor_value(f) as int)))
}

/// The first `n` elements of `s`, or all of them when there are fewer.
pub open spec fn take_at_most<A>(s: Seq<A>, n: int) -> Seq<A> {
    if s.len() > n {
        s.take(n)
    } else {
        s
    }
}

/// The rows a filter fetches from the store: its candidates, up to its limit.
pub open spec fn filter_fetch(rows: Seq<ReservationView>, f: ReservationFilterView) -> Seq<
    ReservationView,
> {
    take_at_most(filter_candidates(rows, f), filter_limit(f))
}

/// What a query returns: the matching rows in id order, in its direction.
pub open spec fn query_pred(q: ReservationQueryView) -> spec_fn(ReservationView) -> bool {
    |r: ReservationView| query_matches(q, r)
}

pub open spec fn query_result(rows: Seq<ReservationView>, q: ReservationQueryView) -> Seq<
    ReservationView,
> {
    in_order(rows, q.desc).filter(query_pred(q))
}

proof fn lemma_filter_step(s: Seq<ReservationView>, i: int, p: spec_fn(ReservationView) -> bool)
    requires
        0 <= i < s.len(),
    ensures
        s.take(i + 1).filter(p) == (if p(s[i]) {
            s.take(i).filter(p).push(s[i])
        } else {
            s.take(i).filter(p)
        }),
{
    reveal(Seq::filter);
    assert(s.take(i + 1).drop_last() =~= s.take(i));
}

/// Rows held in memory, ordered by id, with the same operations as a
/// database-backed manager and the same exclusion rule.
pub struct MemoryStore {
    rows: Vec<Reservation>,
    next_id: i64,
}

impl MemoryStore {
    /// The stored rows, in id order.
    pub closed spec fn rows(&self) -> Seq<ReservationView> {
        views(self.rows@)
    }

    /// The id the next stored reservation receives.
    pub closed spec fn next_id(&self) -> int {
        self.next_id as int
    }

    pub open spec fn wf(&self) -> bool {
        rows_wf(self.rows(), self.next_id())
    }

    /// An empty store whose first id is 1.
    pub fn new() -> (r: MemoryStore)
        ensures
            r.wf(),
            r.rows() == Seq::<ReservationView>::empty(),
            r.next_id() == 1,
    {
        let r = MemoryStore { rows: Vec::new(), next_id: 1 };
        assert(r.rows() =~= Seq::<ReservationView>::empty());
        r
    }

    /// How many rows are stored.
    pub fn len(&self) -> (r: usize)
        ensures
            r == self.rows().len(),
    {
        self.rows.len()
    }

    fn index_of(&self, id: i64) -> (r: Option<usize>)
        requires
            self.wf(),
        ensures
            r matches Some(i) ==> i < self.rows().len() && self.rows()[i as int].id == id,
            r matches Some(i) ==> forall|j: int|
                0 <= j < self.rows().len() && #[trigger] self.rows()[j].id == id ==> j == i,
            r is None ==> !has_id(self.rows(), id),
    {
        let mut i: usize = 0;
        while i < self.rows.len()
            invariant
                0 <= i <= self.rows.len(),
                self.rows().len() == self.rows@.len(),
                self.wf(),
                forall|j: int| 0 <= j < i ==> #[trigger] self.rows()[j].id != id,
            decreases self.rows.len() - i,
        {
            if self.rows[i].id == id {
                assert(self.rows()[i as int].id == id);
                assert forall|j: int|
                    0 <= j < self.rows().len() && #[trigger] self.rows()[j].id == id implies j
                    == i by {
                    if j < i {
                        assert(self.rows()[j].id < self.rows()[i as int].id);
                    } else if j > i {
                        assert(self.rows()[i as int].id < self.rows()[j].id);
                    }
                }
                return Some(i);
            }
            i += 1;
        }
        None
    }

    /// Stores a reservation with a fresh id, unless its interval is improper or
    /// overlaps a stored row of the same resource.
    pub fn reserve(&mut self, rsvp: Reservation) -> (r: Result<Reservation, Error>)
        requires
            old(self).wf(),
        ensures
            final(self).wf(),
            !has_valid_span(rsvp@) ==> r == Err::<Reservation, Error>(Error::InvalidTime)
                && *final(self) == *old(self),
            has_valid_span(rsvp@) ==> forall|i: int|
                first_overlap(old(self).rows(), rsvp@, i) ==> conflict_reported(
                    r,
                    rsvp@,
                    old(self).rows()[i],
                ) && *final(self) == *old(self),
            has_valid_span(rsvp@) && (forall|i: int|
                0 <= i < old(self).rows().len() ==> !overlaps(#[trigger] old(self).rows()[i], rsvp@))
                ==> if old(self).next_id() == i64::MAX {
                r matches Err(Error::DbError(_)) && *final(self) == *old(self)
            } else {
                &&& r matches Ok(row)
                &&& r->Ok_0@ == inserted(rsvp@, old(self).next_id())
                &&& final(self).rows() == old(self).rows().push(r->Ok_0@)
                &&& final(self).next_id() == old(self).next_id() + 1
            },
    {
        if let Err(e) = rsvp.validate() {
            return Err(e);
        }
        let mut i: usize = 0;
        while i < self.rows.len()
            invariant
                0 <= i <= self.rows.len(),
                self.rows().len() == self.rows@.len(),
                self.wf(),
                has_valid_span(rsvp@),
                forall|j: int| 0 <= j < i ==> !overlaps(#[trigger] self.rows()[j], rsvp@),
            decreases self.rows.len() - i,
        {
            assert(self.rows()[i as int] == self.rows@[i as int]@);
            assert(has_valid_span(self.rows()[i as int]));
            if overlaps_exec(&self.rows[i], &rsvp) {
                let info = ReservationConflictInfo::Parsed(
                    ReservationConflict { new: window_of(&rsvp), old: window_of(&self.rows[i]) },
                );
                assert(first_overlap(self.rows(), rsvp@, i as int));
                return Err(Error::ConflictReservation(info));
            }
            i += 1;
        }
        if self.next_id == i64::MAX {
            return Err(Error::DbError(owned("no reservation id is left to assign")));
        }
        let status = crate::status::status_code_for_insert(rsvp.status);
        let row = Reservation {
            id: self.next_id,
            user_id: rsvp.user_id,
            resource_id: rsvp.resource_id,
            start: rsvp.start,
            end: rsvp.end,
            note: rsvp.note,
            status,
        };
        let out = row.clone();
        let ghost before = self.rows();
        self.rows.push(row);
        self.next_id = self.next_id + 1;
        proof {
            assert(self.rows() =~= before.push(out@));
            assert forall|a: int, b: int|
                0 <= a < self.rows().len() && 0 <= b < self.rows().len() && a != b implies !overlaps(
                #[trigger] self.rows()[a],
                #[trigger] self.rows()[b],
            ) by {
                if a < before.len() && b < before.len() {
                    assert(self.rows()[a] == before[a]);
                    assert(self.rows()[b] == before[b]);
                } else if a < before.len() {
                    assert(self.rows()[a] == before[a]);
                    assert(!overlaps(before[a], rsvp@));
                } else {
                    assert(self.rows()[b] == before[b]);
                    assert(!overlaps(before[b], rsvp@));
                }
            }
        }
        Ok(out)
    }

    /// Confirms a pending reservation; a reservation in any other state is
    /// returned as it is.
    pub fn change_status(&mut self, id: i64) -> (r: Result<Reservation, Error>)
        requires
            old(self).wf(),
        ensures
            final(self).wf(),
            id <= 0 ==> r == Err::<Reservation, Error>(Error::InvalidReservationId(id))
                && *final(self) == *old(self),
            id > 0 && !has_id(old(self).rows(), id) ==> r == Err::<Reservation, Error>(
                Error::NotFound,
            ) && *final(self) == *old(self),
            forall|i: int|
                0 <= i < old(self).rows().len() && #[trigger] old(self).rows()[i].id == id ==> {
                    &&& r matches Ok(row)
                    &&& r->Ok_0@ == confirmed(old(self).rows()[i])
                    &&& final(self).rows() == old(self).rows().update(i, confirmed(old(self).rows()[i]))
                    &&& final(self).next_id() == old(self).next_id()
                },
    {
        validate_id(id)?;
        match self.index_of(id) {
            None => Err(Error::NotFound),
            Some(i) => {
                let mut row = self.rows[i].clone();
                if row.status == STATUS_PENDING {
                    row.status = STATUS_CONFIRMED;
                }
                let out = row.clone();
                self.replace_row(i, row);
                Ok(out)
            },
        }
    }

    /// Sets the note of a reservation.
    pub fn update_note(&mut self, id: i64, note: String) -> (r: Result<Reservation, Error>)
        requires
            old(self).wf(),
        ensures
            final(self).wf(),
            id <= 0 ==> r == Err::<Reservation, Error>(Error::InvalidReservationId(id))
                && *final(self) == *old(self),
            id > 0 && !has_id(old(self).rows(), id) ==> r == Err::<Reservation, Error>(
                Error::NotFound,
            ) && *final(self) == *old(self),
            forall|i: int|
                0 <= i < old(self).rows().len() && #[trigger] old(self).rows()[i].id == id ==> {
                    &&& r matches Ok(row)
                    &&& r->Ok_0@ == (ReservationView { note: note@, ..old(self).rows()[i] })
                    &&& final(self).rows() == old(self).rows().update(
                        i,
                        ReservationView { note: note@, ..old(self).rows()[i] },
                    )
                    &&& final(self).next_id() == old(self).next_id()
                },
    {
        validate_id(id)?;
        match self.index_of(id) {
            None => Err(Error::NotFound),
            Some(i) => {
                let mut row = self.rows[i].clone();
                row.note = note;
                let out = row.clone();
                self.replace_row(i, row);
                Ok(out)
            },
        }
    }

    /// Replaces a row by one with the same id, resource and interval.
    fn replace_row(&mut self, i: usize, row: Reservation)
        requires
            old(self).wf(),
            i < old(self).rows().len(),
            row.id == old(self).rows()[i as int].id,
            row@.resource_id == old(self).rows()[i as int].resource_id,
            row.start == old(self).rows()[i as int].start,
            row.end == old(self).rows()[i as int].end,
            is_stored_status(row.status),
        ensures
            final(self).wf(),
            final(self).rows() == old(self).rows().update(i as int, row@),
            final(self).next_id() == old(self).next_id(),
    {
        let ghost before = self.rows();
        self.rows.set(i, row);
        proof {
            assert(self.rows() =~= before.update(i as int, row@));
            assert forall|a: int, b: int|
                0 <= a < self.rows().len() && 0 <= b < self.rows().len() && a != b implies !overlaps(
                #[trigger] self.rows()[a],
                #[trigger] self.rows()[b],
            ) by {
                assert(!overlaps(before[a], before[b]));
            }
            assert forall|a: int, b: int| 0 <= a < b < self.rows().len() implies #[trigger] self.rows()[a].id
                < #[trigger] self.rows()[b].id by {
                assert(before[a].id < before[b].id);
            }
        }
    }

    /// Removes a reservation and returns it.
    pub fn delete(&mut self, id: i64) -> (r: Result<Reservation, Error>)
        requires
            old(self).wf(),
        ensures
            final(self).wf(),
            id <= 0 ==> r == Err::<Reservation, Error>(Error::InvalidReservationId(id))
                && *final(self) == *old(self),
            id > 0 && !has_id(old(self).rows(), id) ==> r == Err::<Reservation, Error>(
                Error::NotFound,
            ) && *final(self) == *old(self),
            forall|i: int|
                0 <= i < old(self).rows().len() && #[trigger] old(self).rows()[i].id == id ==> {
                    &&& r matches Ok(row)
                    &&& r->Ok_0@ == old(self).rows()[i]
                    &&& final(self).rows() == old(self).rows().remove(i)
                    &&& final(self).next_id() == old(self).next_id()
                },
    {
        validate_id(id)?;
        match self.index_of(id) {
            None => Err(Error::NotFound),
            Some(i) => {
                let ghost before = self.rows();
                let row = self.rows.remove(i);
                proof {
                    assert(self.rows() =~= before.remove(i as int));
                    assert forall|a: int, b: int|
                        0 <= a < self.rows().len() && 0 <= b < self.rows().len() && a != b implies !overlaps(
                        #[trigger] self.rows()[a],
                        #[trigger] self.rows()[b],
                    ) by {
                        let a0 = if a < i { a } else { a + 1 };
                        let b0 = if b < i { b } else { b + 1 };
                        assert(self.rows()[a] == before[a0]);
                        assert(self.rows()[b] == before[b0]);
                    }
                    assert forall|a: int, b: int| 0 <= a < b < self.rows().len() implies #[trigger] self.rows()[a].id
                        < #[trigger] self.rows()[b].id by {
                        let a0 = if a < i { a } else { a + 1 };
                        let b0 = if b < i { b } else { b + 1 };
                        assert(self.rows()[a] == before[a0]);
                        assert(self.rows()[b] == before[b0]);
                    }
                    assert forall|a: int| 0 <= a < self.rows().len() implies {
                        &&& 0 < (#[trigger] self.rows()[a]).id < self.next_id()
                        &&& has_valid_span(self.rows()[a])
                        &&& is_stored_status(self.rows()[a].status)
                    } by {
                        let a0 = if a < i { a } else { a + 1 };
                        assert(self.rows()[a] == before[a0]);
                    }
                }
                Ok(row)
            },
        }
    }

    /// The reservation with the given id.
    pub fn get(&self, id: i64) -> (r: Result<Reservation, Error>)
        requires
            self.wf(),
        ensures
            id <= 0 ==> r == Err::<Reservation, Error>(Error::InvalidReservationId(id)),
            id > 0 && !has_id(self.rows(), id) ==> r == Err::<Reservation, Error>(Error::NotFound),
            forall|i: int|
                0 <= i < self.rows().len() && #[trigger] self.rows()[i].id == id ==> (r matches Ok(row)
                    && r->Ok_0@ == self.rows()[i]),
    {
        validate_id(id)?;
        match self.index_of(id) {
            None => Err(Error::NotFound),
            Some(i) => Ok(self.rows[i].clone()),
        }
    }

    /// The stored rows in id order, ascending or descending.
    fn ordered_rows(&self, desc: bool) -> (r: Vec<Reservation>)
        ensures
            views(r@) == in_order(self.rows(), desc),
    {
        let n = self.rows.len();
        let mut out: Vec<Reservation> = Vec::new();
        let mut i: usize = 0;
        while i < n
            invariant
                n == self.rows@.len(),
                self.rows().len() == n,
                0 <= i <= n,
                views(out@) == in_order(self.rows(), desc).take(i as int),
            decreases n - i,
        {
            let ghost prev = out@;
            if desc {
                out.push(self.rows[n - 1 - i].clone());
            } else {
                out.push(self.rows[i].clone());
            }
            assert(views(out@) =~= views(prev).push(out@[i as int]@));
            assert(in_order(self.rows(), desc).take(i + 1) =~= in_order(self.rows(), desc).take(
                i as int,
            ).push(in_order(self.rows(), desc)[i as int]));
            i += 1;
        }
        assert(views(out@) =~= in_order(self.rows(), desc));
        out
    }

    /// The reservations a query asks for, in id order along its direction.
    pub fn query(&self, q: &ReservationQuery) -> (r: Result<Vec<Reservation>, Error>)
        requires
            self.wf(),
        ensures
            !query_window_ok(q@) ==> r == Err::<Vec<Reservation>, Error>(Error::InvalidTime),
            query_window_ok(q@) ==> (r matches Ok(v) && views(v@) == query_result(self.rows(), q@)),
    {
        q.validate()?;
        let src = self.ordered_rows(q.desc);
        let ghost s = views(src@);
        let mut out: Vec<Reservation> = Vec::new();
        let mut i: usize = 0;
        while i < src.len()
            invariant
                0 <= i <= src.len(),
                s == views(src@),
                s == in_order(self.rows(), q.desc),
                self.wf(),
                views(out@) == s.take(i as int).filter(query_pred(q@)),
            decreases src.len() - i,
        {
            proof {
                lemma_filter_step(s, i as int, query_pred(q@));
                lemma_in_order_rows_wf(self.rows(), self.next_id(), q.desc, i as int);
            }
            let ghost prev = out@;
            if query_accepts(q, &src[i]) {
                out.push(src[i].clone());
                assert(views(out@) =~= views(prev).push(s[i as int]));
            }
            i += 1;
        }
        assert(s.take(s.len() as int) =~= s);
        Ok(out)
    }

    /// One page of a filter, and the pager that leads to its neighbours.
    pub fn filter(&self, f: ReservationFilter) -> (r: Result<(FilterPager, Vec<Reservation>), Error>)
        requires
            self.wf(),
        ensures
            filter_error(f@) is Some ==> r == Err::<(FilterPager, Vec<Reservation>), Error>(
                filter_error(f@)->0,
            ),
            filter_error(f@) is None ==> {
                &&& r matches Ok(res)
                &&& r->Ok_0.0 == page_pager(page_info_of(normalized(f@)), filter_fetch(self.rows(), normalized(f@)))
                &&& views(r->Ok_0.1@) == page_rows(page_info_of(normalized(f@)), filter_fetch(self.rows(), normalized(f@)))
            },
    {
        let mut f = f;
        f.normalize()?;
        let src = self.ordered_rows(f.desc);
        let ghost s = views(src@);
        let ghost p = after_pred(f@, key(f.desc, cursor_value(f@) as int));
        let cursor = f.get_cursor();
        let mut out: Vec<Reservation> = Vec::new();
        let mut i: usize = 0;
        while i < src.len()
            invariant
                0 <= i <= src.len(),
                s == views(src@),
                s == in_order(self.rows(), f.desc),
                cursor == cursor_value(f@),
                p == after_pred(f@, key(f.desc, cursor_value(f@) as int)),
                views(out@) == s.take(i as int).filter(p),
            decreases src.len() - i,
        {
            proof {
                lemma_filter_step(s, i as int, p);
            }
            let ghost prev = out@;
            if filter_accepts(&f, &src[i], cursor) {
                out.push(src[i].clone());
                assert(views(out@) =~= views(prev).push(s[i as int]));
            }
            i += 1;
        }
        assert(s.take(s.len() as int) =~= s);
        let extra: usize = if f.cursor.is_some() {
            1
        } else {
            0
        };
        let limit: usize = f.page_size as usize + 1 + extra;
        let ghost all = out@;
        out.truncate(limit);
        assert(views(out@) =~= take_at_most(views(all), limit as int));
        let pager = f.get_pager(&mut out);
        Ok((pager, out))
    }
}

proof fn lemma_in_order_rows_wf(rows: Seq<ReservationView>, next_id: int, desc: bool, i: int)
    requires
        rows_wf(rows, next_id),
        0 <= i < rows.len(),
    ensures
        has_valid_span(in_order(rows, desc)[i]),
{
    if desc {
        assert(in_order(rows, desc)[i] == rows[rows.len() - 1 - i]);
        assert(has_valid_span(rows[rows.len() - 1 - i]));
    } else {
        assert(has_valid_span(rows[i]));
    }
}

fn query_accepts(q: &ReservationQuery, r: &Reservation) -> (b: bool)
    requires
        has_valid_span(r@),
    ensures
        b == query_matches(q@, r@),
{
    let user_ok = q.user_id.as_str().unicode_len() == 0 || r.user_id == q.user_id;
    let resource_ok = q.resource_id.as_str().unicode_len() == 0 || r.resource_id == q.resource_id;
    let status_ok = q.status == crate::status::STATUS_UNKNOWN || r.status == q.status;
    let (rs, re) = match (r.start, r.end) {
        (Some(s), Some(e)) => (s, e),
        _ => {
            return false;
        },
    };
    let start_ok = match q.start {
        Some(s) => !rs.is_before(&s),
        None => true,
    };
    let end_ok = match q.end {
        Some(e) => !e.is_before(&re),
        None => true,
    };
    user_ok && resource_ok && status_ok && start_ok && end_ok
}

fn filter_accepts(f: &ReservationFilter, r: &Reservation, cursor: i64) -> (b: bool)
    requires
        cursor == cursor_value(f@),
    ensures
        b == after_pred(f@, key(f.desc, cursor_value(f@) as int))(r@),
{
    let user_ok = f.user_id.as_str().unicode_len() == 0 || r.user_id == f.user_id;
    let resource_ok = f.resource_id.as_str().unicode_len() == 0 || r.resource_id == f.resource_id;
    let after = if f.desc {
        r.id < cursor
    } else {
        r.id > cursor
    };
    user_ok && resource_ok && r.status == f.status && after
}

fn overlaps_exec(a: &Reservation, b: &Reservation) -> (r: bool)
    requires
        has_valid_span(a@),
        has_valid_span(b@),
    ensures
        r == overlaps(a@, b@),
{
    match (a.start, a.end, b.start, b.end) {
        (Some(a_start), Some(a_end), Some(b_start), Some(b_end)) => {
            a.resource_id == b.resource_id && a_start.is_before(&b_end) && b_start.is_before(&a_end)
        },
        _ => false,
    }
}

fn window_of(r: &Reservation) -> (w: ReservationWindow)
    requires
        has_valid_span(r@),
    ensures
        window_is(w, r@),
{
    match (r.start, r.end) {
        (Some(start), Some(end)) => ReservationWindow { rid: r.resource_id.clone(), start, end },
        _ => ReservationWindow { rid: r.resource_id.clone(), start: crate::time::Timestamp::new(0, 0), end: crate::time::Timestamp::new(0, 0) },
    }
}

} // verus!
