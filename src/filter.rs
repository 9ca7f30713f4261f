use vstd::prelude::*;

use crate::error::Error;
use crate::pager::{page_pager, page_rows, FilterPager, PageInfo};
use crate::reservation::{views, Reservation};
use crate::status::{is_known_code, status_name_of, status_of_code, ReservationStatus, STATUS_PENDING, STATUS_UNKNOWN};
use crate::text::{decimal, owned, push_decimal};

verus! {

/// The smallest page a filter may ask for.
pub const MIN_PAGE_SIZE: i64 = 10;

/// The largest page a filter may ask for.
pub const MAX_PAGE_SIZE: i64 = 100;

/// The page size a filter takes when none is given.
pub const DEFAULT_PAGE_SIZE: i64 = 10;

/// A page of reservations ordered by id. Empty `user_id` / `resource_id` match
/// every value; `cursor` is the id the page starts after, in its direction.
#[derive(Debug, PartialEq, Eq, Default)]
pub struct ReservationFilter {
    pub user_id: String,
    pub resource_id: String,
    /// The wire code of the status to match.
    pub status: i32,
    pub cursor: Option<i64>,
    pub page_size: i64,
    pub desc: bool,
}

/// The value of a filter, with its strings as character sequences.
pub struct ReservationFilterView {
    pub user_id: Seq<char>,
    pub resource_id: Seq<char>,
    pub status: i32,
    pub cursor: Option<i64>,
    pub page_size: i64,
    pub desc: bool,
}

impl View for ReservationFilter {
    type V = ReservationFilterView;

    open spec fn view(&self) -> ReservationFilterView {
        ReservationFilterView {
            user_id: self.user_id@,
            resource_id: self.resource_id@,
            status: self.status,
            cursor: self.cursor,
            page_size: self.page_size,
            desc: self.desc,
        }
    }
}

impl Clone for ReservationFilter {
    fn clone(&self) -> (r: Self)
        ensures
            r@ == self@,
    {
        ReservationFilter {
            user_id: self.user_id.clone(),
            resource_id: self.resource_id.clone(),
            status: self.status,
            cursor: self.cursor,
            page_size: self.page_size,
            desc: self.desc,
        }
    }
}

/// The error a filter's validation reports, if any: the page size is checked
/// first, then the cursor, then the status code.
pub open spec fn filter_error(f: ReservationFilterView) -> Option<Error> {
    if f.page_size < MIN_PAGE_SIZE || f.page_size > MAX_PAGE_SIZE {
        Some(Error::InvalidPageSize(f.page_size))
    } else if f.cursor is Some && f.cursor->0 <= 0 {
        Some(Error::InvalidCursor(f.cursor->0))
    } else if !is_known_code(f.status) {
        Some(Error::InvalidStatus(f.status))
    } else {
        None
    }
}

/// The filter once normalized: status `Unknown` stands for `Pending`.
pub open spec fn normalized(f: ReservationFilterView) -> ReservationFilterView {
    if f.status == STATUS_UNKNOWN {
        ReservationFilterView { status: STATUS_PENDING, ..f }
    } else {
        f
    }
}

/// The id a filter's page starts after: its cursor, or the lowest (ascending)
/// or highest (descending) bound when it has none.
pub open spec fn cursor_value(f: ReservationFilterView) -> i64 {
    match f.cursor {
        Some(c) => c,
        None => if f.desc {
            i64::MAX
        } else {
            0
        },
    }
}

/// How many rows a filter fetches: one page, one row more to learn whether a
/// next page exists, and one more when it starts from a cursor.
pub open spec fn filter_limit(f: ReservationFilterView) -> int {
    f.page_size + 1 + if f.cursor is Some {
        1int
    } else {
        0int
    }
}

/// The condition on user and resource: an empty id matches everything.
pub open spec fn owner_condition(user_id: Seq<char>, resource_id: Seq<char>) -> Seq<char> {
    if user_id.len() == 0 && resource_id.len() == 0 {
        "TRUE"@
    } else if user_id.len() == 0 {
        "resource_id = '"@ + resource_id + "'"@
    } else if resource_id.len() == 0 {
        "user_id = '"@ + user_id + "'"@
    } else {
        "user_id = '"@ + user_id + "' AND resource_id = '"@ + resource_id + "'"@
    }
}

/// The statement that fetches a filter's rows.
pub open spec fn filter_sql(f: ReservationFilterView) -> Seq<char> {
    let status = status_of_code(f.status)->0;
    "SELECT * FROM rsvp.reservations WHERE status = '"@ + status_name_of(status)
        + "'::rsvp.reservation_status AND "@ + (if f.desc {
        "id < "@
    } else {
        "id > "@
    }) + decimal(cursor_value(f) as int) + " AND "@ + owner_condition(f.user_id, f.resource_id)
        + " ORDER BY id "@ + (if f.desc {
        "DESC"@
    } else {
        "ASC"@
    }) + " LIMIT "@ + decimal(filter_limit(f))
}

/// The paging part of a filter.
pub open spec fn page_info_of(f: ReservationFilterView) -> PageInfo {
    PageInfo { cursor: f.cursor, page_size: f.page_size, desc: f.desc }
}

/// A value that can be turned into a statement for the store.
pub trait ToSql {
    /// Whether the statement can be written for this value.
    spec fn sql_ready(&self) -> bool;

    /// The text of the statement.
    spec fn sql_text(&self) -> Seq<char>;

    fn to_sql(&self) -> (r: String)
        requires
            self.sql_ready(),
        ensures
            r@ == self.sql_text(),
    ;
}

impl ToSql for ReservationFilter {
    open spec fn sql_ready(&self) -> bool {
        is_known_code(self.status)
    }

    open spec fn sql_text(&self) -> Seq<char> {
        filter_sql(self@)
    }

    fn to_sql(&self) -> (r: String) {
        let status = self.get_status();
        let mut sql = owned("SELECT * FROM rsvp.reservations WHERE status = '");
        sql.append(status.as_str_name());
        sql.append("'::rsvp.reservation_status AND ");
        if self.desc {
            sql.append("id < ");
        } else {
            sql.append("id > ");
        }
        push_decimal(&mut sql, self.get_cursor() as i128);
        sql.append(" AND ");
        let no_user = self.user_id.as_str().unicode_len() == 0;
        let no_resource = self.resource_id.as_str().unicode_len() == 0;
        if no_user && no_resource {
            sql.append("TRUE");
        } else if no_user {
            sql.append("resource_id = '");
            sql.append(self.resource_id.as_str());
            sql.append("'");
        } else if no_resource {
            sql.append("user_id = '");
            sql.append(self.user_id.as_str());
            sql.append("'");
        } else {
            sql.append("user_id = '");
            sql.append(self.user_id.as_str());
            sql.append("' AND resource_id = '");
            sql.append(self.resource_id.as_str());
            sql.append("'");
        }
        sql.append(" ORDER BY id ");
        if self.desc {
            sql.append("DESC");
        } else {
            sql.append("ASC");
        }
        sql.append(" LIMIT ");
        let extra: i128 = if self.cursor.is_some() {
            1
        } else {
            0
        };
        push_decimal(&mut sql, self.page_size as i128 + 1 + extra);
        assert(sql@ =~= filter_sql(self@));
        sql
    }
}

impl ReservationFilter {
    /// Checks the page size, the cursor and the status code, in that order.
    pub fn validate(&self) -> (r: Result<(), Error>)
        ensures
            r is Ok <==> filter_error(self@) is None,
            r is Err ==> r == Err::<(), Error>(filter_error(self@)->0),
    {
        if self.page_size < MIN_PAGE_SIZE || self.page_size > MAX_PAGE_SIZE {
            return Err(Error::InvalidPageSize(self.page_size));
        }
        if let Some(cursor) = self.cursor {
            if cursor <= 0 {
                return Err(Error::InvalidCursor(cursor));
            }
        }
        match ReservationStatus::from_i32(self.status) {
            Some(_) => Ok(()),
            None => Err(Error::InvalidStatus(self.status)),
        }
    }

    /// Replaces status `Unknown` by `Pending`.
    pub fn do_normalize(&mut self)
        ensures
            final(self)@ == normalized(old(self)@),
    {
        if self.status == STATUS_UNKNOWN {
            self.status = STATUS_PENDING;
        }
    }

    /// Validates the filter and, when it is valid, normalizes it; an invalid
    /// filter is left as it was.
    pub fn normalize(&mut self) -> (r: Result<(), Error>)
        ensures
            r is Ok <==> filter_error(old(self)@) is None,
            r is Err ==> r == Err::<(), Error>(filter_error(old(self)@)->0) && final(self)@
                == old(self)@,
            r is Ok ==> final(self)@ == normalized(old(self)@),
    {
        self.validate()?;
        self.do_normalize();
        Ok(())
    }

    /// The id this filter's page starts after.
    pub fn get_cursor(&self) -> (r: i64)
        ensures
            r == cursor_value(self@),
    {
        match self.cursor {
            Some(c) => c,
            None => if self.desc {
                i64::MAX
            } else {
                0
            },
        }
    }

    /// The status this filter matches.
    pub fn get_status(&self) -> (r: ReservationStatus)
        requires
            is_known_code(self.status),
        ensures
            status_of_code(self.status) == Some(r),
    {
        match ReservationStatus::from_i32(self.status) {
            Some(s) => s,
            None => ReservationStatus::Unknown,
        }
    }

    /// The paging part of this filter.
    pub fn page_info(&self) -> (r: PageInfo)
        ensures
            r == page_info_of(self@),
    {
        PageInfo { cursor: self.cursor, page_size: self.page_size, desc: self.desc }
    }

    /// Cuts this filter's page out of the rows fetched for it (see `filter_limit`),
    /// leaving the page in `data`, and returns the pager.
    pub fn get_pager(&self, data: &mut Vec<Reservation>) -> (r: FilterPager)
        requires
            MIN_PAGE_SIZE <= self.page_size <= MAX_PAGE_SIZE,
        ensures
            views(final(data)@) == page_rows(page_info_of(self@), views(old(data)@)),
            r == page_pager(page_info_of(self@), views(old(data)@)),
    {
        let info = self.page_info();
        info.get_pager(data)
    }

    /// The filter for the page after the one described by `pager`, if there is one.
    pub fn next_page(&self, pager: &FilterPager) -> (r: Option<Self>)
        ensures
            pager.next is None ==> r is None,
            pager.next is Some ==> r is Some && r->0@ == (ReservationFilterView {
                cursor: pager.next,
                ..self@
            }),
    {
        let info = self.page_info();
        match info.next_page(pager) {
            Some(next) => Some(
                ReservationFilter {
                    user_id: self.user_id.clone(),
                    resource_id: self.resource_id.clone(),
                    status: self.status,
                    cursor: next.cursor,
                    page_size: next.page_size,
                    desc: next.desc,
                },
            ),
            None => None,
        }
    }
}

/// Builds a filter from the fields that were set, the others taking their
/// defaults: empty ids, status `Unknown` (read as `Pending`), no cursor, a page
/// of `DEFAULT_PAGE_SIZE`, ascending.
#[derive(Debug, Default)]
pub struct ReservationFilterBuilder {
    pub user_id: Option<String>,
    pub resource_id: Option<String>,
    pub status: Option<i32>,
    pub cursor: Option<i64>,
    pub page_size: Option<i64>,
    pub desc: Option<bool>,
}

/// The filter a builder describes, before validation.
pub open spec fn built_filter(b: ReservationFilterBuilder) -> ReservationFilterView {
    ReservationFilterView {
        user_id: match b.user_id {
            Some(u) => u@,
            None => Seq::empty(),
        },
        resource_id: match b.resource_id {
            Some(r) => r@,
            None => Seq::empty(),
        },
        status: match b.status {
            Some(s) => s,
            None => STATUS_UNKNOWN,
        },
        cursor: b.cursor,
        page_size: match b.page_size {
            Some(p) => p,
            None => DEFAULT_PAGE_SIZE,
        },
        desc: match b.desc {
            Some(d) => d,
            None => false,
        },
    }
}

impl ReservationFilterBuilder {
    pub fn user_id(self, user_id: &str) -> (r: Self)
        ensures
            r.user_id matches Some(u) && u@ == user_id@,
            r.resource_id == self.resource_id,
            r.status == self.status,
            r.cursor == self.cursor,
            r.page_size == self.page_size,
            r.desc == self.desc,
    {
        ReservationFilterBuilder { user_id: Some(owned(user_id)), ..self }
    }

    pub fn resource_id(self, resource_id: &str) -> (r: Self)
        ensures
            r.resource_id matches Some(v) && v@ == resource_id@,
            r.user_id == self.user_id,
            r.status == self.status,
            r.cursor == self.cursor,
            r.page_size == self.page_size,
            r.desc == self.desc,
    {
        ReservationFilterBuilder { resource_id: Some(owned(resource_id)), ..self }
    }

    pub fn status(self, status: i32) -> (r: Self)
        ensures
            r == (ReservationFilterBuilder { status: Some(status), ..self }),
    {
        ReservationFilterBuilder { status: Some(status), ..self }
    }

    pub fn cursor(self, cursor: i64) -> (r: Self)
        ensures
            r == (ReservationFilterBuilder { cursor: Some(cursor), ..self }),
    {
        ReservationFilterBuilder { cursor: Some(cursor), ..self }
    }

    pub fn page_size(self, page_size: i64) -> (r: Self)
        ensures
            r == (ReservationFilterBuilder { page_size: Some(page_size), ..self }),
    {
        ReservationFilterBuilder { page_size: Some(page_size), ..self }
    }

    pub fn desc(self, desc: bool) -> (r: Self)
        ensures
            r == (ReservationFilterBuilder { desc: Some(desc), ..self }),
    {
        ReservationFilterBuilder { desc: Some(desc), ..self }
    }

    /// The filter described, validated and normalized.
    pub fn build(&self) -> (r: Result<ReservationFilter, Error>)
        ensures
            r is Ok <==> filter_error(built_filter(*self)) is None,
            r is Err ==> r == Err::<ReservationFilter, Error>(
                filter_error(built_filter(*self))->0,
            ),
            r matches Ok(f) ==> f@ == normalized(built_filter(*self)),
    {
        let mut filter = ReservationFilter {
            user_id: match &self.user_id {
                Some(u) => u.clone(),
                None => String::new(),
            },
            resource_id: match &self.resource_id {
                Some(v) => v.clone(),
                None => String::new(),
            },
            status: match self.status {
                Some(s) => s,
                None => STATUS_UNKNOWN,
            },
            cursor: self.cursor,
            page_size: match self.page_size {
                Some(p) => p,
                None => DEFAULT_PAGE_SIZE,
            },
            desc: match self.desc {
                Some(d) => d,
                None => false,
            },
        };
        assert(filter@ == built_filter(*self));
        filter.normalize()?;
        Ok(filter)
    }
}

} // verus!
