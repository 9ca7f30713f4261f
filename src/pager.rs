use vstd::prelude::*;

use crate::reservation::{views, Reservation, ReservationView};

verus! {

/// Where a page sits: the cursor it was asked from, its size and direction.
#[derive(Clone, Copy, Debug, PartialEq, Eq)]
pub struct PageInfo {
    pub cursor: Option<i64>,
    pub page_size: i64,
    pub desc: bool,
}

/// The cursors of the neighbouring pages (`None` when there is none) and the
/// total count (`0` when unknown).
#[derive(Clone, Copy, Debug, PartialEq, Eq, Default)]
pub struct FilterPager {
    pub prev: Option<i64>,
    pub next: Option<i64>,
    pub total: i64,
}

/// The over-fetched rows without the row at the cursor, when they begin with it.
pub open spec fn without_cursor_row(info: PageInfo, data: Seq<ReservationView>) -> Seq<
    ReservationView,
> {
    match info.cursor {
        Some(c) => if data.len() > 0 && data[0].id == c {
            data.drop_first()
        } else {
            data
        },
        None => data,
    }
}

/// The rows of the page cut from over-fetched rows: at most `page_size` of them,
/// the row at the cursor left out.
pub open spec fn page_rows(info: PageInfo, data: Seq<ReservationView>) -> Seq<ReservationView> {
    let rest = without_cursor_row(info, data);
    if rest.len() > info.page_size {
        rest.take(info.page_size as int)
    } else {
        rest
    }
}

/// The pager of a page cut from over-fetched rows: a previous page exists when
/// the page was asked from a cursor, and a next page exists when more rows than
/// fit were fetched; `next` is then the id of the last row kept.
pub open spec fn page_pager(info: PageInfo, data: Seq<ReservationView>) -> FilterPager {
    let rest = without_cursor_row(info, data);
    FilterPager {
        prev: info.cursor,
        next: if rest.len() > info.page_size {
            Some(rest[info.page_size - 1].id)
        } else {
            None
        },
        total: 0,
    }
}

impl PageInfo {
    /// Cuts a page out of `data`, rows fetched in page order, at most
    /// `page_size + 2` of them, and says where the neighbouring pages start.
    pub fn get_pager(&self, data: &mut Vec<Reservation>) -> (r: FilterPager)
        requires
            10 <= self.page_size <= 100,
        ensures
            views(final(data)@) == page_rows(*self, views(old(data)@)),
            r == page_pager(*self, views(old(data)@)),
    {
        let ghost d0 = views(data@);
        if let Some(c) = self.cursor {
            if data.len() > 0 && data[0].id == c {
                data.remove(0);
                assert(views(data@) =~= d0.drop_first());
            }
        }
        assert(views(data@) == without_cursor_row(*self, d0));
        let size = self.page_size as usize;
        let mut next: Option<i64> = None;
        if data.len() > size {
            next = Some(data[size - 1].id);
            let ghost d1 = data@;
            data.truncate(size);
            assert(views(data@) =~= views(d1).take(self.page_size as int));
        }
        FilterPager { prev: self.cursor, next, total: 0 }
    }

    /// Where the page after the one described by `pager` starts, if there is one.
    pub fn next_page(&self, pager: &FilterPager) -> (r: Option<PageInfo>)
        ensures
            r == (match pager.next {
                Some(n) => Some(PageInfo { cursor: Some(n), ..*self }),
                None => None,
            }),
    {
        match pager.next {
            Some(n) => Some(PageInfo { cursor: Some(n), page_size: self.page_size, desc: self.desc }),
            None => None,
        }
    }
}

} // verus!
