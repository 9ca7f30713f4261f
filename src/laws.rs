//! Properties of the engine that span several rows or several calls.
use vstd::prelude::*;

use crate::filter::{cursor_value, filter_error, normalized, page_info_of, ReservationFilterView};
use crate::pager::{page_pager, page_rows, without_cursor_row};
use crate::reservation::ReservationView;
use crate::status::{STATUS_CONFIRMED, STATUS_PENDING};
use crate::store::{
    after_pred, confirmed, filter_all, filter_candidates, filter_fetch, ids_ascending, in_order, key,
    match_pred, rows_wf, MemoryStore,
};
use crate::time::instant;

verus! {

/// Interval exclusion: in a well-formed store (the state every operation
/// keeps), two different rows of the same resource never hold intersecting
/// intervals.
pub proof fn lemma_interval_exclusion(store: MemoryStore, i: int, j: int)
    requires
        store.wf(),
        0 <= i < store.rows().len(),
        0 <= j < store.rows().len(),
        i != j,
        store.rows()[i].resource_id == store.rows()[j].resource_id,
    ensures
        instant(store.rows()[i].end->0) <= instant(store.rows()[j].start->0) || instant(
            store.rows()[j].end->0,
        ) <= instant(store.rows()[i].start->0),
{
    assert(!crate::store::overlaps(store.rows()[i], store.rows()[j]));
}

/// Confirming twice is confirming once. After the first confirmation of row
/// `i`, the row keeps its id, a second confirmation changes nothing and returns
/// the row the first one returned, and a row that was pending or already
/// confirmed is confirmed.
pub proof fn lemma_confirm_idempotent(rows: Seq<ReservationView>, i: int)
    requires
        0 <= i < rows.len(),
    ensures
        ({
            let once = rows.update(i, confirmed(rows[i]));
            &&& once[i].id == rows[i].id
            &&& confirmed(once[i]) == confirmed(rows[i])
            &&& once.update(i, confirmed(once[i])) == once
        }),
        rows[i].status == STATUS_PENDING || rows[i].status == STATUS_CONFIRMED ==> confirmed(
            rows[i],
        ).status == STATUS_CONFIRMED,
{
    let once = rows.update(i, confirmed(rows[i]));
    assert(once.update(i, confirmed(once[i])) =~= once);
}

/// The filter for the page that starts after row `n`.
pub open spec fn with_cursor(f: ReservationFilterView, n: i64) -> ReservationFilterView {
    ReservationFilterView { cursor: Some(n), ..f }
}

/// The rows met when paging through a filter: its page, then the pages reached
/// by following `next`, for at most `fuel` pages (`None` when that is not
/// enough to reach a page without `next`).
pub open spec fn filter_walk(rows: Seq<ReservationView>, f: ReservationFilterView, fuel: nat) -> Option<
    Seq<ReservationView>,
>
    decreases fuel,
{
    if fuel == 0 {
        None
    } else {
        let g = normalized(f);
        let data = filter_fetch(rows, g);
        let page = page_rows(page_info_of(g), data);
        match page_pager(page_info_of(g), data).next {
            None => Some(page),
            Some(n) => match filter_walk(rows, with_cursor(f, n), (fuel - 1) as nat) {
                Some(rest) => Some(page + rest),
                None => None,
            },
        }
    }
}

/// Filter pagination: following `next` from the first page of a valid filter
/// until it is none yields every row the filter matches, each once, in id
/// order along the filter's direction; as many pages as there are rows, plus
/// one, always suffice.
pub proof fn lemma_filter_pages_cover(store: MemoryStore, f: ReservationFilterView)
    requires
        store.wf(),
        filter_error(f) is None,
        f.cursor is None,
    ensures
        filter_walk(store.rows(), f, (store.rows().len() + 1) as nat) == Some(
            filter_all(store.rows(), normalized(f)),
        ),
{
    let rows = store.rows();
    let g = normalized(f);
    let s = in_order(rows, g.desc);
    let c = key(g.desc, cursor_value(g) as int);
    assert forall|i: int| 0 <= i < s.len() implies after_pred(g, c)(s[i]) == match_pred(g)(s[i]) by {
        lemma_in_order_index(rows, g.desc, i);
    }
    lemma_filter_same(s, after_pred(g, c), match_pred(g));
    s.lemma_filter_len(after_pred(g, c));
    lemma_walk(rows, store.next_id(), f, (rows.len() + 1) as nat);
}

proof fn lemma_in_order_index(rows: Seq<ReservationView>, desc: bool, i: int)
    requires
        0 <= i < rows.len(),
    ensures
        in_order(rows, desc).len() == rows.len(),
        in_order(rows, desc)[i] == rows[if desc {
            rows.len() - 1 - i
        } else {
            i
        }],
{
}

/// Positions along the direction strictly increase.
pub open spec fn keys_increasing(s: Seq<ReservationView>, desc: bool) -> bool {
    forall|i: int, j: int|
        0 <= i < j < s.len() ==> key(desc, #[trigger] s[i].id as int) < key(
            desc,
            #[trigger] s[j].id as int,
        )
}

proof fn lemma_in_order_increasing(rows: Seq<ReservationView>, desc: bool)
    requires
        ids_ascending(rows),
    ensures
        keys_increasing(in_order(rows, desc), desc),
{
    let s = in_order(rows, desc);
    assert forall|i: int, j: int| 0 <= i < j < s.len() implies key(desc, #[trigger] s[i].id as int)
        < key(desc, #[trigger] s[j].id as int) by {
        lemma_in_order_index(rows, desc, i);
        lemma_in_order_index(rows, desc, j);
        if desc {
            assert(rows[rows.len() - 1 - j].id < rows[rows.len() - 1 - i].id);
        } else {
            assert(rows[i].id < rows[j].id);
        }
    }
}

proof fn lemma_filter_same(
    s: Seq<ReservationView>,
    p: spec_fn(ReservationView) -> bool,
    q: spec_fn(ReservationView) -> bool,
)
    requires
        forall|i: int| 0 <= i < s.len() ==> p(#[trigger] s[i]) == q(s[i]),
    ensures
        s.filter(p) == s.filter(q),
    decreases s.len(),
{
    reveal(Seq::filter);
    if s.len() > 0 {
        assert forall|i: int| 0 <= i < s.drop_last().len() implies p(#[trigger] s.drop_last()[i])
            == q(s.drop_last()[i]) by {
            assert(s.drop_last()[i] == s[i]);
        }
        lemma_filter_same(s.drop_last(), p, q);
        assert(p(s[s.len() - 1]) == q(s[s.len() - 1]));
    }
}

proof fn lemma_filter_keys_above(
    s: Seq<ReservationView>,
    p: spec_fn(ReservationView) -> bool,
    desc: bool,
    b: int,
)
    requires
        forall|i: int| 0 <= i < s.len() ==> key(desc, #[trigger] s[i].id as int) > b,
    ensures
        forall|i: int|
            0 <= i < s.filter(p).len() ==> key(desc, #[trigger] s.filter(p)[i].id as int) > b,
    decreases s.len(),
{
    reveal(Seq::filter);
    if s.len() > 0 {
        let t = s.drop_last();
        assert forall|i: int| 0 <= i < t.len() implies key(desc, #[trigger] t[i].id as int) > b by {
            assert(t[i] == s[i]);
        }
        lemma_filter_keys_above(t, p, desc, b);
        assert(key(desc, s[s.len() - 1].id as int) > b);
    }
}

/// After the first `ps` rows of a filter's candidates, the candidates that
/// follow the last of them are exactly the rest.
proof fn lemma_skip_page(s: Seq<ReservationView>, f: ReservationFilterView, c: int, ps: int)
    requires
        keys_increasing(s, f.desc),
        1 <= ps < s.filter(after_pred(f, c)).len(),
    ensures
        s.filter(after_pred(f, key(f.desc, s.filter(after_pred(f, c))[ps - 1].id as int))) == s.filter(
            after_pred(f, c),
        ).skip(ps),
    decreases s.len(),
{
    let p = after_pred(f, c);
    let cand = s.filter(p);
    let n = cand[ps - 1].id as int;
    let kn = key(f.desc, n);
    let q = after_pred(f, kn);
    let x = s[0];
    let t = s.drop_first();
    assert(s =~= seq![x] + t);
    t.lemma_filter_prepend(x, p);
    t.lemma_filter_prepend(x, q);
    s.lemma_filter_pred(p, ps - 1);
    assert forall|i: int, j: int| 0 <= i < j < t.len() implies key(f.desc, #[trigger] t[i].id as int)
        < key(f.desc, #[trigger] t[j].id as int) by {
        assert(t[i] == s[i + 1]);
        assert(t[j] == s[j + 1]);
    }
    assert forall|i: int| 0 <= i < t.len() implies key(f.desc, #[trigger] t[i].id as int) > key(
        f.desc,
        x.id as int,
    ) by {
        assert(t[i] == s[i + 1]);
    }
    if !p(x) {
        assert(cand == t.filter(p));
        assert(!q(x));
        lemma_skip_page(t, f, c, ps);
    } else {
        assert(cand == seq![x] + t.filter(p));
        if ps == 1 {
            assert(cand[0] == x);
            assert(!q(x));
            assert forall|i: int| 0 <= i < t.len() implies p(#[trigger] t[i]) == q(t[i]) by {}
            lemma_filter_same(t, p, q);
            assert(cand.skip(1) =~= t.filter(p));
        } else {
            assert(cand[ps - 1] == t.filter(p)[ps - 2]);
            lemma_skip_page(t, f, c, ps - 1);
            lemma_filter_keys_above(t, p, f.desc, key(f.desc, x.id as int));
            assert(!q(x));
            assert(cand.skip(ps) =~= t.filter(p).skip(ps - 1));
        }
    }
}

proof fn lemma_walk(rows: Seq<ReservationView>, next_id: int, f: ReservationFilterView, fuel: nat)
    requires
        rows_wf(rows, next_id),
        10 <= f.page_size <= 100,
        fuel > filter_candidates(rows, normalized(f)).len(),
    ensures
        filter_walk(rows, f, fuel) == Some(filter_candidates(rows, normalized(f))),
    decreases fuel,
{
    let g = normalized(f);
    let info = page_info_of(g);
    let s = in_order(rows, g.desc);
    let c = key(g.desc, cursor_value(g) as int);
    let p = after_pred(g, c);
    let cand = filter_candidates(rows, g);
    let data = filter_fetch(rows, g);
    let ps = g.page_size as int;
    assert(cand == s.filter(p));
    lemma_in_order_increasing(rows, g.desc);
    if data.len() > 0 {
        s.lemma_filter_pred(p, 0);
        assert(data[0] == cand[0]);
    }
    assert(without_cursor_row(info, data) == data);
    if cand.len() > ps {
        assert(data.len() > ps);
        assert(data.take(ps) =~= cand.take(ps));
        let n = cand[ps - 1].id;
        assert(page_pager(info, data).next == Some(n));
        let f2 = with_cursor(f, n);
        let g2 = normalized(f2);
        assert(g2 == with_cursor(g, n));
        lemma_skip_page(s, g, c, ps);
        assert(after_pred(g2, key(g.desc, n as int)) =~= after_pred(g, key(g.desc, n as int)));
        assert(filter_candidates(rows, g2) == cand.skip(ps));
        lemma_walk(rows, next_id, f2, (fuel - 1) as nat);
        assert(cand.take(ps) + cand.skip(ps) =~= cand);
    } else {
        assert(data == cand);
    }
}

} // verus!
