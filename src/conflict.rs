use vstd::prelude::*;

use crate::text::literal_at;
use crate::time::{timestamp_from, Timestamp};

verus! {

/// The instant the store writes as `YYYY-MM-DD HH:MM:SS+ZZ` (minutes of the
/// offset optional), as seconds since the epoch and the nanosecond part, or
/// `None` when the text is not such an instant.
pub uninterp spec fn store_time_of(s: Seq<char>) -> Option<(i64, u32)>;

/// Relies on chrono's `DateTime::parse_from_str` with the format
/// `%Y-%m-%d %H:%M:%S%#z`, then `timestamp` and `timestamp_subsec_nanos`: the
/// instant depends on the text alone.
#[verifier::external_body]
fn parse_store_time(s: &str) -> (r: Option<(i64, u32)>)
    ensures
        r == store_time_of(s@),
{
    match chrono::DateTime::parse_from_str(s, "%Y-%m-%d %H:%M:%S%#z") {
        Ok(t) => Some((t.timestamp(), t.timestamp_subsec_nanos())),
        Err(_) => None,
    }
}

/// The timestamp an instant of the diagnostic stands for, when it can be read.
pub open spec fn window_time(s: Seq<char>) -> Option<Timestamp> {
    timestamp_from(store_time_of(s))
}

/// The text between `=(` and `))` for one side of a conflict:
/// `<rid>, ["<start>","<end>")`.
pub open spec fn window_text(rid: Seq<char>, start: Seq<char>, end: Seq<char>) -> Seq<char> {
    rid + ", [\""@ + start + "\",\""@ + end + "\"))"@
}

/// Whether the pieces of a window can be told apart: a non-empty resource id
/// without commas, and instants without double quotes.
pub open spec fn window_wf(rid: Seq<char>, start: Seq<char>, end: Seq<char>) -> bool {
    &&& rid.len() > 0
    &&& forall|i: int| 0 <= i < rid.len() ==> rid[i] != ','
    &&& forall|i: int| 0 <= i < start.len() ==> start[i] != '"'
    &&& forall|i: int| 0 <= i < end.len() ==> end[i] != '"'
}

/// What a diagnostic `s` is read as: when it has the shape of
/// `diagnostic_text`, what its pieces give (see `info_of`); else the raw text.
pub open spec fn conflict_info_of(r: ReservationConflictInfo, s: Seq<char>) -> bool {
    &&& forall|p: DiagnosticParts| parts_wf(p) && s == #[trigger] diagnostic_text(p) ==> info_of(r, p, s)
    &&& (forall|p: DiagnosticParts| !(parts_wf(p) && s == #[trigger] diagnostic_text(p))) ==> (r matches ReservationConflictInfo::Unparsed(u) && u@ == s)
}

/// The raw pieces of a diagnostic.
pub struct DiagnosticParts {
    pub new_rid: Seq<char>,
    pub new_start: Seq<char>,
    pub new_end: Seq<char>,
    pub old_rid: Seq<char>,
    pub old_start: Seq<char>,
    pub old_end: Seq<char>,
}

pub open spec fn parts_wf(p: DiagnosticParts) -> bool {
    window_wf(p.new_rid, p.new_start, p.new_end) && window_wf(p.old_rid, p.old_start, p.old_end)
}

/// The diagnostic the store gives when an insert overlaps a held interval:
/// `Key (resource_id, timespan)=(<new window>) conflicts with existing key
/// (resource_id, timespan)=(<old window>).`
pub open spec fn diagnostic_text(p: DiagnosticParts) -> Seq<char> {
    "Key (resource_id, timespan)=("@ + window_text(p.new_rid, p.new_start, p.new_end)
        + " conflicts with existing key (resource_id, timespan)=("@ + window_text(
        p.old_rid,
        p.old_start,
        p.old_end,
    ) + "."@
}

/// Whether `w` is the window with resource `rid` between the instants written
/// `start` and `end`.
pub open spec fn window_read(w: ReservationWindow, rid: Seq<char>, start: Seq<char>, end: Seq<char>) -> bool {
    &&& w.rid@ == rid
    &&& window_time(start) == Some(w.start)
    &&& window_time(end) == Some(w.end)
}

/// Whether all four instants of a diagnostic can be read.
pub open spec fn parts_readable(p: DiagnosticParts) -> bool {
    &&& window_time(p.new_start) is Some
    &&& window_time(p.new_end) is Some
    &&& window_time(p.old_start) is Some
    &&& window_time(p.old_end) is Some
}

/// What a diagnostic with pieces `p` is read as: both windows when the four
/// instants can be read, else the raw text.
pub open spec fn info_of(r: ReservationConflictInfo, p: DiagnosticParts, raw: Seq<char>) -> bool {
    if parts_readable(p) {
        &&& r matches ReservationConflictInfo::Parsed(c)
        &&& window_read(r->Parsed_0.new, p.new_rid, p.new_start, p.new_end)
        &&& window_read(r->Parsed_0.old, p.old_rid, p.old_start, p.old_end)
    } else {
        r matches ReservationConflictInfo::Unparsed(u) && u@ == raw
    }
}

/// One side of a conflict: a resource and the interval held on it.
#[derive(Clone, Debug, PartialEq, Eq)]
pub struct ReservationWindow {
    pub rid: String,
    pub start: Timestamp,
    pub end: Timestamp,
}

/// The interval that was asked for (`new`) and the one already held (`old`).
#[derive(Clone, Debug, PartialEq, Eq)]
pub struct ReservationConflict {
    pub new: ReservationWindow,
    pub old: ReservationWindow,
}

/// What is known of a conflict: both windows, or the raw diagnostic when it
/// could not be read.
#[derive(Clone, Debug, PartialEq, Eq)]
pub enum ReservationConflictInfo {
    Parsed(ReservationConflict),
    Unparsed(String),
}

} // verus!

verus! {

/// The first position at or after `from` that holds `c`, or the length.
fn find_char(s: &str, from: usize, c: char) -> (r: usize)
    requires
        from <= s@.len(),
    ensures
        from <= r <= s@.len(),
        forall|i: int| from <= i < r ==> s@[i] != c,
        r < s@.len() ==> s@[r as int] == c,
{
    let n = s.unicode_len();
    let mut i = from;
    while i < n
        invariant
            n == s@.len(),
            from <= i <= n,
            forall|k: int| from <= k < i ==> s@[k] != c,
        decreases n - i,
    {
        if s.get_char(i) == c {
            return i;
        }
        i += 1;
    }
    i
}

proof fn lemma_piece(x: Seq<char>, pre: Seq<char>, piece: Seq<char>, post: Seq<char>)
    requires
        x == pre + piece + post,
    ensures
        x.subrange(pre.len() as int, (pre.len() + piece.len()) as int) == piece,
{
    assert(x.subrange(pre.len() as int, (pre.len() + piece.len()) as int) =~= piece);
}

proof fn lemma_window_layout(rid: Seq<char>, a: Seq<char>, b: Seq<char>)
    ensures
        ({
            let w = window_text(rid, a, b);
            let o1 = rid.len() as int;
            let o2 = o1 + 4 + a.len();
            let o3 = o2 + 3 + b.len();
            &&& w.len() == o3 + 3
            &&& w.subrange(0, o1) == rid
            &&& w.subrange(o1, o1 + 4) == ", [\""@
            &&& w.subrange(o1 + 4, o2) == a
            &&& w.subrange(o2, o2 + 3) == "\",\""@
            &&& w.subrange(o2 + 3, o3) == b
            &&& w.subrange(o3, o3 + 3) == "\"))"@
        }),
{
    reveal_strlit(", [\"");
    reveal_strlit("\",\"");
    reveal_strlit("\"))");
    let l1 = ", [\""@;
    let l2 = "\",\""@;
    let l3 = "\"))"@;
    let w = window_text(rid, a, b);
    assert(w == Seq::<char>::empty() + rid + (l1 + a + l2 + b + l3));
    lemma_piece(w, Seq::empty(), rid, l1 + a + l2 + b + l3);
    assert(w == rid + l1 + (a + l2 + b + l3));
    lemma_piece(w, rid, l1, a + l2 + b + l3);
    assert(w == (rid + l1) + a + (l2 + b + l3));
    lemma_piece(w, rid + l1, a, l2 + b + l3);
    assert(w == (rid + l1 + a) + l2 + (b + l3));
    lemma_piece(w, rid + l1 + a, l2, b + l3);
    assert(w == (rid + l1 + a + l2) + b + l3);
    lemma_piece(w, rid + l1 + a + l2, b, l3);
    assert(w == (rid + l1 + a + l2 + b) + l3 + Seq::<char>::empty());
    lemma_piece(w, rid + l1 + a + l2 + b, l3, Seq::empty());
}

proof fn lemma_window_pieces(t: Seq<char>, pos: int, rid: Seq<char>, a: Seq<char>, b: Seq<char>)
    requires
        0 <= pos,
        pos + window_text(rid, a, b).len() <= t.len(),
        t.subrange(pos, pos + window_text(rid, a, b).len()) == window_text(rid, a, b),
    ensures
        t.subrange(pos, pos + rid.len()) == rid,
        t.subrange(pos + rid.len() + 4, pos + rid.len() + 4 + a.len()) == a,
        t.subrange(pos + rid.len() + 4 + a.len() + 3, pos + rid.len() + 4 + a.len() + 3 + b.len()) == b,
{
    let w = window_text(rid, a, b);
    lemma_window_layout(rid, a, b);
    let o1 = rid.len() as int;
    let o2 = o1 + 4 + a.len();
    let o3 = o2 + 3 + b.len();
    assert(t.subrange(pos, pos + o1) =~= w.subrange(0, o1));
    assert(t.subrange(pos + o1 + 4, pos + o2) =~= w.subrange(o1 + 4, o2));
    assert(t.subrange(pos + o2 + 3, pos + o3) =~= w.subrange(o2 + 3, o3));
}

/// Reads one window starting at `pos`; on success gives the end of the
/// resource id, the position of the quote that closes the start instant, and
/// the position of the quote that closes the end instant.
fn split_window(s: &str, pos: usize) -> (r: Option<(usize, usize, usize)>)
    requires
        pos <= s@.len(),
    ensures
        r matches Some((j, k, m)) ==> {
            &&& pos < j && j + 4 <= k && k + 3 <= m && m + 3 <= s@.len()
            &&& window_wf(s@.subrange(pos as int, j as int), s@.subrange(j + 4, k as int), s@.subrange(k + 3, m as int))
            &&& s@.subrange(pos as int, m + 3) == window_text(
                s@.subrange(pos as int, j as int),
                s@.subrange(j + 4, k as int),
                s@.subrange(k + 3, m as int),
            )
        },
        forall|rid: Seq<char>, a: Seq<char>, b: Seq<char>|
            window_wf(rid, a, b) && pos + window_text(rid, a, b).len() <= s@.len()
                && #[trigger] s@.subrange(pos as int, pos + window_text(rid, a, b).len()) == window_text(rid, a, b)
                ==> r == Some((
                (pos + rid.len()) as usize,
                (pos + rid.len() + 4 + a.len()) as usize,
                (pos + rid.len() + 4 + a.len() + 3 + b.len()) as usize,
            )),
{
    proof {
        reveal_strlit(", [\"");
        reveal_strlit("\",\"");
        reveal_strlit("\"))");
    }
    // Positions below stay within the text, whose length fits a `usize`.
    let _n = s.unicode_len();
    assert forall|rid: Seq<char>, a: Seq<char>, b: Seq<char>|
        window_wf(rid, a, b) && pos + window_text(rid, a, b).len() <= s@.len()
            && #[trigger] s@.subrange(pos as int, pos + window_text(rid, a, b).len()) == window_text(rid, a, b)
        implies {
            &&& forall|i: int| pos <= i < pos + rid.len() ==> s@[i] != ','
            &&& s@[pos + rid.len()] == ','
            &&& s@.subrange(pos + rid.len(), pos + rid.len() + 4) == ", [\""@
            &&& forall|i: int| pos + rid.len() + 4 <= i < pos + rid.len() + 4 + a.len() ==> s@[i] != '"'
            &&& s@[pos + rid.len() + 4 + a.len()] == '"'
            &&& s@.subrange(pos + rid.len() + 4 + a.len(), pos + rid.len() + 4 + a.len() + 3) == "\",\""@
            &&& forall|i: int| pos + rid.len() + 4 + a.len() + 3 <= i < pos + rid.len() + 4 + a.len() + 3 + b.len() ==> s@[i] != '"'
            &&& s@[pos + rid.len() + 4 + a.len() + 3 + b.len()] == '"'
            &&& s@.subrange(pos + rid.len() + 4 + a.len() + 3 + b.len(), pos + rid.len() + 4 + a.len() + 3 + b.len() + 3) == "\"))"@
        } by {
        let w = window_text(rid, a, b);
        lemma_window_layout(rid, a, b);
        let o1 = pos + rid.len();
        let o2 = o1 + 4 + a.len();
        let o3 = o2 + 3 + b.len();
        let sw = s@.subrange(pos as int, pos + w.len());
        assert forall|i: int| pos <= i < o1 implies s@[i] != ',' by {
            assert(s@[i] == sw[i - pos]);
            assert(w.subrange(0, rid.len() as int)[i - pos] == rid[i - pos]);
        }
        assert(s@.subrange(o1, o1 + 4) =~= w.subrange(o1 - pos, o1 - pos + 4));
        assert(s@[o1] == s@.subrange(o1, o1 + 4)[0]);
        assert forall|i: int| o1 + 4 <= i < o2 implies s@[i] != '"' by {
            assert(s@[i] == sw[i - pos]);
            assert(w.subrange(o1 - pos + 4, o2 - pos)[i - o1 - 4] == a[i - o1 - 4]);
        }
        assert(s@.subrange(o2, o2 + 3) =~= w.subrange(o2 - pos, o2 - pos + 3));
        assert(s@[o2] == s@.subrange(o2, o2 + 3)[0]);
        assert forall|i: int| o2 + 3 <= i < o3 implies s@[i] != '"' by {
            assert(s@[i] == sw[i - pos]);
            assert(w.subrange(o2 - pos + 3, o3 - pos)[i - o2 - 3] == b[i - o2 - 3]);
        }
        assert(s@.subrange(o3, o3 + 3) =~= w.subrange(o3 - pos, o3 - pos + 3));
        assert(s@[o3] == s@.subrange(o3, o3 + 3)[0]);
    }
    let j = find_char(s, pos, ',');
    if j == pos || !literal_at(s, j, ", [\"") {
        return None;
    }
    let k = find_char(s, j + 4, '"');
    if !literal_at(s, k, "\",\"") {
        return None;
    }
    let m = find_char(s, k + 3, '"');
    if !literal_at(s, m, "\"))") {
        return None;
    }
    proof {
        let rid = s@.subrange(pos as int, j as int);
        let a = s@.subrange(j + 4, k as int);
        let b = s@.subrange(k + 3, m as int);
        assert(s@.subrange(pos as int, m + 3) =~= window_text(rid, a, b));
    }
    Some((j, k, m))
}

fn read_time(s: &str, from: usize, to: usize) -> (r: Option<Timestamp>)
    requires
        from <= to <= s@.len(),
    ensures
        r == window_time(s@.subrange(from as int, to as int)),
{
    Timestamp::from_parsed(parse_store_time(s.substring_char(from, to)))
}

impl ReservationConflictInfo {
    /// Reads the store's diagnostic for an overlapping insert: both windows when
    /// the text has the shape of `diagnostic_text` and its instants can be read,
    /// else the raw text.
    #[verifier::rlimit(60)]
    pub fn parse(s: &str) -> (r: ReservationConflictInfo)
        ensures
            conflict_info_of(r, s@),
    {
        let head = "Key (resource_id, timespan)=(";
        let mid = " conflicts with existing key (resource_id, timespan)=(";
        let raw = ReservationConflictInfo::Unparsed(crate::text::owned(s));
        let h = head.unicode_len();
        let md = mid.unicode_len();
        let n = s.unicode_len();
        proof {
            reveal_strlit(".");
        }
        assert forall|p: DiagnosticParts| parts_wf(p) && s@ == #[trigger] diagnostic_text(p) implies {
            let w1 = window_text(p.new_rid, p.new_start, p.new_end);
            let w2 = window_text(p.old_rid, p.old_start, p.old_end);
            &&& s@.subrange(0, h as int) == head@
            &&& s@.subrange(h as int, h + w1.len()) == w1
            &&& s@.subrange(h + w1.len(), h + w1.len() + md) == mid@
            &&& s@.subrange(h + w1.len() + md, h + w1.len() + md + w2.len()) == w2
            &&& s@.subrange(h + w1.len() + md + w2.len(), h + w1.len() + md + w2.len() + 1) == "."@
            &&& s@.len() == h + w1.len() + md + w2.len() + 1
            &&& w1.len() == p.new_rid.len() + 4 + p.new_start.len() + 3 + p.new_end.len() + 3
            &&& w2.len() == p.old_rid.len() + 4 + p.old_start.len() + 3 + p.old_end.len() + 3
        } by {
            let w1 = window_text(p.new_rid, p.new_start, p.new_end);
            let w2 = window_text(p.old_rid, p.old_start, p.old_end);
            lemma_window_layout(p.new_rid, p.new_start, p.new_end);
            lemma_window_layout(p.old_rid, p.old_start, p.old_end);
            let t = s@;
            assert(t =~= Seq::<char>::empty() + head@ + (w1 + mid@ + w2 + "."@));
            lemma_piece(t, Seq::empty(), head@, w1 + mid@ + w2 + "."@);
            assert(t =~= head@ + w1 + (mid@ + w2 + "."@));
            lemma_piece(t, head@, w1, mid@ + w2 + "."@);
            assert(t =~= (head@ + w1) + mid@ + (w2 + "."@));
            lemma_piece(t, head@ + w1, mid@, w2 + "."@);
            assert(t =~= (head@ + w1 + mid@) + w2 + "."@);
            lemma_piece(t, head@ + w1 + mid@, w2, "."@);
            assert(t =~= (head@ + w1 + mid@ + w2) + "."@ + Seq::<char>::empty());
            lemma_piece(t, head@ + w1 + mid@ + w2, "."@, Seq::empty());
        }
        if !literal_at(s, 0, head) {
            return raw;
        }
        let (j1, k1, m1) = match split_window(s, h) {
            Some(w) => w,
            None => {
                return raw;
            },
        };
        if !literal_at(s, m1 + 3, mid) {
            return raw;
        }
        let (j2, k2, m2) = match split_window(s, m1 + 3 + md) {
            Some(w) => w,
            None => {
                return raw;
            },
        };
        if !literal_at(s, m2 + 3, ".") || m2 + 4 != n {
            return raw;
        }
        let ghost q = DiagnosticParts {
            new_rid: s@.subrange(h as int, j1 as int),
            new_start: s@.subrange(j1 + 4, k1 as int),
            new_end: s@.subrange(k1 + 3, m1 as int),
            old_rid: s@.subrange(m1 + 3 + md, j2 as int),
            old_start: s@.subrange(j2 + 4, k2 as int),
            old_end: s@.subrange(k2 + 3, m2 as int),
        };
        proof {
            assert(s@ =~= s@.subrange(0, h as int) + s@.subrange(h as int, m1 + 3) + s@.subrange(m1 + 3, m1 + 3 + md)
                + s@.subrange(m1 + 3 + md, m2 + 3) + s@.subrange(m2 + 3, m2 + 4));
            assert(s@ =~= diagnostic_text(q));
            assert forall|p: DiagnosticParts| parts_wf(p) && s@ == #[trigger] diagnostic_text(p) implies p == q by {
                let w1 = window_text(p.new_rid, p.new_start, p.new_end);
                let w2 = window_text(p.old_rid, p.old_start, p.old_end);
                assert(s@.subrange(h as int, h + w1.len()) == w1);
                lemma_window_pieces(s@, h as int, p.new_rid, p.new_start, p.new_end);
                lemma_window_pieces(s@, h + w1.len() + md, p.old_rid, p.old_start, p.old_end);
                assert(p.new_rid == q.new_rid);
                assert(p.new_start == q.new_start);
                assert(p.new_end == q.new_end);
                assert(p.old_rid == q.old_rid);
                assert(p.old_start == q.old_start);
                assert(p.old_end == q.old_end);
            }
        }
        ReservationConflictInfo::from_windows(
            s,
            s.substring_char(h, j1),
            read_time(s, j1 + 4, k1),
            read_time(s, k1 + 3, m1),
            s.substring_char(m1 + 3 + md, j2),
            read_time(s, j2 + 4, k2),
            read_time(s, k2 + 3, m2),
        )
    }

    /// The conflict between the windows read from a diagnostic: both windows
    /// when all four instants were read, else the raw diagnostic.
    pub fn from_windows(
        raw: &str,
        new_rid: &str,
        new_start: Option<Timestamp>,
        new_end: Option<Timestamp>,
        old_rid: &str,
        old_start: Option<Timestamp>,
        old_end: Option<Timestamp>,
    ) -> (r: ReservationConflictInfo)
        ensures
            new_start is Some && new_end is Some && old_start is Some && old_end is Some ==> {
                &&& r matches ReservationConflictInfo::Parsed(c)
                &&& r->Parsed_0.new.rid@ == new_rid@
                &&& r->Parsed_0.new.start == new_start->0
                &&& r->Parsed_0.new.end == new_end->0
                &&& r->Parsed_0.old.rid@ == old_rid@
                &&& r->Parsed_0.old.start == old_start->0
                &&& r->Parsed_0.old.end == old_end->0
            },
            !(new_start is Some && new_end is Some && old_start is Some && old_end is Some) ==> (
            r matches ReservationConflictInfo::Unparsed(u) && u@ == raw@),
    {
        match (new_start, new_end, old_start, old_end) {
            (Some(ns), Some(ne), Some(os), Some(oe)) => ReservationConflictInfo::Parsed(
                ReservationConflict {
                    new: ReservationWindow { rid: crate::text::owned(new_rid), start: ns, end: ne },
                    old: ReservationWindow { rid: crate::text::owned(old_rid), start: os, end: oe },
                },
            ),
            _ => ReservationConflictInfo::Unparsed(crate::text::owned(raw)),
        }
    }
}

} // verus!
