use vstd::prelude::*;

use crate::text::str_contains;
use crate::trace::{
    at, begin_marker, end_marker, lemma_first_marker_unique, lemma_last_marker_unique, pos_le,
    Position, Trace, BEGIN_MARKER, END_MARKER,
};

verus! {

/// The marker positions that one scan of a trace found.
#[derive(Clone, Copy, Debug, PartialEq, Eq, Structural)]
pub struct Markers {
    /// Last symbol whose name contains the end marker.
    pub end: Option<Position>,
    /// First symbol whose name contains the begin marker.
    pub begin: Option<Position>,
}

/// Strict lexicographic order on positions.
pub open spec fn pos_lt(a: Position, b: Position) -> bool {
    a.frame < b.frame || (a.frame == b.frame && a.symbol < b.symbol)
}

/// `found` is the last carrier of `pat` among the positions before `lim`.
spec fn last_before(t: Trace, pat: Seq<char>, found: Option<Position>, lim: Position) -> bool {
    match found {
        None => forall|q: Position| #[trigger] t.has_marker_at(pat, q) ==> !pos_lt(q, lim),
        Some(p) => {
            &&& pos_lt(p, lim)
            &&& t.has_marker_at(pat, p)
            &&& forall|q: Position| #[trigger]
                t.has_marker_at(pat, q) && pos_lt(q, lim) ==> pos_le(q, p)
        },
    }
}

/// `found` is the first carrier of `pat` among the positions before `lim`.
spec fn first_before(t: Trace, pat: Seq<char>, found: Option<Position>, lim: Position) -> bool {
    match found {
        None => forall|q: Position| #[trigger] t.has_marker_at(pat, q) ==> !pos_lt(q, lim),
        Some(p) => {
            &&& pos_lt(p, lim)
            &&& t.has_marker_at(pat, p)
            &&& forall|q: Position| #[trigger] t.has_marker_at(pat, q) ==> pos_le(p, q)
        },
    }
}

/// Scanning up to the end of a frame covers the same positions as scanning up to
/// the start of the next one.
proof fn lemma_next_frame(t: Trace, pat: Seq<char>, f: usize, m: usize)
    requires
        (f as int) < t.frame_count(),
        m == t.symbol_count(f as int),
        f < usize::MAX,
    ensures
        forall|q: Position| #[trigger]
            t.has_marker_at(pat, q) ==> (pos_lt(q, at(f, m))
                <==> pos_lt(q, at((f + 1) as usize, 0))),
{
}

/// A scan that reached the end of the trace has seen every position.
proof fn lemma_scan_covers(t: Trace, pat: Seq<char>)
    requires
        t.frame_count() <= usize::MAX,
    ensures
        forall|q: Position| #[trigger]
            t.has_marker_at(pat, q) ==> pos_lt(q, at(t.frame_count() as usize, 0)),
{
}

/// A finished scan for the last carrier of `pat` found the last one in the trace.
proof fn lemma_last_complete(t: Trace, pat: Seq<char>, last: Option<Position>)
    requires
        t.frame_count() <= usize::MAX,
        last_before(t, pat, last, at(t.frame_count() as usize, 0)),
    ensures
        last matches Some(p) ==> t.is_last_marker(pat, p),
        last is None <==> !t.has_marker(pat),
{
    lemma_scan_covers(t, pat);
    if last is Some {
        assert(t.has_marker_at(pat, last.unwrap()));
    }
}

/// A finished scan for the first carrier of `pat` found the first one in the trace.
proof fn lemma_first_complete(t: Trace, pat: Seq<char>, first: Option<Position>)
    requires
        t.frame_count() <= usize::MAX,
        first_before(t, pat, first, at(t.frame_count() as usize, 0)),
    ensures
        first matches Some(p) ==> t.is_first_marker(pat, p),
        first is None <==> !t.has_marker(pat),
{
    lemma_scan_covers(t, pat);
    if first is Some {
        assert(t.has_marker_at(pat, first.unwrap()));
    }
}

/// Scans every symbol of `trace` once, in order, and records the last symbol whose
/// name contains the end marker and the first whose name contains the begin marker.
pub fn find_markers(trace: &Trace) -> (r: Markers)
    ensures
        r.end == trace.last_end_marker(),
        r.begin == trace.first_begin_marker(),
{
    let ghost t = *trace;
    let mut end: Option<Position> = None;
    let mut begin: Option<Position> = None;
    let n = trace.frames.len();
    let mut f: usize = 0;
    while f < n
        invariant
            n == t.frame_count(),
            t == *trace,
            f <= n,
            last_before(t, end_marker(), end, at(f, 0)),
            first_before(t, begin_marker(), begin, at(f, 0)),
        decreases n - f,
    {
        let symbols = &trace.frames[f].symbols;
        let m = symbols.len();
        let mut s: usize = 0;
        while s < m
            invariant
                n == t.frame_count(),
                t == *trace,
                f < n,
                symbols@ == t.frames@[f as int].symbols@,
                m == t.symbol_count(f as int),
                s <= m,
                last_before(t, end_marker(), end, at(f, s)),
                first_before(t, begin_marker(), begin, at(f, s)),
            decreases m - s,
        {
            if let Some(name) = &symbols[s].name {
                if str_contains(name.as_str(), END_MARKER) {
                    end = Some(Position { frame: f, symbol: s });
                }
                if begin.is_none() && str_contains(name.as_str(), BEGIN_MARKER) {
                    begin = Some(Position { frame: f, symbol: s });
                }
            }
            s = s + 1;
        }
        proof {
            lemma_next_frame(t, end_marker(), f, m);
            lemma_next_frame(t, begin_marker(), f, m);
        }
        f = f + 1;
    }
    proof {
        lemma_last_complete(t, end_marker(), end);
        lemma_first_complete(t, begin_marker(), begin);
        if let Some(p) = end {
            lemma_last_marker_unique(t, end_marker(), p, t.last_end_marker().unwrap());
        }
        if let Some(p) = begin {
            lemma_first_marker_unique(t, begin_marker(), p, t.first_begin_marker().unwrap());
        }
    }
    Markers { end, begin }
}

} // verus!
