use vstd::prelude::*;

use crate::range::{all_frames_of, is_short_frames_of, short_frames_of, short_range_of, trusted_markers_of};
use crate::scan::pos_lt;
use crate::trace::{
    begin_marker, end_marker, lemma_first_marker_unique, lemma_last_marker_unique, Frame,
    Position, Trace,
};
use std::ops::Range;

verus! {

/// Without any marker the trusted markers are absent, so nothing is clamped.
proof fn lemma_unclamped(t: Trace)
    requires
        t.well_sized(),
        trusted_markers_of(t).end is None,
        trusted_markers_of(t).begin is None,
    ensures
        short_frames_of(t) =~= all_frames_of(t),
{
    if t.frame_count() > 0 {
        assert(t.symbol_count(t.frame_count() - 1) <= usize::MAX);
    }
}

/// A trace in which no symbol carries either marker comes back whole: every frame,
/// in order, with all of its symbols.
pub proof fn lemma_no_markers_full_trace(t: Trace)
    requires
        t.well_sized(),
        !t.has_marker(end_marker()),
        !t.has_marker(begin_marker()),
    ensures
        short_frames_of(t) =~= all_frames_of(t),
{
    lemma_unclamped(t);
}

/// Where the end marker stands after the begin marker, neither is trusted and the
/// trace comes back whole.
pub proof fn lemma_misordered_markers_full_trace(t: Trace, e: Position, b: Position)
    requires
        t.well_sized(),
        t.is_last_marker(end_marker(), e),
        t.is_first_marker(begin_marker(), b),
        pos_lt(b, e),
    ensures
        short_frames_of(t) =~= all_frames_of(t),
{
    lemma_last_marker_unique(t, end_marker(), e, t.last_end_marker().unwrap());
    lemma_first_marker_unique(t, begin_marker(), b, t.first_begin_marker().unwrap());
    lemma_unclamped(t);
}

/// With only an end marker, whose last occurrence is at `e`, the short backtrace
/// starts just after it: at the next symbol of its frame, or at the next frame where
/// it is its frame's last symbol. Its end is not clamped: it runs to the end of the
/// trace's last frame. (Where `e` is the last symbol of the last frame there is no
/// next frame, and the start stays at that frame.)
pub proof fn lemma_end_marker_only(t: Trace, e: Position)
    requires
        t.well_sized(),
        t.is_last_marker(end_marker(), e),
        !t.has_marker(begin_marker()),
        e.symbol + 1 < t.symbol_count(e.frame as int) || e.frame + 1 < t.frame_count(),
    ensures
        short_frames_of(t).len() > 0,
        short_frames_of(t)[0].0 == if e.symbol + 1 == t.symbol_count(e.frame as int) {
            e.frame + 1
        } else {
            e.frame as int
        },
        short_frames_of(t)[0].1 == if e.symbol + 1 == t.symbol_count(e.frame as int) {
            0
        } else {
            e.symbol + 1
        },
        short_frames_of(t).last().0 == t.frame_count() - 1,
        short_frames_of(t).last().2 == t.symbol_count(t.frame_count() - 1),
{
    lemma_last_marker_unique(t, end_marker(), e, t.last_end_marker().unwrap());
    let n = t.frame_count();
    assert(t.symbol_count(n - 1) <= usize::MAX);
    assert(t.symbol_count(e.frame as int) <= usize::MAX);
    let r = short_range_of(t);
    assert(r.last_frame == n - 1);
    assert(r.first_frame <= r.last_frame);
}

/// With only a begin marker, whose first occurrence is at `b`, the short backtrace
/// ends just before it: at the previous symbol of its frame, or with the whole
/// previous frame where it is its frame's first symbol. Its start is not clamped: it
/// begins with every symbol of frame 0. (Where `b` is the first symbol of frame 0
/// there is no previous frame, and the end stays with frame 0.)
pub proof fn lemma_begin_marker_only(t: Trace, b: Position)
    requires
        t.well_sized(),
        t.is_first_marker(begin_marker(), b),
        !t.has_marker(end_marker()),
        b.frame > 0 || b.symbol > 0,
    ensures
        short_frames_of(t).len() > 0,
        short_frames_of(t)[0].0 == 0,
        short_frames_of(t)[0].1 == 0,
        short_frames_of(t).last().0 == if b.symbol == 0 {
            b.frame - 1
        } else {
            b.frame as int
        },
        short_frames_of(t).last().2 == if b.symbol == 0 {
            t.symbol_count(b.frame - 1)
        } else {
            b.symbol as int
        },
{
    lemma_first_marker_unique(t, begin_marker(), b, t.first_begin_marker().unwrap());
    if b.symbol == 0 {
        assert(t.symbol_count(b.frame - 1) <= usize::MAX);
    }
}

/// The output of the resolver is determined by the trace alone: two results that
/// both list the short backtrace of `t` are the same sequence, so running it twice on
/// one trace yields the same frames with the same ranges.
pub proof fn lemma_short_frames_deterministic<'a>(
    t: Trace,
    r1: Seq<(&'a Frame, Range<usize>)>,
    r2: Seq<(&'a Frame, Range<usize>)>,
)
    requires
        is_short_frames_of(t, r1),
        is_short_frames_of(t, r2),
    ensures
        r1 == r2,
{
    assert forall|k: int| 0 <= k < r1.len() implies r1[k] == r2[k] by {
        assert(r1[k].1 == r2[k].1);
    }
    assert(r1 =~= r2);
}

} // verus!
