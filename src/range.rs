use vstd::prelude::*;

use crate::scan::{find_markers, Markers};
use crate::trace::{begin_marker, end_marker, pos_le, Frame, Position, Trace};
use std::ops::Range;

verus! {

/// The part of a trace to keep: frames `first_frame ..= last_frame`, where the
/// first of them starts at symbol `first_subframe` and the last ends just
/// before symbol `last_subframe_excl`.
#[derive(Clone, Copy, Debug, PartialEq, Eq, Structural)]
pub struct ShortRange {
    pub first_frame: usize,
    pub first_subframe: usize,
    /// Inclusive.
    pub last_frame: usize,
    /// Exclusive.
    pub last_subframe_excl: usize,
}

/// Both markers were found, and the end marker does not stand after the begin marker.
pub open spec fn markers_in_order(m: Markers) -> bool {
    match (m.end, m.begin) {
        (Some(e), Some(b)) => pos_le(e, b),
        _ => true,
    }
}

/// The markers that can be trusted: all of them, unless both were found in the
/// wrong order, in which case neither.
pub open spec fn trusted(m: Markers) -> Markers {
    if markers_in_order(m) {
        m
    } else {
        Markers { end: None, begin: None }
    }
}

/// The markers of `t` that the clamps use.
pub open spec fn trusted_markers_of(t: Trace) -> Markers {
    trusted(Markers { end: t.last_end_marker(), begin: t.first_begin_marker() })
}

/// The whole trace: every symbol of every frame.
pub open spec fn full_range(t: Trace) -> ShortRange {
    let n = t.frame_count();
    ShortRange {
        first_frame: 0,
        first_subframe: 0,
        last_frame: if n == 0 { 0 } else { (n - 1) as usize },
        last_subframe_excl: if n == 0 { 0 } else { t.symbol_count(n - 1) as usize },
    }
}

/// Moves the start of `r` past the end marker at `p`: to the next symbol of its
/// frame, or, where `p` is the frame's last symbol, to the start of the next frame
/// (but never beyond `r.last_frame`).
pub open spec fn clamp_start(t: Trace, r: ShortRange, p: Position) -> ShortRange {
    if p.symbol + 1 == t.symbol_count(p.frame as int) {
        ShortRange {
            first_frame: if p.frame + 1 <= r.last_frame { (p.frame + 1) as usize } else { r.last_frame },
            first_subframe: 0,
            last_frame: r.last_frame,
            last_subframe_excl: r.last_subframe_excl,
        }
    } else {
        ShortRange {
            first_frame: p.frame,
            first_subframe: (p.symbol + 1) as usize,
            last_frame: r.last_frame,
            last_subframe_excl: r.last_subframe_excl,
        }
    }
}

/// Moves the end of `r` before the begin marker at `p`: to just before it in its
/// frame, or, where `p` is the frame's first symbol, to the end of the previous
/// frame (frame 0 where there is none).
pub open spec fn clamp_end(t: Trace, r: ShortRange, p: Position) -> ShortRange {
    if p.symbol == 0 {
        let lf: usize = if p.frame == 0 { 0 } else { (p.frame - 1) as usize };
        ShortRange {
            first_frame: r.first_frame,
            first_subframe: r.first_subframe,
            last_frame: lf,
            last_subframe_excl: if (lf as int) < t.frame_count() { t.symbol_count(lf as int) as usize } else { 0 },
        }
    } else {
        ShortRange {
            first_frame: r.first_frame,
            first_subframe: r.first_subframe,
            last_frame: p.frame,
            last_subframe_excl: p.symbol,
        }
    }
}

/// The short range of `t`: the whole trace, clamped at the start by the trusted end
/// marker and then at the end by the trusted begin marker.
pub open spec fn short_range_of(t: Trace) -> ShortRange {
    let m = trusted_markers_of(t);
    let r0 = full_range(t);
    let r1 = match m.end {
        Some(p) => clamp_start(t, r0, p),
        None => r0,
    };
    match m.begin {
        Some(p) => clamp_end(t, r1, p),
        None => r1,
    }
}

impl ShortRange {
    /// In a non-empty trace, both ends name existing frames and stay within their symbols.
    pub open spec fn within(self, t: Trace) -> bool {
        t.frame_count() > 0 ==> {
            &&& (self.first_frame as int) < t.frame_count()
            &&& (self.last_frame as int) < t.frame_count()
            &&& (self.first_subframe as int) <= t.symbol_count(self.first_frame as int)
            &&& (self.last_subframe_excl as int) <= t.symbol_count(self.last_frame as int)
        }
    }

    /// How many frames the range yields: none for an empty trace or where the
    /// clamps crossed.
    pub open spec fn frame_len(self, t: Trace) -> int {
        if t.frame_count() == 0 || self.first_frame > self.last_frame {
            0
        } else {
            self.last_frame - self.first_frame + 1
        }
    }

    /// Exclusive end of the symbols yielded from the `k`-th frame of the range.
    pub open spec fn sub_end(self, t: Trace, k: int) -> int {
        if self.first_frame + k == self.last_frame {
            self.last_subframe_excl as int
        } else {
            t.symbol_count(self.first_frame + k)
        }
    }

    /// Start of the symbols yielded from the `k`-th frame of the range; it never
    /// passes the end, so that crossed clamps give an empty range.
    pub open spec fn sub_start(self, t: Trace, k: int) -> int {
        let s: int = if k == 0 { self.first_subframe as int } else { 0 };
        if s <= self.sub_end(t, k) { s } else { self.sub_end(t, k) }
    }

    /// What the range yields: for each frame, its index in the trace and the
    /// half-open range of its symbols.
    pub open spec fn frames_of(self, t: Trace) -> Seq<(int, int, int)> {
        Seq::new(
            self.frame_len(t) as nat,
            |k: int| (self.first_frame + k, self.sub_start(t, k), self.sub_end(t, k)),
        )
    }
}

/// The frames of the short backtrace of `t`, each with its index and the range of
/// its symbols to show.
pub open spec fn short_frames_of(t: Trace) -> Seq<(int, int, int)> {
    short_range_of(t).frames_of(t)
}

/// Every frame of `t` with all of its symbols.
pub open spec fn all_frames_of(t: Trace) -> Seq<(int, int, int)> {
    Seq::new(t.frame_count() as nat, |k: int| (k, 0, t.symbol_count(k)))
}

/// Drops both markers when they were found in the wrong order.
pub fn trust_markers(m: Markers) -> (r: Markers)
    ensures
        r == trusted(m),
{
    if let (Some(e), Some(b)) = (m.end, m.begin) {
        if e.frame > b.frame || (e.frame == b.frame && e.symbol > b.symbol) {
            return Markers { end: None, begin: None };
        }
    }
    m
}

/// Works out the short range of `trace` from one scan for its markers.
pub fn resolve_short_range(trace: &Trace) -> (r: ShortRange)
    ensures
        r == short_range_of(*trace),
        r.within(*trace),
{
    let m = trust_markers(find_markers(trace));
    proof {
        if let Some(p) = m.end {
            assert(trace.is_last_marker(end_marker(), p));
        }
        if let Some(p) = m.begin {
            assert(trace.is_first_marker(begin_marker(), p));
        }
    }
    let n = trace.frames.len();
    let mut first_frame: usize = 0;
    let mut first_subframe: usize = 0;
    let mut last_frame: usize = if n == 0 { 0 } else { n - 1 };
    let mut last_subframe_excl: usize = if n == 0 { 0 } else { trace.frames[n - 1].symbols.len() };
    if let Some(p) = m.end {
        if trace.frames[p.frame].symbols.len() == p.symbol + 1 {
            first_frame = if p.frame + 1 <= last_frame { p.frame + 1 } else { last_frame };
            first_subframe = 0;
        } else {
            first_frame = p.frame;
            first_subframe = p.symbol + 1;
        }
    }
    if let Some(p) = m.begin {
        if p.symbol == 0 {
            last_frame = if p.frame == 0 { 0 } else { p.frame - 1 };
            last_subframe_excl = if last_frame < n { trace.frames[last_frame].symbols.len() } else { 0 };
        } else {
            last_frame = p.frame;
            last_subframe_excl = p.symbol;
        }
    }
    ShortRange { first_frame, first_subframe, last_frame, last_subframe_excl }
}

} // verus!

verus! {

/// `r` lists exactly the frames of the short backtrace of `t`, in order, each with the
/// range of its symbols to show.
pub open spec fn is_short_frames_of<'a>(t: Trace, r: Seq<(&'a Frame, Range<usize>)>) -> bool {
    &&& r.len() == short_frames_of(t).len()
    &&& forall|k: int|
        0 <= k < r.len() ==> {
            &&& *r[k].0 == t.frames@[short_frames_of(t)[k].0]
            &&& r[k].1.start == short_frames_of(t)[k].1
            &&& r[k].1.end == short_frames_of(t)[k].2
        }
}

/// Lists the frames of `trace` that lie between its short-backtrace markers, each by
/// its index in `trace.frames` and with the range of its symbols to show. Where no
/// trustworthy marker is found the whole trace comes back, every frame with all of
/// its symbols.
pub fn short_frame_ranges(trace: &Trace) -> (r: Vec<(usize, Range<usize>)>)
    ensures
        r@.len() == short_frames_of(*trace).len(),
        forall|k: int|
            0 <= k < r@.len() ==> {
                &&& (#[trigger] r@[k]).0 == short_frames_of(*trace)[k].0
                &&& r@[k].1.start == short_frames_of(*trace)[k].1
                &&& r@[k].1.end == short_frames_of(*trace)[k].2
                &&& r@[k].0 < trace.frames@.len()
                &&& r@[k].1.start <= r@[k].1.end <= trace.symbol_count(r@[k].0 as int)
            },
{
    let range = resolve_short_range(trace);
    let ghost want = short_frames_of(*trace);
    let n = trace.frames.len();
    let mut out: Vec<(usize, Range<usize>)> = Vec::new();
    if n == 0 || range.first_frame > range.last_frame {
        return out;
    }
    let mut i: usize = range.first_frame;
    while i <= range.last_frame
        invariant
            n == trace.frame_count(),
            n > 0,
            range == short_range_of(*trace),
            range.within(*trace),
            want == range.frames_of(*trace),
            range.first_frame <= i <= range.last_frame + 1,
            out@.len() == i - range.first_frame,
            forall|k: int|
                0 <= k < out@.len() ==> {
                    &&& (#[trigger] out@[k]).0 == want[k].0
                    &&& out@[k].1.start == want[k].1
                    &&& out@[k].1.end == want[k].2
                    &&& out@[k].0 < n
                    &&& out@[k].1.start <= out@[k].1.end <= trace.symbol_count(out@[k].0 as int)
                },
        decreases range.last_frame + 1 - i,
    {
        let end: usize = if i == range.last_frame {
            range.last_subframe_excl
        } else {
            trace.frames[i].symbols.len()
        };
        let first: usize = if i == range.first_frame { range.first_subframe } else { 0 };
        let start: usize = if first <= end { first } else { end };
        out.push((i, Range { start, end }));
        i = i + 1;
    }
    out
}

/// Gets the frames of `trace` that lie between its short-backtrace markers, each
/// with the range of its symbols to show. Where no trustworthy marker is found the
/// whole trace comes back, every frame with all of its symbols.
pub fn short_frames_strict(trace: &Trace) -> (r: Vec<(&Frame, Range<usize>)>)
    ensures
        is_short_frames_of(*trace, r@),
        forall|k: int|
            0 <= k < r@.len() ==> (#[trigger] r@[k]).1.start <= r@[k].1.end <= r@[k].0.symbols@.len(),
{
    let ranges = short_frame_ranges(trace);
    let mut out: Vec<(&Frame, Range<usize>)> = Vec::new();
    let mut k: usize = 0;
    while k < ranges.len()
        invariant
            k <= ranges@.len(),
            out@.len() == k,
            forall|j: int|
                0 <= j < ranges@.len() ==> {
                    &&& (#[trigger] ranges@[j]).0 == short_frames_of(*trace)[j].0
                    &&& ranges@[j].1.start == short_frames_of(*trace)[j].1
                    &&& ranges@[j].1.end == short_frames_of(*trace)[j].2
                    &&& ranges@[j].0 < trace.frames@.len()
                    &&& ranges@[j].1.start <= ranges@[j].1.end <= trace.symbol_count(ranges@[j].0 as int)
                },
            ranges@.len() == short_frames_of(*trace).len(),
            forall|j: int|
                0 <= j < k ==> {
                    &&& *(#[trigger] out@[j]).0 == trace.frames@[short_frames_of(*trace)[j].0]
                    &&& out@[j].1.start == short_frames_of(*trace)[j].1
                    &&& out@[j].1.end == short_frames_of(*trace)[j].2
                    &&& out@[j].1.start <= out@[j].1.end <= out@[j].0.symbols@.len()
                },
        decreases ranges@.len() - k,
    {
        let (i, sub) = (ranges[k].0, Range { start: ranges[k].1.start, end: ranges[k].1.end });
        out.push((&trace.frames[i], sub));
        k = k + 1;
    }
    out
}

} // verus!
