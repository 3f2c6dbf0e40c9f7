use vstd::prelude::*;

use crate::text::contains_seq;

verus! {

/// Substring that marks the boundary between start-up or panic machinery near the
/// top of the stack and the frames worth showing. It is searched for first, yet it
/// opens the kept region: the stack is listed newest frame first.
pub const END_MARKER: &'static str = "rust_end_short_backtrace";

/// Substring that marks the boundary nearest the program's entry point; it closes
/// the kept region.
pub const BEGIN_MARKER: &'static str = "rust_begin_short_backtrace";

/// One resolved symbol of a frame. Only `name` is read here; the debug
/// information is carried along for whoever prints the frame.
#[derive(Clone, Debug)]
pub struct Symbol {
    pub name: Option<String>,
    pub filename: Option<String>,
    pub lineno: Option<u32>,
}

/// One stack frame: its instruction pointer and the symbols it resolved to
/// (several where calls were inlined, none where nothing resolved).
#[derive(Clone, Debug)]
pub struct Frame {
    pub ip: usize,
    pub symbols: Vec<Symbol>,
}

/// A captured stack, newest frame first.
#[derive(Clone, Debug)]
pub struct Trace {
    pub frames: Vec<Frame>,
}

/// A place in a trace: a frame index, and a symbol index within that frame.
#[derive(Clone, Copy, Debug, PartialEq, Eq, Structural)]
pub struct Position {
    pub frame: usize,
    pub symbol: usize,
}

pub open spec fn at(frame: usize, symbol: usize) -> Position {
    Position { frame, symbol }
}

pub open spec fn end_marker() -> Seq<char> {
    END_MARKER@
}

pub open spec fn begin_marker() -> Seq<char> {
    BEGIN_MARKER@
}

impl Trace {
    pub open spec fn frame_count(&self) -> int {
        self.frames@.len() as int
    }

    /// Number of symbols of frame `f`.
    pub open spec fn symbol_count(&self, f: int) -> int {
        self.frames@[f].symbols@.len() as int
    }

    /// Every length in the trace fits in a `usize`, as it does for any trace held
    /// in memory.
    pub open spec fn well_sized(&self) -> bool {
        &&& self.frame_count() <= usize::MAX
        &&& forall|f: int| 0 <= f < self.frame_count() ==> #[trigger] self.symbol_count(f) <= usize::MAX
    }

    pub open spec fn is_position(&self, p: Position) -> bool {
        (p.frame as int) < self.frame_count() && (p.symbol as int) < self.symbol_count(p.frame as int)
    }

    /// The symbol at `p` has a name, and that name contains `pat`.
    pub open spec fn has_marker_at(&self, pat: Seq<char>, p: Position) -> bool {
        &&& self.is_position(p)
        &&& match self.frames@[p.frame as int].symbols@[p.symbol as int].name {
            Some(n) => contains_seq(n@, pat),
            None => false,
        }
    }

    pub open spec fn has_marker(&self, pat: Seq<char>) -> bool {
        exists|p: Position| self.has_marker_at(pat, p)
    }

    /// `p` is the last position, in scan order, whose symbol carries `pat`.
    pub open spec fn is_last_marker(&self, pat: Seq<char>, p: Position) -> bool {
        &&& self.has_marker_at(pat, p)
        &&& forall|q: Position| #[trigger] self.has_marker_at(pat, q) ==> pos_le(q, p)
    }

    /// `p` is the first position, in scan order, whose symbol carries `pat`.
    pub open spec fn is_first_marker(&self, pat: Seq<char>, p: Position) -> bool {
        &&& self.has_marker_at(pat, p)
        &&& forall|q: Position| #[trigger] self.has_marker_at(pat, q) ==> pos_le(p, q)
    }

    /// Where the last end marker stands, if any symbol carries one.
    pub open spec fn last_end_marker(&self) -> Option<Position> {
        if exists|p: Position| self.is_last_marker(end_marker(), p) {
            Some(choose|p: Position| self.is_last_marker(end_marker(), p))
        } else {
            None
        }
    }

    /// Where the first begin marker stands, if any symbol carries one.
    pub open spec fn first_begin_marker(&self) -> Option<Position> {
        if exists|p: Position| self.is_first_marker(begin_marker(), p) {
            Some(choose|p: Position| self.is_first_marker(begin_marker(), p))
        } else {
            None
        }
    }
}

/// Lexicographic order on positions: by frame, then by symbol.
pub open spec fn pos_le(a: Position, b: Position) -> bool {
    a.frame < b.frame || (a.frame == b.frame && a.symbol <= b.symbol)
}

/// At most one position is the last carrier of a marker.
pub proof fn lemma_last_marker_unique(t: Trace, pat: Seq<char>, p: Position, q: Position)
    requires
        t.is_last_marker(pat, p),
        t.is_last_marker(pat, q),
    ensures
        p == q,
{
    assert(pos_le(q, p));
    assert(pos_le(p, q));
}

/// At most one position is the first carrier of a marker.
pub proof fn lemma_first_marker_unique(t: Trace, pat: Seq<char>, p: Position, q: Position)
    requires
        t.is_first_marker(pat, p),
        t.is_first_marker(pat, q),
    ensures
        p == q,
{
    assert(pos_le(q, p));
    assert(pos_le(p, q));
}

} // verus!
