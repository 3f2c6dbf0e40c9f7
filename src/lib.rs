//! Locating the "short backtrace" part of a captured, symbol-resolved stack trace.
//!
//! Rust places two marker symbols on the stack, `rust_end_short_backtrace` and
//! `rust_begin_short_backtrace`, which bracket the frames that belong to the program
//! proper. The items here find those markers in a [`Trace`] and work out which frames,
//! and which symbols of the outermost frames, lie between them.
//!
//! - `trace`: the trace model, the marker constants and the positions of markers.
//! - `scan`: the single pass that finds the markers.
//! - `range`: checking the markers' order, clamping, and listing the frames to show.
//! - `lemmas`: what the resolver guarantees for whole families of traces.

mod lemmas;
mod range;
mod scan;
mod text;
mod trace;

pub use lemmas::{
    lemma_begin_marker_only, lemma_end_marker_only, lemma_misordered_markers_full_trace,
    lemma_no_markers_full_trace, lemma_short_frames_deterministic,
};
pub use range::{
    all_frames_of, clamp_end, clamp_start, full_range, is_short_frames_of, markers_in_order,
    resolve_short_range, short_frame_ranges, short_frames_of, short_frames_strict,
    short_range_of, trust_markers, trusted, trusted_markers_of, ShortRange,
};
pub use scan::{find_markers, pos_lt, Markers};
pub use text::contains_seq;
pub use trace::{
    at, begin_marker, end_marker, lemma_first_marker_unique, lemma_last_marker_unique, pos_le,
    Frame, Position, Symbol, Trace, BEGIN_MARKER, END_MARKER,
};
