use backtrace_ext::{
    find_markers, resolve_short_range, short_frame_ranges, short_frames_strict, trust_markers,
    Frame, Markers, Position, ShortRange, Symbol, Trace, BEGIN_MARKER, END_MARKER,
};

const END: &str = "rust_end_short_backtrace";
const BEGIN: &str = "rust_begin_short_backtrace";

fn sym(name: &str) -> Symbol {
    Symbol { name: Some(name.to_string()), filename: None, lineno: None }
}

fn frame(ip: usize, names: &[&str]) -> Frame {
    Frame { ip, symbols: names.iter().map(|n| sym(n)).collect() }
}

fn trace(frames: &[&[&str]]) -> Trace {
    Trace { frames: frames.iter().enumerate().map(|(i, names)| frame(i, names)).collect() }
}

/// (frame index, start, end) for each yielded frame.
fn ranges(t: &Trace) -> Vec<(usize, usize, usize)> {
    short_frame_ranges(t).into_iter().map(|(i, r)| (i, r.start, r.end)).collect()
}

fn full(t: &Trace) -> Vec<(usize, usize, usize)> {
    t.frames.iter().enumerate().map(|(i, f)| (i, 0, f.symbols.len())).collect()
}

fn pos(frame: usize, symbol: usize) -> Position {
    Position { frame, symbol }
}

#[test]
fn marker_constants() {
    assert_eq!(END_MARKER, END);
    assert_eq!(BEGIN_MARKER, BEGIN);
}

#[test]
fn no_markers_yields_full_trace() {
    let t = trace(&[&["a"], &["b", "c"], &[], &["d"]]);
    assert_eq!(ranges(&t), vec![(0, 0, 1), (1, 0, 2), (2, 0, 0), (3, 0, 1)]);
}

#[test]
fn end_marker_mid_frame_starts_after_it() {
    let t = trace(&[&["x"], &[END, "a", "b"], &["c"]]);
    assert_eq!(ranges(&t), vec![(1, 1, 3), (2, 0, 1)]);
}

#[test]
fn end_marker_last_subframe_starts_at_next_frame() {
    let t = trace(&[&["x"], &["a", END], &["c", "d"], &["e"]]);
    assert_eq!(ranges(&t), vec![(2, 0, 2), (3, 0, 1)]);
}

#[test]
fn end_marker_in_last_symbol_of_last_frame_keeps_that_frame() {
    let t = trace(&[&["x"], &["a", END]]);
    assert_eq!(ranges(&t), vec![(1, 0, 2)]);
}

#[test]
fn begin_marker_first_subframe_ends_with_previous_frame() {
    let t = trace(&[&["a"], &["b", "c"], &[BEGIN, "y"], &["z"]]);
    assert_eq!(ranges(&t), vec![(0, 0, 1), (1, 0, 2)]);
}

#[test]
fn begin_marker_mid_frame_ends_before_it() {
    let t = trace(&[&["a"], &["b", BEGIN, "y"], &["z"]]);
    assert_eq!(ranges(&t), vec![(0, 0, 1), (1, 0, 1)]);
}

#[test]
fn begin_marker_at_very_start_keeps_first_frame() {
    let t = trace(&[&[BEGIN, "a"], &["b"]]);
    assert_eq!(ranges(&t), vec![(0, 0, 2)]);
}

#[test]
fn misordered_markers_yield_full_trace() {
    let t = trace(&[&["a"], &[BEGIN], &["b"], &[END], &["c"]]);
    assert_eq!(ranges(&t), full(&t));
    let m = find_markers(&t);
    assert_eq!(m.end, Some(pos(3, 0)));
    assert_eq!(m.begin, Some(pos(1, 0)));
    assert_eq!(trust_markers(m), Markers { end: None, begin: None });
}

#[test]
fn misordered_within_one_frame_yield_full_trace() {
    let t = trace(&[&["a", BEGIN, END, "b"]]);
    assert_eq!(ranges(&t), vec![(0, 0, 4)]);
}

#[test]
fn running_twice_gives_same_output() {
    let t = trace(&[&["x", END], &["a", "b"], &["c", BEGIN]]);
    let first = short_frames_strict(&t);
    let second = short_frames_strict(&t);
    assert_eq!(first.len(), second.len());
    for (a, b) in first.iter().zip(second.iter()) {
        assert!(std::ptr::eq(a.0, b.0));
        assert_eq!(a.1, b.1);
    }
    assert_eq!(ranges(&t), ranges(&t));
}

#[test]
fn scenario_frame_between_markers() {
    let t = trace(&[&["x"], &[END], &["a", "b"], &[BEGIN], &["y"]]);
    let out = short_frames_strict(&t);
    assert_eq!(out.len(), 1);
    assert!(std::ptr::eq(out[0].0, &t.frames[2]));
    assert_eq!(out[0].1, 0..2);
    assert_eq!(
        resolve_short_range(&t),
        ShortRange { first_frame: 2, first_subframe: 0, last_frame: 2, last_subframe_excl: 2 }
    );
}

#[test]
fn scenario_end_marker_first_of_three() {
    let t = trace(&[&["x"], &[END, "a", "b"], &["c"]]);
    let r = resolve_short_range(&t);
    assert_eq!(r.first_frame, 1);
    assert_eq!(r.first_subframe, 1);
}

#[test]
fn scenario_empty_trace() {
    let t = Trace { frames: vec![] };
    assert!(short_frames_strict(&t).is_empty());
    assert!(short_frame_ranges(&t).is_empty());
    assert_eq!(
        resolve_short_range(&t),
        ShortRange { first_frame: 0, first_subframe: 0, last_frame: 0, last_subframe_excl: 0 }
    );
}

#[test]
fn scenario_adjacent_markers_in_one_frame() {
    let t = trace(&[&["x", END, BEGIN, "y"]]);
    let out = short_frames_strict(&t);
    assert_eq!(out.len(), 1);
    assert_eq!(out[0].1, 2..2);
    assert!(t.frames[0].symbols[out[0].1.clone()].is_empty());
}

#[test]
fn adjacent_frames_yield_nothing() {
    let t = trace(&[&["x", END], &[BEGIN, "y"]]);
    assert!(ranges(&t).is_empty());
}

#[test]
fn one_symbol_with_both_markers_gives_empty_range() {
    let both = format!("{}::{}", END, BEGIN);
    let t = trace(&[&["a"], &["b", &both, "c"], &["d"]]);
    assert_eq!(ranges(&t), vec![(1, 1, 1)]);
}

#[test]
fn last_end_and_first_begin_win() {
    let t = trace(&[&[END], &["g", END], &["a"], &[BEGIN], &["b"], &[BEGIN]]);
    let m = find_markers(&t);
    assert_eq!(m.end, Some(pos(1, 1)));
    assert_eq!(m.begin, Some(pos(3, 0)));
    assert_eq!(ranges(&t), vec![(2, 0, 1)]);
}

#[test]
fn markers_match_as_substrings() {
    let end = "std::rt::lang_start::{{closure}}::rust_end_short_backtrace::h0123456789abcdef";
    let begin = "std::sys::backtrace::__rust_begin_short_backtrace";
    let t = trace(&[&["panic"], &[end], &["main"], &[begin], &["start"]]);
    assert_eq!(ranges(&t), vec![(2, 0, 1)]);
}

#[test]
fn markers_are_case_sensitive() {
    let t = trace(&[&["x"], &["RUST_END_SHORT_BACKTRACE"], &["a"], &["Rust_Begin_Short_Backtrace"]]);
    assert_eq!(ranges(&t), full(&t));
    let m = find_markers(&t);
    assert_eq!(m.end, None);
    assert_eq!(m.begin, None);
}

#[test]
fn unnamed_symbols_and_empty_frames_are_skipped() {
    let mut t = trace(&[&["x"], &[], &[END], &["a"], &[], &[BEGIN]]);
    t.frames[0].symbols.push(Symbol { name: None, filename: None, lineno: None });
    assert_eq!(ranges(&t), vec![(3, 0, 1), (4, 0, 0)]);
}

#[test]
fn end_marker_in_empty_looking_name_is_not_found() {
    let t = trace(&[&[""], &["rust_end_short"], &["backtrace"]]);
    assert_eq!(find_markers(&t).end, None);
    assert_eq!(ranges(&t), full(&t));
}

#[test]
fn frames_carry_their_debug_information() {
    let mut t = trace(&[&[END], &["a"]]);
    t.frames[1].symbols[0].filename = Some("src/main.rs".to_string());
    t.frames[1].symbols[0].lineno = Some(7);
    let out = short_frames_strict(&t);
    assert_eq!(out.len(), 1);
    assert_eq!(out[0].0.ip, 1);
    assert_eq!(out[0].0.symbols[0].filename.as_deref(), Some("src/main.rs"));
    assert_eq!(out[0].0.symbols[0].lineno, Some(7));
}
