use vstd::prelude::*;

verus! {

/// `pat` occurs as a contiguous run of characters inside `hay`.
pub open spec fn contains_seq(hay: Seq<char>, pat: Seq<char>) -> bool {
    exists|i: int|
        0 <= i && i + pat.len() <= hay.len() && #[trigger] hay.subrange(i, i + pat.len()) == pat
}

/// Relies on `str::contains` with a `&str` pattern: it is true exactly when the
/// pattern appears as a contiguous part of the string.
#[verifier::external_body]
pub(crate) fn str_contains(hay: &str, pat: &str) -> (r: bool)
    ensures
        r == contains_seq(hay@, pat@),
{
    hay.contains(pat)
}

} // verus!
