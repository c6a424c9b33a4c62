//! The in-band marker that ends a model's reasoning segment.

use vstd::prelude::*;

verus! {

/// Whether `needle` occurs in `hay` starting at position `at`.
pub open spec fn occurs_at(needle: Seq<char>, hay: Seq<char>, at: int) -> bool {
    &&& 0 <= at
    &&& at + needle.len() <= hay.len()
    &&& hay.subrange(at, at + needle.len()) == needle
}

/// Whether `needle` occurs somewhere in `hay` as a contiguous run.
pub open spec fn occurs_in(needle: Seq<char>, hay: Seq<char>) -> bool {
    exists|at: int| occurs_at(needle, hay, at)
}

/// The characters of the stop marker, `</think>`.
pub open spec fn stop_marker() -> Seq<char> {
    seq!['<', '/', 't', 'h', 'i', 'n', 'k', '>']
}

/// Whether a text holds the stop marker.
pub open spec fn has_stop_marker(text: Seq<char>) -> bool {
    occurs_in(stop_marker(), text)
}

/// `str::contains` with a string as the pattern. Trusted: the result is true
/// exactly when the pattern's characters occur in the text as one contiguous
/// run (an empty pattern occurs everywhere).
#[verifier::external_body]
fn str_contains(hay: &str, needle: &str) -> (found: bool)
    ensures
        found == occurs_in(needle@, hay@),
{
    hay.contains(needle)
}

/// Whether a token holds the stop marker `</think>`.
pub fn contains_stop_word(token: &str) -> (found: bool)
    ensures
        found == has_stop_marker(token@),
{
    proof {
        reveal_strlit("</think>");
        assert("</think>"@ =~= stop_marker());
    }
    str_contains(token, "</think>")
}

} // verus!
