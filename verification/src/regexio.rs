//! The trusted boundary to the `regex` crate: pattern validity and matching.

use vstd::prelude::*;

verus! {

/// Whether a pattern is a valid regular expression. A function of the
/// pattern alone.
pub uninterp spec fn regex_ok(pat: Seq<char>) -> bool;

/// Whether a valid regular expression matches somewhere in a text. A
/// function of the pattern and the text alone.
pub uninterp spec fn regex_match(pat: Seq<char>, text: Seq<char>) -> bool;

/// Relies on `regex::Regex::new` (regex 1.13): it accepts a pattern string
/// or rejects it, deterministically, by the pattern alone.
#[verifier::external_body]
pub(crate) fn regex_compiles(pat: &str) -> (r: bool)
    ensures
        r == regex_ok(pat@),
{
    regex::Regex::new(pat).is_ok()
}

/// Relies on `regex::Regex::new` and `regex::Regex::is_match` (regex 1.13):
/// compiling succeeds exactly for valid patterns, and whether the compiled
/// expression matches somewhere in the text is a function of the pattern and
/// the text alone.
#[verifier::external_body]
pub(crate) fn regex_is_match(pat: &str, text: &str) -> (r: Option<bool>)
    ensures
        r is Some <==> regex_ok(pat@),
        r matches Some(b) ==> b == regex_match(pat@, text@),
{
    match regex::Regex::new(pat) {
        Ok(re) => Some(re.is_match(text)),
        Err(_) => None,
    }
}

} // verus!
