//! The regular-expression boundary. Whether a pattern compiles, and which
//! texts it matches, are functions of the pattern and the text alone; both
//! are given names here and the engine's contracts speak of those names.

use vstd::prelude::*;

verus! {

/// Whether the regular-expression engine accepts a pattern.
pub uninterp spec fn pattern_compiles(pattern: Seq<char>) -> bool;

/// Whether a pattern matches anywhere in a text.
pub uninterp spec fn pattern_matches(pattern: Seq<char>, text: Seq<char>) -> bool;

/// Relies on `regex::Regex::new`: whether a pattern compiles depends on the
/// pattern alone.
#[verifier::external_body]
pub(crate) fn regex_compiles(pattern: &String) -> (r: bool)
    ensures
        r == pattern_compiles(pattern@),
{
    regex::Regex::new(pattern).is_ok()
}

/// Relies on `regex::Regex::new` and `regex::Regex::is_match`: a compiled
/// pattern tests for a match anywhere in the text; the answer depends on the
/// pattern and the text alone. `None` when the pattern does not compile.
#[verifier::external_body]
pub(crate) fn regex_match(pattern: &String, text: &String) -> (r: Option<bool>)
    ensures
        r is Some <==> pattern_compiles(pattern@),
        r is Some ==> r->0 == pattern_matches(pattern@, text@),
{
    match regex::Regex::new(pattern) {
        Ok(re) => Some(re.is_match(text)),
        Err(_) => None,
    }
}

} // verus!
