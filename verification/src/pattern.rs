//! Regex pattern checks for key values.
//!
//! A pattern of an [`crate::crds::ActionSpec`] is matched against the whole
//! value (full match), as a byte-level regex. Compilation and matching are
//! done by the `regex` crate; the engine sees both only through the two
//! named results below, which depend on the pattern and the value alone.

use vstd::prelude::*;

verus! {

/// Whether `pattern`, anchored to the whole input, is a valid regex.
pub uninterp spec fn pattern_ok(pattern: Seq<char>) -> bool;

/// Whether `pattern`, anchored to the whole input, matches all of `value`.
pub uninterp spec fn pattern_accepts(pattern: Seq<char>, value: Seq<u8>) -> bool;

/// Whether the pattern is a valid regex.
///
/// Relies on `regex::bytes::Regex::new`: whether a pattern compiles is a
/// deterministic function of the pattern string. The pattern is wrapped in
/// `\A(?:...)\z` so that a later match covers the whole value.
#[verifier::external_body]
pub fn pattern_compiles(pattern: &str) -> (r: bool)
    ensures
        r == pattern_ok(pattern@),
{
    regex::bytes::Regex::new(&format!("\\A(?:{})\\z", pattern)).is_ok()
}

/// Whether the pattern matches the whole value; `None` when the pattern is
/// not a valid regex.
///
/// Relies on `regex::bytes::Regex::new` and `regex::bytes::Regex::is_match`:
/// compilation success and the match verdict are deterministic functions of
/// the pattern and the value. The pattern is wrapped in `\A(?:...)\z`, so
/// `is_match` reports a match of the whole value.
#[verifier::external_body]
pub fn pattern_full_match(pattern: &str, value: &[u8]) -> (r: Option<bool>)
    ensures
        r is Some <==> pattern_ok(pattern@),
        r is Some ==> r->0 == pattern_accepts(pattern@, value@),
{
    match regex::bytes::Regex::new(&format!("\\A(?:{})\\z", pattern)) {
        Ok(re) => Some(re.is_match(value)),
        Err(_) => None,
    }
}

} // verus!
