//! Regular expressions, as the `regex` crate reads and runs them.
//!
//! Nothing here is proved: the two functions hand a pattern and a text to
//! `regex` and name what comes back.

use vstd::prelude::*;

verus! {

/// Whether `regex::Regex::new` accepts `pattern`: it is well formed and what
/// it compiles to stays under the crate's default size limit.
pub uninterp spec fn pattern_compiles(pattern: Seq<char>) -> bool;

/// What `regex::Regex::is_match` says of `text` for the regular expression
/// that `regex::Regex::new` makes of `pattern`: whether there is a match
/// anywhere in `text`. It says nothing of a pattern that does not compile.
pub uninterp spec fn pattern_found(pattern: Seq<char>, text: Seq<char>) -> bool;

/// Calls `regex::Regex::new` on `pattern` and says whether it returned `Ok`.
#[verifier::external_body]
pub(crate) fn compiles(pattern: &str) -> (ok: bool)
    ensures
        ok == pattern_compiles(pattern@),
{
    regex::Regex::new(pattern).is_ok()
}

/// Calls `regex::Regex::new` on `pattern` and, where that gave a regular
/// expression, `regex::Regex::is_match` on `text`. The result is `None`
/// exactly where the pattern does not compile, and else what `is_match`
/// returned: true if and only if there is a match anywhere in `text`.
#[verifier::external_body]
pub(crate) fn search(pattern: &str, text: &str) -> (hit: Option<bool>)
    ensures
        hit is Some <==> pattern_compiles(pattern@),
        hit matches Some(found) ==> found == pattern_found(pattern@, text@),
{
    match regex::Regex::new(pattern) {
        Ok(regex) => Some(regex.is_match(text)),
        Err(_) => None,
    }
}

} // verus!
