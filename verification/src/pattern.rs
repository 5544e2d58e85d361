//! Regular expressions, by the `regex` crate. Nothing in this file is
//! proved: what a pattern matches is what `regex` says it matches.

use regex::Regex;
use vstd::prelude::*;

verus! {

/// Whether `Regex::new` accepts this pattern.
pub uninterp spec fn regex_compiles(pattern: Seq<char>) -> bool;

/// Whether the regular expression compiled from `pattern` has a match
/// anywhere in `text`: what `Regex::is_match` answers.
pub uninterp spec fn regex_matches(pattern: Seq<char>, text: Seq<char>) -> bool;

/// `Regex::new` on `pattern`, then `Regex::is_match` of the compiled
/// expression on `text`; `None` where `Regex::new` refuses the pattern.
#[verifier::external_body]
pub(crate) fn search(pattern: &str, text: &str) -> (found: Option<bool>)
    ensures
        found is Some <==> regex_compiles(pattern@),
        found matches Some(hit) ==> hit == regex_matches(pattern@, text@),
{
    match Regex::new(pattern) {
        Ok(expression) => Some(expression.is_match(text)),
        Err(_) => None,
    }
}

} // verus!
