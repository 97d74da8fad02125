//! Regular expressions of externals, as the `regress` engine reads them.

use vstd::prelude::*;

verus! {

/// What the engine makes of a pattern and a text: `None` where the pattern
/// with its flags is not a regular expression, else whether the expression
/// matches somewhere in the text.
pub uninterp spec fn pattern_outcome(source: Seq<char>, flags: Seq<char>, text: Seq<char>) -> Option<bool>;

/// Whether `source` with `flags` is a regular expression.
pub open spec fn pattern_is_valid(source: Seq<char>, flags: Seq<char>) -> bool {
    pattern_outcome(source, flags, Seq::empty()) is Some
}

/// Whether `source` with `flags` is a regular expression that matches
/// somewhere in `text`.
pub open spec fn pattern_matches(source: Seq<char>, flags: Seq<char>, text: Seq<char>) -> bool {
    pattern_outcome(source, flags, text) == Some(true)
}

/// Compiles `source` with `flags` by `regress::Regex::with_flags` and searches
/// `text` with `regress::Regex::find`.
///
/// Trusted: the answer is a function of the three texts, named
/// `pattern_outcome`. It is `None` exactly where compilation fails, which
/// the text searched has no part in, and else tells whether a match was
/// found.
#[verifier::external_body]
pub(crate) fn test_pattern(source: &str, flags: &str, text: &str) -> (outcome: Option<bool>)
    ensures
        outcome == pattern_outcome(source@, flags@, text@),
        outcome is Some <==> pattern_is_valid(source@, flags@),
{
    match regress::Regex::with_flags(source, flags) {
        Ok(regex) => Some(regex.find(text).is_some()),
        Err(_) => None,
    }
}

} // verus!
