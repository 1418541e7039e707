//! The boundary to the `regex` crate.
//!
//! Everything the router knows about regular expressions it knows through
//! the contracts in this module: compiled patterns and pattern sets are
//! opaque values, and what compiling, matching and capturing return is
//! described over a handful of named spec functions.

use vstd::prelude::*;

use regex::Error as RegexError;
use regex::{Regex, RegexSet};

verus! {

#[verifier::external_type_specification]
#[verifier::external_body]
pub struct ExRegex(Regex);

#[verifier::external_type_specification]
#[verifier::external_body]
pub struct ExRegexSet(RegexSet);

#[verifier::external_type_specification]
#[verifier::external_body]
pub struct ExRegexError(RegexError);

/// Whether `Regex::new` accepts this pattern source: the pattern is a valid
/// regular expression and compiles within the default size limit.
pub uninterp spec fn pattern_ok(pat: Seq<char>) -> bool;

/// Whether `RegexSet::new` accepts this list of pattern sources as one
/// combined matcher.
pub uninterp spec fn combined_ok(pats: Seq<Seq<char>>) -> bool;

/// Whether the regular expression denoted by `pat` matches somewhere in
/// `text`.
pub uninterp spec fn pattern_matches(pat: Seq<char>, text: Seq<char>) -> bool;

/// The capture groups of the first match of `pat` in `text`: the full match
/// at position 0, then one entry per capturing group in order of its opening
/// parenthesis, present exactly when that group participated in the match.
pub uninterp spec fn match_groups(pat: Seq<char>, text: Seq<char>) -> Seq<Option<Seq<char>>>;

/// The pattern source a compiled `Regex` was built from.
pub uninterp spec fn source_of(re: Regex) -> Seq<char>;

/// The pattern sources a compiled `RegexSet` was built from, in order.
pub uninterp spec fn sources_of(set: RegexSet) -> Seq<Seq<char>>;

/// Relies on `regex::Regex::new`: it returns `Ok` exactly when the pattern
/// is a valid regular expression within the default size limit, and the
/// compiled regex then denotes that pattern.
#[verifier::external_body]
pub(crate) fn compile_pattern(pat: &str) -> (r: Result<Regex, regex::Error>)
    ensures
        r is Ok <==> pattern_ok(pat@),
        r is Ok ==> source_of(r->Ok_0) == pat@,
{
    Regex::new(pat)
}

/// Relies on `regex::RegexSet::new`: it returns `Ok` exactly when the given
/// patterns build into one combined matcher, the set then holds those
/// patterns in order, and an empty list always builds.
#[verifier::external_body]
pub(crate) fn compile_combined(pats: &Vec<String>) -> (r: Result<RegexSet, regex::Error>)
    ensures
        r is Ok <==> combined_ok(pats.deep_view()),
        r is Ok ==> sources_of(r->Ok_0) == pats.deep_view(),
        pats@.len() == 0 ==> r is Ok,
{
    RegexSet::new(pats.iter())
}

/// Relies on `regex::RegexSet::matches` and `SetMatches` iteration: the
/// result holds the indices of exactly those patterns in the set that match
/// the text, in ascending order; the set reports a pattern as matched
/// exactly when the pattern itself matches the text.
#[verifier::external_body]
pub(crate) fn matched_indices(set: &RegexSet, text: &str) -> (r: Vec<usize>)
    ensures
        forall|k: int, l: int| 0 <= k < l < r@.len() ==> r@[k] < r@[l],
        forall|k: int|
            0 <= k < r@.len() ==> r@[k] < sources_of(*set).len() && pattern_matches(
                sources_of(*set)[r@[k] as int],
                text@,
            ),
        forall|j: int|
            0 <= j < sources_of(*set).len() && #[trigger] pattern_matches(
                sources_of(*set)[j],
                text@,
            ) ==> exists|k: int| 0 <= k < r@.len() && r@[k] == j,
{
    set.matches(text).into_iter().collect()
}

/// Relies on `regex::Regex::captures` and `Captures::iter`: the result is
/// `Some` exactly when the pattern matches the text, and then holds the text
/// of each capture group of the first match, the full match first; group 0
/// of a match is always present.
#[verifier::external_body]
pub(crate) fn capture_texts(re: &Regex, text: &str) -> (r: Option<Vec<Option<String>>>)
    ensures
        r is Some <==> pattern_matches(source_of(*re), text@),
        r is Some ==> r->Some_0.deep_view() == match_groups(source_of(*re), text@),
        r is Some ==> match_groups(source_of(*re), text@).len() >= 1 && match_groups(
            source_of(*re),
            text@,
        )[0] is Some,
{
    match re.captures(text) {
        Some(caps) => Some(
            caps.iter().map(|m| m.map(|group| group.as_str().to_string())).collect(),
        ),
        None => None,
    }
}

/// Relies on the `Display` implementation of `regex::Error` for a
/// human-readable description of a compilation failure.
#[verifier::external_body]
pub(crate) fn error_text(e: &regex::Error) -> String {
    format!("{}", e)
}

} // verus!
