//! Compiled search patterns.
//!
//! A pattern is a `regex::Regex`. What is inside one is not looked at here:
//! a pattern stands for the set of texts in which it is found, and that set
//! is all that is asked of it. A pattern that is compiled here stands for the
//! set that its text stands for.

use regex::Regex;
use vstd::prelude::*;

verus! {

/// `regex::Regex`, a compiled pattern, taken as it is.
#[verifier::external_type_specification]
#[verifier::external_body]
pub struct ExRegex(regex::Regex);

/// `regex::Error`, why a pattern could not be compiled, taken as it is.
#[verifier::external_type_specification]
#[verifier::external_body]
pub struct ExPatternError(regex::Error);

/// The texts in which the pattern written `pattern` is found once it is
/// compiled; none, where it cannot be compiled.
pub uninterp spec fn pattern_texts(pattern: Seq<char>) -> Option<Set<Seq<char>>>;

/// The texts in which the compiled pattern `pattern` is found: those that
/// hold a match for it somewhere, not only those that match as a whole.
pub uninterp spec fn matched_texts(pattern: Regex) -> Set<Seq<char>>;

/// Searches `text` for the pattern, with `regex::Regex::is_match`.
///
/// Taken on trust: the call returns, and its answer depends on the compiled
/// pattern and on the text alone, so that it says whether the text is one of
/// `matched_texts`.
#[verifier::external_body]
pub(crate) fn found_in(pattern: &Regex, text: &str) -> (found: bool)
    ensures
        found == matched_texts(*pattern).contains(text@),
{
    pattern.is_match(text)
}

/// Compiles the pattern written `pattern`, with `regex::Regex::new`.
///
/// Taken on trust: the call returns, and whether the pattern can be compiled,
/// and in which texts it is then found, depends on its text alone.
#[verifier::external_body]
pub(crate) fn compile(pattern: &str) -> (r: Result<Regex, regex::Error>)
    ensures
        match r {
            Ok(compiled) => pattern_texts(pattern@) == Some(matched_texts(compiled)),
            Err(_) => pattern_texts(pattern@) is None,
        },
{
    Regex::new(pattern)
}

} // verus!
