//! Splitting a command line into words with POSIX shell quoting rules.
use vstd::prelude::*;

use crate::error::EvaluatorError;

verus! {

/// The words that `shlex::split` makes of a line, or `None` where the line is
/// erroneous (an unclosed quote, a trailing backslash).
pub uninterp spec fn shlex_split(line: Seq<char>) -> Option<Seq<Seq<char>>>;

/// `shlex::split`: the line split into words by the POSIX shell's rules for
/// blanks, quotes and backslashes. The contract only names the outcome
/// (`shlex_split`); which words come out is left to the shlex crate.
#[verifier::external_body]
fn shlex_words(line: &str) -> (r: Option<Vec<String>>)
    ensures
        r.deep_view() == shlex_split(line@),
{
    shlex::split(line)
}

/// Splits a command line into words, with quoting; fails with `SplitError` on
/// a line that cannot be split.
pub fn split(command_raw: &str) -> (r: Result<Vec<String>, EvaluatorError>)
    ensures
        match shlex_split(command_raw@) {
            Some(words) => r matches Ok(v) && v.deep_view() == words,
            None => r matches Err(EvaluatorError::SplitError),
        },
{
    match shlex_words(command_raw) {
        Some(parts) => Ok(parts),
        None => Err(EvaluatorError::SplitError),
    }
}

} // verus!
