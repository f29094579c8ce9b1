//! Searching a text for a regular expression, which the `regex` crate does.

use regex::Regex;
use vstd::prelude::*;

verus! {

/// What a search of `haystack` for the regular expression `pattern` captures in
/// group `group`. By the documentation of the `regex` crate that is the text
/// that the group matched in the leftmost match, and nothing where the pattern
/// does not compile, where nothing matches, or where the group took no part in
/// the match. Of all this the library relies on one thing only: that the
/// outcome depends on the three arguments and on nothing else.
pub uninterp spec fn regex_capture(pattern: Seq<char>, haystack: Seq<char>, group: nat) -> Option<
    Seq<char>,
>;

/// The characters of a text that may be absent.
pub open spec fn text_of(found: Option<String>) -> Option<Seq<char>> {
    match found {
        Some(s) => Some(s@),
        None => None,
    }
}

/// Compiles `pattern` with `regex::Regex::new`, searches `haystack` with
/// `Regex::captures`, and copies out what `Captures::get` gives for `group`.
/// Nothing is proved of it: the contract only gives the outcome its name,
/// `regex_capture`, which says that it depends on the three arguments alone.
#[verifier::external_body]
pub(crate) fn capture(pattern: &str, haystack: &str, group: usize) -> (found: Option<String>)
    ensures
        text_of(found) == regex_capture(pattern@, haystack@, group as nat),
{
    let compiled = match Regex::new(pattern) {
        Ok(compiled) => compiled,
        Err(_) => return None,
    };
    match compiled.captures(haystack) {
        Some(groups) => match groups.get(group) {
            Some(found) => Some(found.as_str().to_owned()),
            None => None,
        },
        None => None,
    }
}

} // verus!
