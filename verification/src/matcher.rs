//! The regular-expression engine of the `regex` crate, as far as a port
//! specification needs it. Nothing in this file is proved: the contracts here
//! are taken from the crate's documentation.

use vstd::prelude::*;

verus! {

/// The error with which `regex` refuses a pattern.
#[verifier::external_type_specification]
#[verifier::external_body]
pub struct ExRegexError(regex::Error);

/// Whether `regex::Regex::new` accepts `pattern`: its syntax is valid and the
/// program compiled from it stays within the default size limit.
pub uninterp spec fn regex_compiles(pattern: Seq<char>) -> bool;

/// What `regex::Regex::captures` reports when the regex compiled from
/// `pattern` is run on `haystack`: nothing where the pattern matches nowhere,
/// else the text of every capture group of the leftmost match, in the order of
/// the groups' opening parentheses and with the whole match as group zero. A
/// group that took no part in the match has no text.
pub uninterp spec fn regex_captures(pattern: Seq<char>, haystack: Seq<char>) -> Option<
    Seq<Option<Seq<char>>>,
>;

/// Compiles `pattern` with `regex::Regex::new` and runs `regex::Regex::captures`
/// on `haystack`.
///
/// A pattern that the engine refuses gives its error, and no other pattern
/// does. Where the pattern compiles, the groups handed back are the texts of
/// `regex::Captures::iter`, which are a function of the pattern and the
/// haystack alone.
#[verifier::external_body]
pub(crate) fn captures(pattern: &str, haystack: &str) -> (found: Result<
    Option<Vec<Option<String>>>,
    regex::Error,
>)
    ensures
        found is Ok <==> regex_compiles(pattern@),
        found matches Ok(groups) ==> groups.deep_view() == regex_captures(pattern@, haystack@),
{
    let regex = regex::Regex::new(pattern)?;
    Ok(
        regex.captures(haystack).map(
            |caps| caps.iter().map(|group| group.map(|m| m.as_str().to_string())).collect(),
        ),
    )
}

} // verus!
