//! Searching a text for a regular expression.
//!
//! The search itself is the `regex` crate's. What it finds is not restated
//! here: the contracts speak of it under two names, [`pattern_compiles`] and
//! [`first_match`], and everything that is made of a match is proved from
//! those.

use vstd::prelude::*;

verus! {

/// The error with which the `regex` crate refuses a pattern.
#[verifier::external_type_specification]
#[verifier::external_body]
pub struct ExPatternError(regex::Error);

/// Whether `regex::Regex::new` accepts the pattern.
pub uninterp spec fn pattern_compiles(pattern: Seq<char>) -> bool;

/// What `regex::Regex::captures` finds of the pattern in the text: nothing
/// where the pattern matches nowhere; else, of the leftmost match, the part
/// of the text that each group matched, or `None` for a group that took no
/// part in the match. Group zero is the whole match; the others are counted
/// by their opening brackets.
pub uninterp spec fn first_match(pattern: Seq<char>, text: Seq<char>) -> Option<
    Seq<Option<Seq<char>>>,
>;

/// The groups of a match as sequences of characters.
pub open spec fn groups_view(groups: Seq<Option<String>>) -> Seq<Option<Seq<char>>> {
    groups.map_values(
        |group: Option<String>|
            match group {
                Some(part) => Some(part@),
                None => None,
            },
    )
}

/// A match, or none, as sequences of characters.
pub open spec fn match_view(found: Option<Vec<Option<String>>>) -> Option<Seq<Option<Seq<char>>>> {
    match found {
        Some(groups) => Some(groups_view(groups@)),
        None => None,
    }
}

/// Compiles the pattern with `regex::Regex::new` and searches the text with
/// `regex::Regex::captures`. Fails exactly where the pattern is refused.
/// Where it is accepted, the result is the leftmost match with the text of
/// each of its groups, as `regex::Captures::iter` hands them out.
#[verifier::external_body]
pub(crate) fn search(pattern: &str, text: &str) -> (found: Result<
    Option<Vec<Option<String>>>,
    regex::Error,
>)
    ensures
        found is Ok <==> pattern_compiles(pattern@),
        found matches Ok(groups) ==> match_view(groups) == first_match(pattern@, text@),
{
    let compiled = regex::Regex::new(pattern)?;
    Ok(
        compiled.captures(text).map(
            |groups| groups.iter().map(|part| part.map(|m| m.as_str().to_string())).collect(),
        ),
    )
}

/// The text of the group with the given number in a match, if there is a
/// match, it has such a group, and the group took part.
pub open spec fn group_text(found: Option<Seq<Option<Seq<char>>>>, number: int) -> Option<
    Seq<char>,
> {
    match found {
        Some(groups) => if 0 <= number < groups.len() {
            groups[number]
        } else {
            None
        },
        None => None,
    }
}

/// The text of the group with the given number in a match.
pub fn group(found: &Option<Vec<Option<String>>>, number: usize) -> (text: Option<&String>)
    ensures
        text is Some <==> group_text(match_view(*found), number as int) is Some,
        text matches Some(part) ==> group_text(match_view(*found), number as int) == Some(part@),
{
    match found {
        Some(groups) => {
            if number < groups.len() {
                match &groups[number] {
                    Some(part) => Some(part),
                    None => None,
                }
            } else {
                None
            }
        },
        None => None,
    }
}

} // verus!
