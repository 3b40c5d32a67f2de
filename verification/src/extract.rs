//! Recovering a track identifier from the free text of a chat message.

use vstd::prelude::*;

verus! {

/// The token that names one track in the playlist service. Two identifiers
/// are the same track exactly when they are the same string.
pub type TrackIdentifier = String;

/// The pattern that recognises a shared track link. Group 1 holds what follows
/// the `track/` segment, up to the first whitespace character or `?`.
pub const TRACK_PATTERN: &'static str = "track/([^\\s?]*)";

/// The capture group that holds the identifier in [`TRACK_PATTERN`].
pub const IDENTIFIER_GROUP: usize = 1;

/// What the regex engine reports for capture group `group` of the leftmost
/// match of `pattern` in `haystack`: the matched text, or `None` when the
/// pattern does not compile, nothing matches, or the group took no part.
pub uninterp spec fn regex_group(pattern: Seq<char>, haystack: Seq<char>, group: nat) -> Option<
    Seq<char>,
>;

/// Compiles `pattern` with `regex::Regex::new`, searches `haystack` with
/// `Regex::captures` and reads capture group `group` with `Captures::get`.
///
/// Trusted: the result is the engine's answer, which is a function of the
/// three arguments alone and is named `regex_group`. Nothing else is claimed.
#[verifier::external_body]
fn leftmost_group(pattern: &str, haystack: &str, group: usize) -> (found: Option<String>)
    ensures
        found.deep_view() == regex_group(pattern@, haystack@, group as nat),
{
    let re = regex::Regex::new(pattern).ok()?;
    let caps = re.captures(haystack)?;
    caps.get(group).map(|m| m.as_str().to_string())
}

/// The identifier that a captured token stands for: the token itself, unless
/// nothing was captured or the capture is empty.
pub open spec fn accepted(candidate: Option<Seq<char>>) -> Option<Seq<char>> {
    match candidate {
        Some(token) => if token.len() > 0 {
            Some(token)
        } else {
            None
        },
        None => None,
    }
}

/// The identifier that a message text refers to, if any.
pub open spec fn extracted(text: Seq<char>) -> Option<Seq<char>> {
    accepted(regex_group(TRACK_PATTERN@, text, IDENTIFIER_GROUP as nat))
}

/// Turns what the pattern captured into an identifier. A link with nothing
/// after `track/` names no track.
pub fn accept_candidate(candidate: Option<String>) -> (id: Option<TrackIdentifier>)
    ensures
        id.deep_view() == accepted(candidate.deep_view()),
{
    match candidate {
        Some(token) => {
            if token.as_str().is_empty() {
                None
            } else {
                Some(token)
            }
        },
        None => None,
    }
}

/// Finds the first track link in `text` and returns its identifier.
pub fn extract(text: &str) -> (id: Option<TrackIdentifier>)
    ensures
        id.deep_view() == extracted(text@),
{
    accept_candidate(leftmost_group(TRACK_PATTERN, text, IDENTIFIER_GROUP))
}

} // verus!
