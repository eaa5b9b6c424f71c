//! What this crate takes from the `regex` crate.

use vstd::prelude::*;

verus! {

/// What the `regex` crate finds of `pattern` in `text`: `None` where
/// `Regex::new` turns the pattern down or `Regex::captures` finds no match;
/// else, for each capture group of the leftmost match, the whole match first,
/// the text that the group matched, or `None` for a group that took no part.
pub uninterp spec fn regex_captures(pattern: Seq<char>, text: Seq<char>) -> Option<
    Seq<Option<Seq<char>>>,
>;

/// The texts that capture groups matched, as sequences of characters.
pub open spec fn groups_of(found: Option<Vec<Option<String>>>) -> Option<Seq<Option<Seq<char>>>> {
    match found {
        Some(groups) => Some(
            groups@.map_values(
                |group: Option<String>|
                    match group {
                        Some(text) => Some(text@),
                        None => None,
                    },
            ),
        ),
        None => None,
    }
}

/// Calls `Regex::new` on `pattern`, `Regex::captures` on `text`, and
/// `Captures::iter` to copy what each group matched. All of it depends on
/// the two texts alone, so the contract gives the result the name
/// `regex_captures`; it claims nothing of what a pattern matches.
#[verifier::external_body]
pub(crate) fn captures(pattern: &str, text: &str) -> (found: Option<Vec<Option<String>>>)
    ensures
        groups_of(found) == regex_captures(pattern@, text@),
{
    let expression = regex::Regex::new(pattern).ok()?;
    let groups = expression.captures(text)?;
    Some(groups.iter().map(|group| group.map(|matched| matched.as_str().to_string())).collect())
}

} // verus!
