//! Matching a text against a regular expression.

use crate::text::occurs_in;
use regex::Regex;
use vstd::prelude::*;

verus! {

/// What the first match of the regular expression `pattern` in `text`
/// captures: the text of each group in the order of their opening
/// parentheses, group 0 being the whole match, and `None` for a group that
/// took no part in the match. `None` as a whole where nothing in `text`
/// matches or `pattern` is no regular expression.
pub uninterp spec fn regex_captures(pattern: Seq<char>, text: Seq<char>) -> Option<
    Seq<Option<Seq<char>>>,
>;

/// The text of a group.
pub open spec fn group_text(g: Option<String>) -> Option<Seq<char>> {
    match g {
        Some(s) => Some(s@),
        None => None,
    }
}

/// The texts of the groups of a match.
pub open spec fn groups_of(g: Option<Vec<Option<String>>>) -> Option<Seq<Option<Seq<char>>>> {
    match g {
        Some(v) => Some(v@.map_values(|x: Option<String>| group_text(x))),
        None => None,
    }
}

/// Whether each group of a match is a part of `text`.
pub open spec fn groups_lie_in(groups: Option<Seq<Option<Seq<char>>>>, text: Seq<char>) -> bool {
    match groups {
        Some(g) => forall|i: int|
            0 <= i < g.len() ==> match #[trigger] g[i] {
                Some(part) => occurs_in(text, part),
                None => true,
            },
        None => true,
    }
}

/// Compiles `pattern` with `regex::Regex::new` and searches `text` with
/// `Regex::captures`. Nothing is proved of the search: its result is what
/// [`regex_captures`] names, the groups copied out as owned texts. What is
/// taken from the crate beside it is that a group's text is a slice of the
/// text that was searched.
#[verifier::external_body]
pub(crate) fn captures(pattern: &str, text: &str) -> (r: Option<Vec<Option<String>>>)
    ensures
        groups_of(r) == regex_captures(pattern@, text@),
        groups_lie_in(groups_of(r), text@),
{
    match Regex::new(pattern) {
        Ok(re) => re.captures(text).map(
            |found| found.iter().map(|group| group.map(|m| m.as_str().to_string())).collect(),
        ),
        Err(_) => None,
    }
}

} // verus!
