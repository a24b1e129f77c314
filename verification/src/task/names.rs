//! What the name of a directory says: the show and its year, or a season.

use crate::pattern::{captures, groups_lie_in, groups_of, regex_captures};
use crate::text::{
    chars_of, is_trim, lemma_occurs_in_part, lemma_trimmed, number_of, occurs_in, read_number,
    trim, trimmed,
};
use vstd::prelude::*;

verus! {

/// The regular expression for the name of a show's directory: a title, and
/// after it, if it is there, a year of four digits in round brackets, ASCII
/// or full-width.
pub open spec fn show_pattern() -> Seq<char> {
    "([^\\(\u{ff08}]+)\\s*([\\(\u{ff08}]\\s*(\\d{4})\\s*[\\)\u{ff09}])?"@
}

/// The regular expression for a season's mark, whatever the case: an `S`,
/// `Season` or `Seasons`, white space if any, and one to three digits.
pub open spec fn season_pattern() -> Seq<char> {
    "(?i)S(easons?)?\\s*(\\d{1,3})"@
}

/// The group at place `i` of a match, if the match has it and it took part.
pub open spec fn group_at(groups: Option<Seq<Option<Seq<char>>>>, i: int) -> Option<Seq<char>> {
    match groups {
        Some(g) => if 0 <= i < g.len() {
            g[i]
        } else {
            None
        },
        None => None,
    }
}

/// The title and year that the name of a show's directory gives, from what
/// [`show_pattern`] captured in it. The title is the first group without the
/// white space at its ends, white space inside it kept as it is; where
/// nothing was captured, it is the whole name, trimmed. The year is the
/// number that the third group writes in ASCII digits.
pub open spec fn show_identity_of(name: Seq<char>, groups: Option<Seq<Option<Seq<char>>>>) -> (
    Seq<char>,
    Option<int>,
) {
    match group_at(groups, 1) {
        Some(title) => (
            trimmed(title),
            match group_at(groups, 3) {
                Some(year) => number_of(year),
                None => None,
            },
        ),
        None => (trimmed(name), None),
    }
}

/// The season that a name gives, from what [`season_pattern`] captured in
/// it: the number that the second group writes in ASCII digits.
pub open spec fn season_of(groups: Option<Seq<Option<Seq<char>>>>) -> Option<int> {
    match group_at(groups, 2) {
        Some(digits) => number_of(digits),
        None => None,
    }
}

/// A title and a year as plain values.
pub open spec fn identity_view(r: (String, Option<i32>)) -> (Seq<char>, Option<int>) {
    (
        r.0@,
        match r.1 {
            Some(y) => Some(y as int),
            None => None,
        },
    )
}

/// Picks the group at place `i`.
fn pick(groups: &Option<Vec<Option<String>>>, i: usize) -> (r: Option<&String>)
    ensures
        match r {
            Some(s) => group_at(groups_of(*groups), i as int) == Some(s@),
            None => group_at(groups_of(*groups), i as int) is None,
        },
{
    match groups {
        Some(v) => if i < v.len() {
            match &v[i] {
                Some(s) => Some(s),
                None => None,
            }
        } else {
            None
        },
        None => None,
    }
}

/// Reads the number that `digits` writes.
fn number(digits: &str) -> (r: Option<i32>)
    ensures
        match r {
            Some(n) => number_of(digits@) == Some(n as int),
            None => number_of(digits@) is None,
        },
{
    let v = chars_of(digits);
    proof {
        assert(v@.subrange(0, v@.len() as int) =~= v@);
    }
    read_number(&v, 0, v.len())
}

/// Computes [`show_identity_of`] from the groups of a match.
pub fn show_identity(name: &str, groups: Option<Vec<Option<String>>>) -> (r: (String, Option<i32>))
    ensures
        identity_view(r) == show_identity_of(name@, groups_of(groups)),
{
    match pick(&groups, 1) {
        Some(title) => {
            let year = match pick(&groups, 3) {
                Some(y) => number(y.as_str()),
                None => None,
            };
            (trim(title.as_str()), year)
        },
        None => (trim(name), None),
    }
}

/// Computes [`season_of`] from the groups of a match.
pub fn season_number(groups: Option<Vec<Option<String>>>) -> (r: Option<i32>)
    ensures
        match r {
            Some(n) => season_of(groups_of(groups)) == Some(n as int),
            None => season_of(groups_of(groups)) is None,
        },
{
    match pick(&groups, 2) {
        Some(digits) => number(digits.as_str()),
        None => None,
    }
}

/// Whether some part of `text` is a run of digits that writes `n`.
pub open spec fn written_in(text: Seq<char>, n: int) -> bool {
    exists|digits: Seq<char>| #[trigger] occurs_in(text, digits) && number_of(digits) == Some(n)
}

/// Whatever a match captured in `name`, the title is a part of `name`
/// without white space at its ends, and a year is written in `name`.
pub proof fn lemma_identity_lies_in_name(name: Seq<char>, groups: Option<Seq<Option<Seq<char>>>>)
    requires
        groups_lie_in(groups, name),
    ensures
        occurs_in(name, show_identity_of(name, groups).0),
        is_trim(show_identity_of(name, groups).0),
        show_identity_of(name, groups).1 matches Some(year) ==> written_in(name, year),
{
    match group_at(groups, 1) {
        Some(title) => {
            lemma_trimmed(title);
            assert(occurs_in(name, title)) by {
                assert(groups->0[1] == Some(title));
            }
            lemma_occurs_in_part(name, title, trimmed(title));
            match group_at(groups, 3) {
                Some(year) => {
                    assert(occurs_in(name, year)) by {
                        assert(groups->0[3] == Some(year));
                    }
                },
                None => {},
            }
        },
        None => {
            lemma_trimmed(name);
        },
    }
}

/// Whatever a match captured in `name`, a season is written in `name`.
pub proof fn lemma_season_lies_in_name(name: Seq<char>, groups: Option<Seq<Option<Seq<char>>>>)
    requires
        groups_lie_in(groups, name),
    ensures
        season_of(groups) matches Some(season) ==> written_in(name, season),
{
    match group_at(groups, 2) {
        Some(digits) => {
            assert(occurs_in(name, digits)) by {
                assert(groups->0[2] == Some(digits));
            }
        },
        None => {},
    }
}

/// Reads the title and the year from the name of a show's directory, such as
/// `The Office (2005)`. What [`show_pattern`] captures in the name decides;
/// whatever it is, the title is a part of the name without white space at
/// its ends, and the year is written in the name in ASCII digits.
pub fn parse_tv_name(name: &str) -> (r: (String, Option<i32>))
    ensures
        identity_view(r) == show_identity_of(name@, regex_captures(show_pattern(), name@)),
        occurs_in(name@, r.0@),
        is_trim(r.0@),
        r.1 matches Some(year) ==> written_in(name@, year as int),
{
    let groups = captures(
        "([^\\(\u{ff08}]+)\\s*([\\(\u{ff08}]\\s*(\\d{4})\\s*[\\)\u{ff09}])?",
        name,
    );
    proof {
        lemma_identity_lies_in_name(name@, groups_of(groups));
    }
    show_identity(name, groups)
}

/// Reads the season from a name such as `Season 3` or `S03`. What
/// [`season_pattern`] captures in the name decides; whatever it is, the
/// season is written in the name in ASCII digits.
pub fn parse_season_number(name: &str) -> (r: Option<i32>)
    ensures
        match r {
            Some(n) => season_of(regex_captures(season_pattern(), name@)) == Some(n as int)
                && written_in(name@, n as int),
            None => season_of(regex_captures(season_pattern(), name@)) is None,
        },
{
    let groups = captures("(?i)S(easons?)?\\s*(\\d{1,3})", name);
    proof {
        lemma_season_lies_in_name(name@, groups_of(groups));
    }
    season_number(groups)
}

} // verus!
