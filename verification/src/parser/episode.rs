//! The grammar of season and episode marks in a file name.
//!
//! A name is split at its last dot into a stem and an extension. In the stem
//! a mark starts a word: it stands at the beginning or after a character
//! that is neither a letter nor a digit. Letters match without regard to
//! case, and a number is a whole run of digits.
//!
//! - `S<number>E<number>` gives season and episode; one of `.`, ` `, `_`, `-`
//!   may stand between the season's number and the `E`.
//! - `<number>x<number>` gives season and episode too, where the season has
//!   one or two digits and the episode two or three: `1x02`, and not
//!   `1920x1080`.
//! - `E<number>` or `EP<number>` gives the episode alone.
//!
//! The last mark of the first form decides; where there is none, the last
//! mark of the second form; and only where there is none of either, the last
//! mark of the third form.

use crate::parser::{classify, file_type_of, EpisodeInfo, EpisodeToken, FileType};
use crate::text::{
    all_digits, chars_of, digit, find_last, is_digit, last_index_of, last_where, lemma_last_where,
    lower_char, lower_slice, lowered, number_of, read_number, slice_of, to_lower,
};
use vstd::prelude::*;

verus! {

/// Whether `c` is an ASCII letter or digit.
pub open spec fn is_word_char(c: char) -> bool {
    let n = c as u32;
    0x30 <= n <= 0x39 || 0x41 <= n <= 0x5a || 0x61 <= n <= 0x7a
}

/// Whether a word may start at index `i` of `s`.
pub open spec fn starts_word(s: Seq<char>, i: int) -> bool {
    i == 0 || !is_word_char(s[i - 1])
}

/// Whether `c` may stand between a season's number and the episode's `E`.
pub open spec fn is_separator(c: char) -> bool {
    c == '.' || c == ' ' || c == '_' || c == '-'
}

/// Where the run of digits that starts at index `i` of `s` ends.
pub open spec fn digits_end(s: Seq<char>, i: int) -> int
    decreases s.len() - i,
{
    if 0 <= i < s.len() && is_digit(s[i]) {
        digits_end(s, i + 1)
    } else {
        i
    }
}

/// The number written by the run of digits at index `i` of `s`, and where the
/// run ends.
pub open spec fn number_at(s: Seq<char>, i: int) -> Option<(int, int)> {
    let j = digits_end(s, i);
    match number_of(s.subrange(i, j)) {
        Some(n) => Some((n, j)),
        None => None,
    }
}

/// The season and episode of a mark `S<number>E<number>` that starts at
/// index `i` of `s`.
pub open spec fn season_episode_at(s: Seq<char>, i: int) -> Option<(int, int)> {
    if 0 <= i < s.len() && starts_word(s, i) && lower_char(s[i]) == 's' {
        match number_at(s, i + 1) {
            Some((season, j)) => {
                let k = if j < s.len() && is_separator(s[j]) {
                    j + 1
                } else {
                    j
                };
                if k < s.len() && lower_char(s[k]) == 'e' {
                    match number_at(s, k + 1) {
                        Some((episode, _)) => Some((season, episode)),
                        None => None,
                    }
                } else {
                    None
                }
            },
            None => None,
        }
    } else {
        None
    }
}

/// The season and episode of a mark `<number>x<number>` that starts at
/// index `i` of `s`.
pub open spec fn crossed_at(s: Seq<char>, i: int) -> Option<(int, int)> {
    if 0 <= i < s.len() && starts_word(s, i) {
        match number_at(s, i) {
            Some((season, j)) => if j - i <= 2 && j < s.len() && lower_char(s[j]) == 'x' {
                match number_at(s, j + 1) {
                    Some((episode, k)) => if 2 <= k - (j + 1) <= 3 {
                        Some((season, episode))
                    } else {
                        None
                    },
                    None => None,
                }
            } else {
                None
            },
            None => None,
        }
    } else {
        None
    }
}

/// The episode of a mark `E<number>` or `EP<number>` that starts at index
/// `i` of `s`.
pub open spec fn episode_at(s: Seq<char>, i: int) -> Option<int> {
    if 0 <= i < s.len() && starts_word(s, i) && lower_char(s[i]) == 'e' {
        let k = if i + 1 < s.len() && lower_char(s[i + 1]) == 'p' {
            i + 2
        } else {
            i + 1
        };
        match number_at(s, k) {
            Some((episode, _)) => Some(episode),
            None => None,
        }
    } else {
        None
    }
}

/// The test "a mark with season and episode starts at index `i` of `s`".
pub open spec fn has_season_episode(s: Seq<char>) -> spec_fn(int) -> bool {
    |i: int| season_episode_at(s, i) is Some
}

/// The test "a mark `<number>x<number>` starts at index `i` of `s`".
pub open spec fn has_crossed(s: Seq<char>) -> spec_fn(int) -> bool {
    |i: int| crossed_at(s, i) is Some
}

/// The test "a mark with the episode alone starts at index `i` of `s`".
pub open spec fn has_episode(s: Seq<char>) -> spec_fn(int) -> bool {
    |i: int| episode_at(s, i) is Some
}

/// The season and the episode that the stem `s` gives.
pub open spec fn numbers_in(s: Seq<char>) -> (Option<int>, Option<int>) {
    match last_where(s.len() as int, has_season_episode(s)) {
        Some(i) => match season_episode_at(s, i) {
            Some((season, episode)) => (Some(season), Some(episode)),
            None => (None, None),
        },
        None => match last_where(s.len() as int, has_crossed(s)) {
            Some(i) => match crossed_at(s, i) {
                Some((season, episode)) => (Some(season), Some(episode)),
                None => (None, None),
            },
            None => match last_where(s.len() as int, has_episode(s)) {
                Some(i) => (None, episode_at(s, i)),
                None => (None, None),
            },
        },
    }
}

/// The part of `name` before its last dot: all of it where it has no dot.
pub open spec fn stem_of(name: Seq<char>) -> Seq<char> {
    match last_index_of(name, '.') {
        Some(d) => name.subrange(0, d),
        None => name,
    }
}

/// The part of `name` after its last dot, if it has a dot.
pub open spec fn extension_of(name: Seq<char>) -> Option<Seq<char>> {
    match last_index_of(name, '.') {
        Some(d) => Some(name.subrange(d + 1, name.len() as int)),
        None => None,
    }
}

/// What the file name `name` says.
pub open spec fn episode_token(name: Seq<char>) -> EpisodeToken {
    let numbers = numbers_in(stem_of(name));
    EpisodeToken {
        file_type: match extension_of(name) {
            Some(e) => file_type_of(lowered(e)),
            None => FileType::Unknown,
        },
        extension: extension_of(name),
        season: numbers.0,
        episode: numbers.1,
    }
}

/// A run of digits that stops at `y` ends at `y`.
pub proof fn lemma_digits_end_is(s: Seq<char>, x: int, y: int)
    requires
        0 <= x <= y <= s.len(),
        forall|j: int| x <= j < y ==> is_digit(#[trigger] s[j]),
        y == s.len() || !is_digit(s[y]),
    ensures
        digits_end(s, x) == y,
    decreases y - x,
{
    if x < y {
        assert(is_digit(s[x]));
        lemma_digits_end_is(s, x + 1, y);
    }
}

/// Where the digits `digits` stand at index `x` of `s` and no digit follows
/// them, the number at `x` is the one that they write.
pub proof fn lemma_number_at(s: Seq<char>, x: int, digits: Seq<char>)
    requires
        0 <= x,
        x + digits.len() <= s.len(),
        s.subrange(x, x + digits.len()) == digits,
        digits.len() > 0,
        all_digits(digits),
        crate::text::decimal_value(digits) <= i32::MAX,
        x + digits.len() == s.len() || !is_digit(s[x + digits.len()]),
    ensures
        number_at(s, x) == Some((crate::text::decimal_value(digits) as int, x + digits.len())),
{
    let y = x + digits.len();
    assert forall|j: int| x <= j < y implies is_digit(#[trigger] s[j]) by {
        assert(s[j] == digits[j - x]);
    }
    lemma_digits_end_is(s, x, y);
}

/// The numbers that a name gives are not negative and fit 32 bits.
pub proof fn lemma_token_numbers(name: Seq<char>)
    ensures
        episode_token(name).season matches Some(n) ==> 0 <= n <= i32::MAX,
        episode_token(name).episode matches Some(n) ==> 0 <= n <= i32::MAX,
{
    let s = stem_of(name);
    lemma_last_where(s.len() as int, has_season_episode(s));
    lemma_last_where(s.len() as int, has_crossed(s));
    lemma_last_where(s.len() as int, has_episode(s));
}

/// The extension that a name gives holds no dot.
pub proof fn lemma_extension_has_no_dot(name: Seq<char>)
    ensures
        extension_of(name) matches Some(e) ==> forall|i: int| 0 <= i < e.len() ==> e[i] != '.',
{
    let p = crate::text::holds_char(name, '.');
    lemma_last_where(name.len() as int, p);
    match last_index_of(name, '.') {
        Some(d) => {
            let e = name.subrange(d + 1, name.len() as int);
            assert forall|i: int| 0 <= i < e.len() implies e[i] != '.' by {
                assert(!p(d + 1 + i));
            }
        },
        None => {},
    }
}

/// Computes [`digits_end`].
fn scan_digits(v: &Vec<char>, i: usize) -> (j: usize)
    requires
        i <= v@.len(),
    ensures
        j == digits_end(v@, i as int),
        i <= j <= v@.len(),
{
    let mut j: usize = i;
    while j < v.len() && digit(v[j])
        invariant
            i <= j <= v@.len(),
            digits_end(v@, i as int) == digits_end(v@, j as int),
        decreases v@.len() - j,
    {
        j += 1;
    }
    j
}

/// Computes [`number_at`].
fn read_number_at(v: &Vec<char>, i: usize) -> (r: Option<(i32, usize)>)
    requires
        i <= v@.len(),
    ensures
        r matches Some((n, j)) ==> number_at(v@, i as int) == Some((n as int, j as int)) && i < j
            <= v@.len(),
        r is None ==> number_at(v@, i as int) is None,
{
    let j = scan_digits(v, i);
    match read_number(v, i, j) {
        Some(n) => Some((n, j)),
        None => None,
    }
}

/// Decides [`starts_word`].
fn word_starts(v: &Vec<char>, i: usize) -> (r: bool)
    requires
        i < v@.len(),
    ensures
        r == starts_word(v@, i as int),
{
    if i == 0 {
        return true;
    }
    let n: u32 = v[i - 1] as u32;
    !((0x30 <= n && n <= 0x39) || (0x41 <= n && n <= 0x5a) || (0x61 <= n && n <= 0x7a))
}

/// Computes [`season_episode_at`].
fn read_season_episode(v: &Vec<char>, i: usize) -> (r: Option<(i32, i32)>)
    requires
        i < v@.len(),
    ensures
        r matches Some((s, e)) ==> season_episode_at(v@, i as int) == Some((s as int, e as int)),
        r is None ==> season_episode_at(v@, i as int) is None,
{
    let n = v.len();
    if !word_starts(v, i) || to_lower(v[i]) != 's' {
        return None;
    }
    match read_number_at(v, i + 1) {
        Some((season, j)) => {
            let c = if j < v.len() {
                v[j]
            } else {
                'x'
            };
            let k = if j < v.len() && (c == '.' || c == ' ' || c == '_' || c == '-') {
                j + 1
            } else {
                j
            };
            if k < v.len() && to_lower(v[k]) == 'e' {
                match read_number_at(v, k + 1) {
                    Some((episode, _)) => Some((season, episode)),
                    None => None,
                }
            } else {
                None
            }
        },
        None => None,
    }
}

/// Computes [`crossed_at`].
fn read_crossed(v: &Vec<char>, i: usize) -> (r: Option<(i32, i32)>)
    requires
        i < v@.len(),
    ensures
        r matches Some((s, e)) ==> crossed_at(v@, i as int) == Some((s as int, e as int)),
        r is None ==> crossed_at(v@, i as int) is None,
{
    let n = v.len();
    if !word_starts(v, i) {
        return None;
    }
    match read_number_at(v, i) {
        Some((season, j)) => {
            if j - i <= 2 && j < n && to_lower(v[j]) == 'x' {
                match read_number_at(v, j + 1) {
                    Some((episode, k)) => if 2 <= k - (j + 1) && k - (j + 1) <= 3 {
                        Some((season, episode))
                    } else {
                        None
                    },
                    None => None,
                }
            } else {
                None
            }
        },
        None => None,
    }
}

/// Computes [`episode_at`].
fn read_episode(v: &Vec<char>, i: usize) -> (r: Option<i32>)
    requires
        i < v@.len(),
    ensures
        r matches Some(e) ==> episode_at(v@, i as int) == Some(e as int),
        r is None ==> episode_at(v@, i as int) is None,
{
    let n = v.len();
    if !word_starts(v, i) || to_lower(v[i]) != 'e' {
        return None;
    }
    let k = if i + 1 < n && to_lower(v[i + 1]) == 'p' {
        i + 2
    } else {
        i + 1
    };
    match read_number_at(v, k) {
        Some((episode, _)) => Some(episode),
        None => None,
    }
}

/// The integers of a pair of optional numbers.
pub open spec fn as_ints(p: (Option<i32>, Option<i32>)) -> (Option<int>, Option<int>) {
    (
        match p.0 {
            Some(n) => Some(n as int),
            None => None,
        },
        match p.1 {
            Some(n) => Some(n as int),
            None => None,
        },
    )
}

/// Reads the season and episode from the first `n` characters of `v`, which
/// are the stem of a name.
fn read_numbers(v: &Vec<char>, n: usize) -> (r: (Option<i32>, Option<i32>))
    requires
        n <= v@.len(),
    ensures
        as_ints(r) == numbers_in(v@.take(n as int)),
{
    let stem = take_chars(v, n);
    let ghost s = stem@;
    let mut i: usize = n;
    while i > 0
        invariant
            i <= n,
            n == stem@.len(),
            s == stem@,
            s == v@.take(n as int),
            last_where(n as int, has_season_episode(s)) == last_where(
                i as int,
                has_season_episode(s),
            ),
        decreases i,
    {
        match read_season_episode(&stem, i - 1) {
            Some((season, episode)) => {
                assert(has_season_episode(s)(i - 1));
                return (Some(season), Some(episode));
            },
            None => {
                assert(!has_season_episode(s)(i - 1));
            },
        }
        i -= 1;
    }
    let mut i: usize = n;
    while i > 0
        invariant
            i <= n,
            n == stem@.len(),
            s == stem@,
            s == v@.take(n as int),
            last_where(n as int, has_season_episode(s)) is None,
            last_where(n as int, has_crossed(s)) == last_where(i as int, has_crossed(s)),
        decreases i,
    {
        match read_crossed(&stem, i - 1) {
            Some((season, episode)) => {
                assert(has_crossed(s)(i - 1));
                return (Some(season), Some(episode));
            },
            None => {
                assert(!has_crossed(s)(i - 1));
            },
        }
        i -= 1;
    }
    let mut i: usize = n;
    while i > 0
        invariant
            i <= n,
            n == stem@.len(),
            s == stem@,
            s == v@.take(n as int),
            last_where(n as int, has_season_episode(s)) is None,
            last_where(n as int, has_crossed(s)) is None,
            last_where(n as int, has_episode(s)) == last_where(i as int, has_episode(s)),
        decreases i,
    {
        match read_episode(&stem, i - 1) {
            Some(episode) => {
                assert(has_episode(s)(i - 1));
                return (None, Some(episode));
            },
            None => {
                assert(!has_episode(s)(i - 1));
            },
        }
        i -= 1;
    }
    (None, None)
}

/// The first `n` characters of `v`.
fn take_chars(v: &Vec<char>, n: usize) -> (r: Vec<char>)
    requires
        n <= v@.len(),
    ensures
        r@ == v@.take(n as int),
{
    let mut r: Vec<char> = Vec::new();
    let mut i: usize = 0;
    while i < n
        invariant
            i <= n <= v@.len(),
            r@ == v@.take(i as int),
        decreases n - i,
    {
        r.push(v[i]);
        proof {
            assert(v@.take(i + 1) =~= v@.take(i as int).push(v@[i as int]));
        }
        i += 1;
    }
    r
}

/// Reads what a file name says: the kind of file, the extension, and the
/// season and episode that the stem marks.
pub fn parse_episode(name: &str) -> (r: EpisodeInfo)
    ensures
        r@ == episode_token(name@),
{
    let v = chars_of(name);
    match find_last(&v, '.') {
        Some(d) => {
            let numbers = read_numbers(&v, d);
            let ext = lower_slice(&v, d + 1, v.len());
            let r = EpisodeInfo {
                file_type: classify(&ext),
                extension: Some(slice_of(name, d + 1, v.len())),
                season_number: numbers.0,
                episode_number: numbers.1,
            };
            proof {
                assert(v@.take(d as int) =~= v@.subrange(0, d as int));
            }
            r
        },
        None => {
            let numbers = read_numbers(&v, v.len());
            proof {
                assert(v@.take(v@.len() as int) =~= v@);
            }
            EpisodeInfo {
                file_type: FileType::Unknown,
                extension: None,
                season_number: numbers.0,
                episode_number: numbers.1,
            }
        },
    }
}

impl vstd::std_specs::convert::FromSpecImpl<&str> for EpisodeInfo {
    /// What was read holds a text, which has no value but its view in
    /// contracts: what `from` gives is stated over views, on `from` itself.
    open spec fn obeys_from_spec() -> bool {
        false
    }

    open spec fn from_spec(name: &str) -> Self {
        arbitrary()
    }
}

impl From<&str> for EpisodeInfo {
    /// Reads what the file name `name` says.
    fn from(name: &str) -> (r: Self)
        ensures
            r@ == episode_token(name@),
    {
        parse_episode(name)
    }
}

} // verus!
