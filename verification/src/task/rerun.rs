//! What a second pass finds after a first: the names that a plan gives are
//! read back as the episodes they were given for, so nothing moves twice.

use crate::ordered::{lemma_lookup_at, lemma_lookup_some, lookup};
use crate::parser::episode::{
    episode_token, extension_of, has_season_episode, lemma_extension_has_no_dot, lemma_number_at,
    lemma_token_numbers, numbers_in, season_episode_at, stem_of,
};
use crate::parser::{file_type_of, EpisodeToken};
use crate::task::alist::{joined, FileView};
use crate::task::episodes::{
    bucket_for, buckets_of, episode_file, file_for, file_key, filed_under, lemma_buckets_hold,
    lemma_buckets_hold_last, lemma_buckets_wf, Bucket,
};
use crate::task::plan::{
    action_for, dest_file_name, lemma_plan_empty, lemma_plan_moves_the_missing, plan_actions,
    MoveActionView,
};
use crate::text::{
    all_digits, decimal_value, holds_char, is_digit, last_where, lemma_last_where,
    lemma_last_where_is, lemma_padded_reads_back, lower_char, lowered, padded_text,
};
use vstd::prelude::*;

verus! {

/// A stem that ends in a mark: `show`, then `.S`, the digits `s`, `.E` and
/// the digits `e`.
pub open spec fn marked(show: Seq<char>, s: Seq<char>, e: Seq<char>) -> Seq<char> {
    show + seq!['.', 'S'] + s + seq!['.', 'E'] + e
}

/// Where the parts of a marked stem stand.
pub proof fn lemma_marked_layout(show: Seq<char>, s: Seq<char>, e: Seq<char>)
    ensures
        ({
            let m = marked(show, s, e);
            let a = show.len() as int;
            let y = a + 2 + s.len();
            &&& m.len() == y + 2 + e.len()
            &&& m[a] == '.'
            &&& m[a + 1] == 'S'
            &&& m[y] == '.'
            &&& m[y + 1] == 'E'
            &&& m.subrange(a + 2, y) == s
            &&& m.subrange(y + 2, y + 2 + e.len()) == e
            &&& forall|j: int| a + 2 <= j < y ==> #[trigger] m[j] == s[j - a - 2]
            &&& forall|j: int| y + 2 <= j < m.len() ==> #[trigger] m[j] == e[j - y - 2]
        }),
{
    let m = marked(show, s, e);
    let a = show.len() as int;
    let y = a + 2 + s.len();
    let front = show + seq!['.', 'S'] + s;
    assert(m == front + seq!['.', 'E'] + e);
    assert(front.len() == y);
    assert(m.subrange(a + 2, y) =~= s);
    assert(m.subrange(y + 2, y + 2 + e.len()) =~= e);
}

/// The mark at the end of a marked stem gives the numbers that its digits
/// write.
pub proof fn lemma_marked_reads(show: Seq<char>, s: Seq<char>, e: Seq<char>)
    requires
        s.len() > 0,
        e.len() > 0,
        all_digits(s),
        all_digits(e),
        decimal_value(s) <= i32::MAX,
        decimal_value(e) <= i32::MAX,
    ensures
        season_episode_at(marked(show, s, e), show.len() as int + 1) == Some(
            (decimal_value(s) as int, decimal_value(e) as int),
        ),
{
    let m = marked(show, s, e);
    let a = show.len() as int;
    let y = a + 2 + s.len();
    lemma_marked_layout(show, s, e);
    lemma_number_at(m, a + 2, s);
    lemma_number_at(m, y + 2, e);
}

/// No mark with a season starts after the one at the end of a marked stem.
pub proof fn lemma_marked_is_last(show: Seq<char>, s: Seq<char>, e: Seq<char>)
    requires
        all_digits(s),
        all_digits(e),
    ensures
        forall|j: int|
            show.len() + 1 < j < marked(show, s, e).len() ==> !#[trigger] has_season_episode(
                marked(show, s, e),
            )(j),
{
    let m = marked(show, s, e);
    let a = show.len() as int;
    let y = a + 2 + s.len();
    lemma_marked_layout(show, s, e);
    assert forall|j: int| a + 1 < j < m.len() implies !#[trigger] has_season_episode(m)(j) by {
        if j < y {
            assert(m[j] == s[j - a - 2]);
            assert(is_digit(s[j - a - 2]));
        } else if j >= y + 2 {
            assert(m[j] == e[j - y - 2]);
            assert(is_digit(e[j - y - 2]));
        }
        assert(lower_char(m[j]) != 's');
    }
}

/// A marked stem gives the season and episode of the mark at its end.
pub proof fn lemma_marked_numbers(show: Seq<char>, s: Seq<char>, e: Seq<char>)
    requires
        s.len() > 0,
        e.len() > 0,
        all_digits(s),
        all_digits(e),
        decimal_value(s) <= i32::MAX,
        decimal_value(e) <= i32::MAX,
    ensures
        numbers_in(marked(show, s, e)) == (
            Some(decimal_value(s) as int),
            Some(decimal_value(e) as int),
        ),
{
    let m = marked(show, s, e);
    lemma_marked_reads(show, s, e);
    lemma_marked_is_last(show, s, e);
    lemma_marked_layout(show, s, e);
    let mark = has_season_episode(m);
    assert(mark(show.len() as int + 1));
    lemma_last_where_is(m.len() as int, mark, show.len() as int + 1);
}

/// The library's name for an episode's file is a marked stem, a dot and the
/// extension.
pub proof fn lemma_dest_name_parts(
    show: Seq<char>,
    season: int,
    episode: int,
    extension: Seq<char>,
)
    ensures
        dest_file_name(show, season, episode, extension) == marked(
            show,
            padded_text(season),
            padded_text(episode),
        ) + seq!['.'] + extension,
{
    reveal_strlit(".S");
    reveal_strlit(".E");
    reveal_strlit(".");
    assert(".S"@ =~= seq!['.', 'S']);
    assert(".E"@ =~= seq!['.', 'E']);
    assert("."@ =~= seq!['.']);
}

/// A name made of a stem, a dot and an extension without dots splits into
/// the two.
pub proof fn lemma_splits_at_last_dot(stem: Seq<char>, extension: Seq<char>)
    requires
        forall|i: int| 0 <= i < extension.len() ==> extension[i] != '.',
    ensures
        stem_of(stem + seq!['.'] + extension) == stem,
        extension_of(stem + seq!['.'] + extension) == Some(extension),
{
    let name = stem + seq!['.'] + extension;
    let d = stem.len() as int;
    let dot = holds_char(name, '.');
    assert(dot(d));
    assert forall|j: int| d < j < name.len() implies !#[trigger] dot(j) by {
        assert(name[j] == extension[j - d - 1]);
    }
    lemma_last_where_is(name.len() as int, dot, d);
    assert(name.subrange(0, d) =~= stem);
    assert(name.subrange(d + 1, name.len() as int) =~= extension);
}

/// The name that the library gives an episode's file says the season and
/// episode that it was given for, and keeps the extension.
pub proof fn lemma_dest_name_reads_back(
    show: Seq<char>,
    season: int,
    episode: int,
    extension: Seq<char>,
)
    requires
        0 <= season <= i32::MAX,
        0 <= episode <= i32::MAX,
        forall|i: int| 0 <= i < extension.len() ==> extension[i] != '.',
    ensures
        episode_token(dest_file_name(show, season, episode, extension)) == (EpisodeToken {
            file_type: file_type_of(lowered(extension)),
            extension: Some(extension),
            season: Some(season),
            episode: Some(episode),
        }),
{
    let ps = padded_text(season);
    let pe = padded_text(episode);
    lemma_padded_reads_back(season);
    lemma_padded_reads_back(episode);
    lemma_dest_name_parts(show, season, episode, extension);
    lemma_splits_at_last_dot(marked(show, ps, pe), extension);
    lemma_marked_numbers(show, ps, pe);
}

/// The entries that the store lists for the files that a plan's actions
/// moved: each under its new name in the season's directory.
pub open spec fn landed(actions: Seq<MoveActionView>) -> Seq<FileView> {
    actions.map_values(
        |a: MoveActionView|
            FileView {
                name: a.dest_file_name,
                path: joined(a.dest_dir, a.dest_file_name),
                is_dir: false,
            },
    )
}

/// Each entry of a season's bucket stands for an entry of the listing that
/// is filed under the season and the bucket entry's episode.
pub proof fn lemma_bucket_entry_is_filed(
    files: Seq<FileView>,
    fallback: Option<int>,
    season: int,
    j: int,
)
    requires
        0 <= j < bucket_for(buckets_of(files, fallback), season).len(),
    ensures
        ({
            let entry = bucket_for(buckets_of(files, fallback), season)[j];
            exists|i: int|
                0 <= i < files.len() && #[trigger] file_key(files[i], fallback) == Some(
                    (season, entry.0),
                ) && entry.1 == episode_file(files[i])
        }),
{
    let all = buckets_of(files, fallback);
    let bucket = bucket_for(all, season);
    let entry = bucket[j];
    lemma_buckets_wf(files, fallback);
    assert(crate::ordered::ascending(bucket)) by {
        lemma_lookup_some(all, season);
        if lookup(all, season) is Some {
            let i = choose|i: int| 0 <= i < all.len() && (#[trigger] all[i]).0 == season;
            lemma_lookup_at(all, i);
        }
    }
    lemma_lookup_at(bucket, j);
    assert(file_for(all, season, entry.0) == Some(entry.1));
    lemma_buckets_hold_last(files, fallback, season, entry.0);
    let p = filed_under(files, fallback, season, entry.0);
    lemma_last_where(files.len() as int, p);
    let i = last_where(files.len() as int, p)->0;
    assert(p(i));
    assert(file_key(files[i], fallback) == Some((season, entry.0)));
}

/// Each action of a plan is the action for one entry of `incoming`.
pub proof fn lemma_plan_action_source(
    incoming: Bucket,
    existing: Bucket,
    show: Seq<char>,
    season: int,
    dest_dir: Seq<char>,
    i: int,
)
    requires
        0 <= i < plan_actions(incoming, existing, show, season, dest_dir).len(),
    ensures
        exists|j: int|
            0 <= j < incoming.len() && plan_actions(incoming, existing, show, season, dest_dir)[i]
                == action_for((#[trigger] incoming[j]).0, incoming[j].1, show, season, dest_dir),
    decreases incoming.len(),
{
    let front = incoming.drop_last();
    let rest = plan_actions(front, existing, show, season, dest_dir);
    if i < rest.len() {
        lemma_plan_action_source(front, existing, show, season, dest_dir, i);
        let j = choose|j: int|
            0 <= j < front.len() && rest[i] == action_for(
                (#[trigger] front[j]).0,
                front[j].1,
                show,
                season,
                dest_dir,
            );
        assert(incoming[j] == front[j]);
    } else {
        let j = incoming.len() - 1;
        assert(plan_actions(incoming, existing, show, season, dest_dir)[i] == action_for(
            incoming[j].0,
            incoming[j].1,
            show,
            season,
            dest_dir,
        ));
    }
}

/// Once the files of a season's plan lie in the season's directory under
/// the names that the plan gave them, the library holds every episode that
/// the source held for the season.
pub proof fn lemma_library_holds_what_was_planned(
    source: Seq<FileView>,
    fallback: Option<int>,
    dest: Seq<FileView>,
    show: Seq<char>,
    season: int,
    dest_dir: Seq<char>,
    episode: int,
)
    requires
        0 <= season <= i32::MAX,
        file_for(buckets_of(source, fallback), season, episode) is Some,
    ensures
        ({
            let incoming = bucket_for(buckets_of(source, fallback), season);
            let existing = bucket_for(buckets_of(dest, None), season);
            let first = plan_actions(incoming, existing, show, season, dest_dir);
            file_for(buckets_of(dest + landed(first), None), season, episode) is Some
        }),
{
    let incoming = bucket_for(buckets_of(source, fallback), season);
    let existing = bucket_for(buckets_of(dest, None), season);
    let first = plan_actions(incoming, existing, show, season, dest_dir);
    let after = dest + landed(first);
    lemma_buckets_hold(dest, None, season, episode);
    lemma_buckets_hold(after, None, season, episode);
    if lookup(existing, episode) is Some {
        let i = choose|i: int|
            0 <= i < dest.len() && #[trigger] file_key(dest[i], None) == Some((season, episode));
        assert(after[i] == dest[i]);
        assert(file_key(after[i], None) == Some((season, episode)));
    } else {
        lemma_lookup_some(incoming, episode);
        lemma_plan_moves_the_missing(incoming, existing, show, season, dest_dir, episode);
        let i = choose|i: int| 0 <= i < first.len() && (#[trigger] first[i]).episode_number == episode;
        lemma_plan_action_source(incoming, existing, show, season, dest_dir, i);
        let k = choose|k: int|
            0 <= k < incoming.len() && first[i] == action_for(
                (#[trigger] incoming[k]).0,
                incoming[k].1,
                show,
                season,
                dest_dir,
            );
        lemma_bucket_entry_is_filed(source, fallback, season, k);
        let f = choose|f: int|
            0 <= f < source.len() && #[trigger] file_key(source[f], fallback) == Some(
                (season, incoming[k].0),
            ) && incoming[k].1 == episode_file(source[f]);
        let name = source[f].name;
        let extension = incoming[k].1.extension;
        lemma_token_numbers(name);
        lemma_extension_has_no_dot(name);
        assert(extension_of(name) == Some(extension));
        lemma_dest_name_reads_back(show, season, episode, extension);
        let at = dest.len() + i;
        assert(after[at] == landed(first)[i]);
        assert(file_key(after[at], None) == Some((season, episode)));
    }
}

/// A second pass moves nothing. Once the files of a season's plan lie in
/// the season's directory under the names that the plan gave them, the plan
/// is empty for the same incoming files, and for any files of episodes that
/// were among them: for what the first pass left behind as for a source that
/// was filled again.
pub proof fn lemma_second_run_moves_nothing(
    source: Seq<FileView>,
    fallback: Option<int>,
    dest: Seq<FileView>,
    show: Seq<char>,
    season: int,
    dest_dir: Seq<char>,
    again: Bucket,
)
    requires
        0 <= season <= i32::MAX,
        forall|j: int|
            0 <= j < again.len() ==> file_for(
                buckets_of(source, fallback),
                season,
                (#[trigger] again[j]).0,
            ) is Some,
    ensures
        ({
            let incoming = bucket_for(buckets_of(source, fallback), season);
            let existing = bucket_for(buckets_of(dest, None), season);
            let first = plan_actions(incoming, existing, show, season, dest_dir);
            let existing_after = bucket_for(buckets_of(dest + landed(first), None), season);
            &&& plan_actions(incoming, existing_after, show, season, dest_dir) == Seq::<
                MoveActionView,
            >::empty()
            &&& plan_actions(again, existing_after, show, season, dest_dir) == Seq::<
                MoveActionView,
            >::empty()
        }),
{
    let incoming = bucket_for(buckets_of(source, fallback), season);
    let existing = bucket_for(buckets_of(dest, None), season);
    let first = plan_actions(incoming, existing, show, season, dest_dir);
    let existing_after = bucket_for(buckets_of(dest + landed(first), None), season);
    assert forall|j: int| 0 <= j < incoming.len() implies lookup(
        existing_after,
        (#[trigger] incoming[j]).0,
    ) is Some by {
        lemma_lookup_some(incoming, incoming[j].0);
        lemma_library_holds_what_was_planned(
            source,
            fallback,
            dest,
            show,
            season,
            dest_dir,
            incoming[j].0,
        );
    }
    assert forall|j: int| 0 <= j < again.len() implies lookup(
        existing_after,
        (#[trigger] again[j]).0,
    ) is Some by {
        lemma_library_holds_what_was_planned(
            source,
            fallback,
            dest,
            show,
            season,
            dest_dir,
            again[j].0,
        );
    }
    lemma_plan_empty(incoming, existing_after, show, season, dest_dir);
    lemma_plan_empty(again, existing_after, show, season, dest_dir);
}

} // verus!
