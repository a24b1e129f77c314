//! Which episodes of a season move to the library, and under which names.

use crate::ordered::{ascending, lookup};
use crate::task::episodes::{Bucket, EpisodeFileView, SeasonBucket};
use crate::text::{padded_text, write_padded};
use vstd::prelude::*;

verus! {

/// One file to move, as plain values.
pub struct MoveActionView {
    pub episode_number: int,
    pub source_path: Seq<char>,
    pub source_dir: Seq<char>,
    pub needs_rename: bool,
    pub dest_file_name: Seq<char>,
    pub dest_dir: Seq<char>,
}

/// One file to move: it is renamed where it lies, if its name is not the
/// library's, and then moved to the season's directory.
#[derive(Debug)]
pub struct MoveAction {
    pub episode_number: i32,
    /// The whole path of the file as it was found.
    pub source_path: String,
    /// The directory in which it was found.
    pub source_dir: String,
    /// Whether the file's name differs from `dest_file_name`.
    pub needs_rename: bool,
    /// The name that the file has in the library.
    pub dest_file_name: String,
    /// The season's directory in the library.
    pub dest_dir: String,
}

impl View for MoveAction {
    type V = MoveActionView;

    open spec fn view(&self) -> MoveActionView {
        MoveActionView {
            episode_number: self.episode_number as int,
            source_path: self.source_path@,
            source_dir: self.source_dir@,
            needs_rename: self.needs_rename,
            dest_file_name: self.dest_file_name@,
            dest_dir: self.dest_dir@,
        }
    }
}

/// What to do for one season: the files to move, in ascending order of
/// their episodes, and the numbers of those episodes.
#[derive(Debug)]
pub struct MovePlan {
    pub actions: Vec<MoveAction>,
    pub moved: Vec<i32>,
}

/// The views of a plan's actions.
pub open spec fn action_views(actions: Seq<MoveAction>) -> Seq<MoveActionView> {
    actions.map_values(|a: MoveAction| a@)
}

/// Numbers as integers.
pub open spec fn as_ints(numbers: Seq<i32>) -> Seq<int> {
    numbers.map_values(|n: i32| n as int)
}

/// The name of an episode's file in the library:
/// `{show}.S{season}.E{episode}.{extension}`, the two numbers written with
/// at least two digits.
pub open spec fn dest_file_name(
    show: Seq<char>,
    season: int,
    episode: int,
    extension: Seq<char>,
) -> Seq<char> {
    show + ".S"@ + padded_text(season) + ".E"@ + padded_text(episode) + "."@ + extension
}

/// The directory of a season in the library:
/// `{dest}/{show} ({year})/Season {season}`, the season written with at least
/// two digits.
pub open spec fn season_dir(
    dest: Seq<char>,
    show: Seq<char>,
    year: Seq<char>,
    season: int,
) -> Seq<char> {
    dest + "/"@ + show + " ("@ + year + ")/Season "@ + padded_text(season)
}

/// The action that moves the file `f` of an episode.
pub open spec fn action_for(
    episode: int,
    f: EpisodeFileView,
    show: Seq<char>,
    season: int,
    dest_dir: Seq<char>,
) -> MoveActionView {
    MoveActionView {
        episode_number: episode,
        source_path: f.file_path,
        source_dir: f.file_dir,
        needs_rename: dest_file_name(show, season, episode, f.extension) != f.file_name,
        dest_file_name: dest_file_name(show, season, episode, f.extension),
        dest_dir,
    }
}

/// The actions of a plan: one for each episode of `incoming` that
/// `existing` does not hold, in the order of `incoming`.
pub open spec fn plan_actions(
    incoming: Bucket,
    existing: Bucket,
    show: Seq<char>,
    season: int,
    dest_dir: Seq<char>,
) -> Seq<MoveActionView>
    decreases incoming.len(),
{
    if incoming.len() == 0 {
        Seq::empty()
    } else {
        let rest = plan_actions(incoming.drop_last(), existing, show, season, dest_dir);
        let last = incoming.last();
        if lookup(existing, last.0) is Some {
            rest
        } else {
            rest.push(action_for(last.0, last.1, show, season, dest_dir))
        }
    }
}

/// The episodes that a sequence of actions moves.
pub open spec fn moved_by(actions: Seq<MoveActionView>) -> Seq<int> {
    actions.map_values(|a: MoveActionView| a.episode_number)
}

/// Whether numbers strictly ascend.
pub open spec fn numbers_ascend(s: Seq<int>) -> bool {
    forall|i: int, j: int| 0 <= i < j < s.len() ==> s[i] < s[j]
}

/// Each action of a plan moves an episode that `incoming` holds and
/// `existing` does not, and the plan has an action for each such episode.
pub proof fn lemma_plan_moves_the_missing(
    incoming: Bucket,
    existing: Bucket,
    show: Seq<char>,
    season: int,
    dest_dir: Seq<char>,
    episode: int,
)
    ensures
        (exists|i: int|
            0 <= i < plan_actions(incoming, existing, show, season, dest_dir).len() && (
            #[trigger] plan_actions(incoming, existing, show, season, dest_dir)[i]).episode_number
                == episode) <==> (lookup(existing, episode) is None && exists|j: int|
            0 <= j < incoming.len() && (#[trigger] incoming[j]).0 == episode),
    decreases incoming.len(),
{
    let plan = plan_actions(incoming, existing, show, season, dest_dir);
    if incoming.len() > 0 {
        let front = incoming.drop_last();
        let rest = plan_actions(front, existing, show, season, dest_dir);
        let last = incoming.last();
        lemma_plan_moves_the_missing(front, existing, show, season, dest_dir, episode);
        let in_plan = exists|i: int| 0 <= i < plan.len() && (#[trigger] plan[i]).episode_number == episode;
        let in_rest = exists|i: int| 0 <= i < rest.len() && (#[trigger] rest[i]).episode_number == episode;
        let in_incoming = exists|j: int| 0 <= j < incoming.len() && (#[trigger] incoming[j]).0 == episode;
        let in_front = exists|j: int| 0 <= j < front.len() && (#[trigger] front[j]).0 == episode;
        if in_front {
            let j = choose|j: int| 0 <= j < front.len() && (#[trigger] front[j]).0 == episode;
            assert(incoming[j].0 == episode);
        }
        if in_incoming && !in_front {
            let j = choose|j: int| 0 <= j < incoming.len() && (#[trigger] incoming[j]).0 == episode;
            if j < front.len() {
                assert(front[j].0 == episode);
            }
            assert(last.0 == episode);
        }
        if last.0 == episode {
            assert(incoming[incoming.len() - 1].0 == episode);
        }
        if in_rest {
            let i = choose|i: int| 0 <= i < rest.len() && (#[trigger] rest[i]).episode_number == episode;
            assert(plan[i].episode_number == episode);
        }
        if lookup(existing, last.0) is None {
            assert(plan[plan.len() - 1].episode_number == last.0);
            if in_plan && !in_rest {
                let i = choose|i: int| 0 <= i < plan.len() && (#[trigger] plan[i]).episode_number == episode;
                if i < rest.len() {
                    assert(rest[i].episode_number == episode);
                }
            }
        }
    }
}

/// No action of a plan touches an episode that `existing` holds, whatever
/// the names of the two files.
pub proof fn lemma_plan_skips_existing(
    incoming: Bucket,
    existing: Bucket,
    show: Seq<char>,
    season: int,
    dest_dir: Seq<char>,
)
    ensures
        forall|i: int|
            0 <= i < plan_actions(incoming, existing, show, season, dest_dir).len() ==> lookup(
                existing,
                (#[trigger] plan_actions(incoming, existing, show, season, dest_dir)[i]).episode_number,
            ) is None,
    decreases incoming.len(),
{
    if incoming.len() > 0 {
        lemma_plan_skips_existing(incoming.drop_last(), existing, show, season, dest_dir);
    }
}

/// Where `existing` holds every episode of `incoming`, the plan is empty.
pub proof fn lemma_plan_empty(
    incoming: Bucket,
    existing: Bucket,
    show: Seq<char>,
    season: int,
    dest_dir: Seq<char>,
)
    requires
        forall|j: int| 0 <= j < incoming.len() ==> lookup(existing, (#[trigger] incoming[j]).0) is Some,
    ensures
        plan_actions(incoming, existing, show, season, dest_dir) == Seq::<MoveActionView>::empty(),
    decreases incoming.len(),
{
    if incoming.len() > 0 {
        let front = incoming.drop_last();
        assert forall|j: int| 0 <= j < front.len() implies lookup(existing, (#[trigger] front[j]).0) is Some by {
            assert(incoming[j].0 == front[j].0);
        }
        lemma_plan_empty(front, existing, show, season, dest_dir);
        assert(lookup(existing, incoming[incoming.len() - 1].0) is Some);
    }
}

/// The episodes of a plan ascend where those of `incoming` do.
pub proof fn lemma_plan_ascends(
    incoming: Bucket,
    existing: Bucket,
    show: Seq<char>,
    season: int,
    dest_dir: Seq<char>,
)
    requires
        ascending(incoming),
    ensures
        numbers_ascend(moved_by(plan_actions(incoming, existing, show, season, dest_dir))),
        forall|i: int|
            0 <= i < plan_actions(incoming, existing, show, season, dest_dir).len()
                && incoming.len() > 0 ==> (#[trigger] plan_actions(
                incoming,
                existing,
                show,
                season,
                dest_dir,
            )[i]).episode_number <= incoming.last().0,
    decreases incoming.len(),
{
    let plan = plan_actions(incoming, existing, show, season, dest_dir);
    if incoming.len() > 0 {
        let front = incoming.drop_last();
        let rest = plan_actions(front, existing, show, season, dest_dir);
        crate::ordered::lemma_drop_last_ascending(incoming);
        lemma_plan_ascends(front, existing, show, season, dest_dir);
        if front.len() > 0 {
            assert(incoming[front.len() - 1].0 < incoming[incoming.len() - 1].0);
        }
        assert forall|i: int| 0 <= i < rest.len() implies (#[trigger] rest[i]).episode_number
            < incoming.last().0 by {
            assert(front.len() > 0);
        }
        let m = moved_by(plan);
        assert forall|i: int, j: int| 0 <= i < j < m.len() implies m[i] < m[j] by {
            if j < rest.len() {
                assert(moved_by(rest)[i] < moved_by(rest)[j]);
            } else {
                assert(rest[i].episode_number < incoming.last().0);
            }
        }
    }
}

/// Writes [`dest_file_name`].
pub fn dest_name(show: &str, season: i32, episode: i32, extension: &str) -> (r: String)
    ensures
        r@ == dest_file_name(show@, season as int, episode as int, extension@),
{
    let mut r = String::from_str(show);
    r.append(".S");
    r.append(write_padded(season).as_str());
    r.append(".E");
    r.append(write_padded(episode).as_str());
    r.append(".");
    r.append(extension);
    r
}

/// Writes [`season_dir`].
pub fn season_path(dest: &str, show: &str, year: &str, season: i32) -> (r: String)
    ensures
        r@ == season_dir(dest@, show@, year@, season as int),
{
    let mut r = String::from_str(dest);
    r.append("/");
    r.append(show);
    r.append(" (");
    r.append(year);
    r.append(")/Season ");
    r.append(write_padded(season).as_str());
    r
}

/// Plans the moves of one season: for every episode that `incoming` holds and
/// `existing` does not, one action, in ascending order of the episodes. An
/// episode that `existing` holds is left where it is, under whatever name it
/// has on either side.
pub fn plan(
    incoming: &SeasonBucket,
    existing: &SeasonBucket,
    show_name: &str,
    season: i32,
    dest_dir: &str,
) -> (r: MovePlan)
    ensures
        action_views(r.actions@) == plan_actions(
            incoming@,
            existing@,
            show_name@,
            season as int,
            dest_dir@,
        ),
        as_ints(r.moved@) == moved_by(action_views(r.actions@)),
        incoming.wf() ==> numbers_ascend(as_ints(r.moved@)),
        forall|i: int|
            0 <= i < r.actions@.len() ==> lookup(existing@, (#[trigger] r.actions@[i]).episode_number as int)
                is None,
{
    let ghost want = |n: int|
        plan_actions(incoming@.take(n), existing@, show_name@, season as int, dest_dir@);
    let mut actions: Vec<MoveAction> = Vec::new();
    let mut moved: Vec<i32> = Vec::new();
    let mut i: usize = 0;
    assert(incoming@.take(0) =~= Seq::<(int, EpisodeFileView)>::empty());
    assert(action_views(actions@) =~= want(0));
    assert(as_ints(moved@) =~= moved_by(action_views(actions@)));
    while i < incoming.len()
        invariant
            i <= incoming@.len(),
            want == |n: int|
                plan_actions(incoming@.take(n), existing@, show_name@, season as int, dest_dir@),
            action_views(actions@) == want(i as int),
            actions@.len() == moved@.len(),
            as_ints(moved@) == moved_by(action_views(actions@)),
        decreases incoming@.len() - i,
    {
        let episode = incoming.key_at(i);
        let file = incoming.value_at(i);
        proof {
            assert(incoming@.take(i + 1).drop_last() =~= incoming@.take(i as int));
            assert(incoming@.take(i + 1).last() == incoming@[i as int]);
        }
        if !existing.contains(episode) {
            let name = dest_name(show_name, season, episode, file.extension.as_str());
            let needs_rename = !(name == file.file_name);
            let action = MoveAction {
                episode_number: episode,
                source_path: file.file_path.clone(),
                source_dir: file.file_dir.clone(),
                needs_rename,
                dest_file_name: name,
                dest_dir: String::from_str(dest_dir),
            };
            let ghost before = actions@;
            let ghost moved_before = moved@;
            proof {
                assert(action@ == action_for(
                    episode as int,
                    file@,
                    show_name@,
                    season as int,
                    dest_dir@,
                ));
            }
            actions.push(action);
            moved.push(episode);
            proof {
                assert(action_views(actions@) =~= action_views(before).push(actions@[before.len() as int]@));
                assert(as_ints(moved@) =~= as_ints(moved_before).push(episode as int));
                assert(moved_by(action_views(actions@)) =~= moved_by(action_views(before)).push(
                    episode as int,
                ));
            }
        }
        i += 1;
    }
    proof {
        assert(incoming@.take(incoming@.len() as int) =~= incoming@);
        lemma_plan_skips_existing(incoming@, existing@, show_name@, season as int, dest_dir@);
        if incoming.wf() {
            lemma_plan_ascends(incoming@, existing@, show_name@, season as int, dest_dir@);
        }
        assert forall|i: int| 0 <= i < actions@.len() implies lookup(
            existing@,
            (#[trigger] actions@[i]).episode_number as int,
        ) is None by {
            assert(action_views(actions@)[i] == actions@[i]@);
        }
    }
    MovePlan { actions, moved }
}

} // verus!
