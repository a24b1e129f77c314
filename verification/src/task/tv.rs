//! One pass over a task, as a machine that asks and is answered.
//!
//! The machine does no work on the file store or the metadata provider
//! itself. It hands out one [`Request`] at a time; whoever drives it carries
//! the request out and hands back the [`Reply`]. What remains to be done is
//! kept on a stack of [`Work`], the next piece on top.
//!
//! A failure of kind `NotFound` ends the work on the show at hand, and the
//! pass goes on with the next show. A failure of kind `Internal` ends the
//! pass. A notification that fails is not a failure of the pass.

use crate::common::config::{AppConfig, TaskConfig};
use crate::common::error::{Error, ErrorView};
use crate::pattern::regex_captures;
use crate::task::alist::{content_views, listing, listing_of, settings, views, File, FileView};
use crate::task::episodes::{
    as_int, bucket_for, buckets_of, fallback_for, fallback_season, parse_episodes, Bucket,
    Buckets, SeasonBucket, SeasonBuckets,
};
use crate::ordered::{lemma_lookup_some, lookup, OrderedMap};
use crate::task::names::{
    identity_view, parse_season_number, parse_tv_name, season_of, season_pattern,
    show_identity_of, show_pattern, written_in,
};
use crate::text::{is_trim, occurs_in};
use crate::task::notify::{format_message, message_for};
use crate::task::plan::{
    action_views, as_ints, lemma_plan_empty, moved_by, plan, plan_actions, season_dir,
    season_path, MoveAction, MoveActionView,
};
use crate::task::rerun::{landed, lemma_library_holds_what_was_planned};
use crate::task::tmdb::{
    api_key, first_result, tv_info, tv_info_of, SearchTvResult, TvDetail, TvInfo, TvInfoView,
};
use vstd::prelude::*;

verus! {

/// What the machine waits for.
#[derive(Debug, Clone, Copy, PartialEq, Eq, Structural)]
pub enum Waiting {
    /// No pass has begun.
    Idle,
    /// The listing of the task's source directory.
    SourceListing,
    /// The listing of a show's directory.
    ShowListing,
    /// What a search for the show found.
    SearchResults,
    /// The details of the show.
    Detail,
    /// The listing of a folder of the show.
    FolderListing,
    /// The listing of a season's directory in the library.
    DestListing,
    /// That a directory was made or a file renamed or moved.
    Step,
    /// That a message was sent.
    Notified,
    /// Nothing: the pass is over.
    Over,
}

/// A piece of work that remains to be done, as plain values.
pub enum WorkView {
    Show(FileView),
    Folder { path: Seq<char>, fallback: Option<int> },
    Season { season: int, bucket: Bucket, made: bool },
    Act(MoveActionView),
    Announce(Seq<char>),
}

/// A piece of work that remains to be done.
#[derive(Debug)]
pub enum Work {
    /// A directory of the source: a show to look up and to sort.
    Show(File),
    /// A folder of the show at hand, with the season to assume for files
    /// in it that name none.
    Folder { path: String, fallback: Option<i32> },
    /// A season's files to bring into the library; `made` once the season's
    /// directory was asked for.
    Season { season: i32, bucket: SeasonBucket, made: bool },
    /// A file to rename, if it needs it, and to move.
    Act(MoveAction),
    /// A message to send.
    Announce(String),
}

impl View for Work {
    type V = WorkView;

    open spec fn view(&self) -> WorkView {
        match self {
            Work::Show(f) => WorkView::Show(f@),
            Work::Folder { path, fallback } => WorkView::Folder {
                path: path@,
                fallback: as_int(*fallback),
            },
            Work::Season { season, bucket, made } => WorkView::Season {
                season: *season as int,
                bucket: bucket@,
                made: *made,
            },
            Work::Act(a) => WorkView::Act(a@),
            Work::Announce(m) => WorkView::Announce(m@),
        }
    }
}

/// What the machine asks for, as plain values.
pub enum RequestView {
    List { path: Seq<char> },
    Search { title: Seq<char>, year: Option<int> },
    Detail { id: int },
    Mkdir { path: Seq<char> },
    Rename { path: Seq<char>, new_name: Seq<char> },
    Move { src_dir: Seq<char>, dest_dir: Seq<char>, name: Seq<char> },
    Notify { message: Seq<char> },
    Done,
    Abort(ErrorView),
}

/// What the machine asks for next.
#[derive(Debug)]
pub enum Request {
    /// List the directory `path` of the file store.
    List { path: String },
    /// Search the metadata provider for a show.
    Search { title: String, year: Option<i32> },
    /// Get the details of the show `id` from the metadata provider.
    Detail { id: i32 },
    /// Make the directory `path`, unless it is there.
    Mkdir { path: String },
    /// Give the file at `path` the name `new_name`.
    Rename { path: String, new_name: String },
    /// Move the file `name` from `src_dir` to `dest_dir`.
    Move { src_dir: String, dest_dir: String, name: String },
    /// Send `message`.
    Notify { message: String },
    /// Nothing more: the pass is over.
    Done,
    /// Nothing more: the pass ended on this failure.
    Abort(Error),
}

impl View for Request {
    type V = RequestView;

    open spec fn view(&self) -> RequestView {
        match self {
            Request::List { path } => RequestView::List { path: path@ },
            Request::Search { title, year } => RequestView::Search {
                title: title@,
                year: as_int(*year),
            },
            Request::Detail { id } => RequestView::Detail { id: *id as int },
            Request::Mkdir { path } => RequestView::Mkdir { path: path@ },
            Request::Rename { path, new_name } => RequestView::Rename {
                path: path@,
                new_name: new_name@,
            },
            Request::Move { src_dir, dest_dir, name } => RequestView::Move {
                src_dir: src_dir@,
                dest_dir: dest_dir@,
                name: name@,
            },
            Request::Notify { message } => RequestView::Notify { message: message@ },
            Request::Done => RequestView::Done,
            Request::Abort(e) => RequestView::Abort(e@),
        }
    }
}

/// What came back for a request, as plain values.
pub enum ReplyView {
    Listed(Option<Seq<FileView>>),
    Found(Seq<int>),
    Detail(TvInfoView),
    Done,
    Failed(ErrorView),
}

/// What came back for a request.
#[derive(Debug)]
pub enum Reply {
    /// The entries of the directory that was listed, as the store sent them:
    /// `None` where it sent no content.
    Listed(Option<Vec<File>>),
    /// The shows that the search found.
    Found(Vec<SearchTvResult>),
    /// The details of the show.
    Detail(TvDetail),
    /// The request was carried out.
    Done,
    /// The request failed.
    Failed(Error),
}

/// The numbers of the shows that a search found.
pub open spec fn found_ids(results: Seq<SearchTvResult>) -> Seq<int> {
    results.map_values(|r: SearchTvResult| r.id as int)
}

impl View for Reply {
    type V = ReplyView;

    open spec fn view(&self) -> ReplyView {
        match self {
            Reply::Listed(content) => ReplyView::Listed(content_views(*content)),
            Reply::Found(results) => ReplyView::Found(found_ids(results@)),
            Reply::Detail(d) => ReplyView::Detail(
                tv_info_of(d.name@, d.first_air_date@, d.number_of_seasons as int),
            ),
            Reply::Done => ReplyView::Done,
            Reply::Failed(e) => ReplyView::Failed(e@),
        }
    }
}

/// The state of the machine, as plain values.
pub struct Machine {
    /// The task's source directory.
    pub src_dir: Seq<char>,
    /// The root of the library.
    pub dest_dir: Seq<char>,
    pub waiting: Waiting,
    /// What remains to be done, the next piece last.
    pub work: Seq<WorkView>,
    /// The directory whose listing was asked for.
    pub path: Seq<char>,
    /// The title and year that the directory of the show at hand gives.
    pub title: Seq<char>,
    pub year: Option<int>,
    /// The directory of the show at hand, and what it holds.
    pub show_path: Seq<char>,
    pub show_files: Seq<FileView>,
    /// What the metadata provider told of the show at hand.
    pub show: TvInfoView,
    /// The season to assume in the folder whose listing was asked for.
    pub fallback: Option<int>,
    /// The season whose directory in the library was listed, and its files.
    pub season: int,
    pub bucket: Bucket,
}

/// `base` with the directories among `files` on top as shows to work on, the
/// first of them topmost.
pub open spec fn stack_shows(base: Seq<WorkView>, files: Seq<FileView>) -> Seq<WorkView>
    decreases files.len(),
{
    if files.len() == 0 {
        base
    } else {
        let rest = stack_shows(base, files.drop_first());
        if files[0].is_dir {
            rest.push(WorkView::Show(files[0]))
        } else {
            rest
        }
    }
}

/// `base` with the directories among `files` on top as folders, each with the
/// season that its name gives, the first of them topmost.
pub open spec fn stack_folders(base: Seq<WorkView>, files: Seq<FileView>) -> Seq<WorkView>
    decreases files.len(),
{
    if files.len() == 0 {
        base
    } else {
        let rest = stack_folders(base, files.drop_first());
        if files[0].is_dir {
            rest.push(
                WorkView::Folder {
                    path: files[0].path,
                    fallback: season_of(regex_captures(season_pattern(), files[0].name)),
                },
            )
        } else {
            rest
        }
    }
}

/// `base` with the seasons of `buckets` on top, the first of them topmost.
pub open spec fn stack_seasons(base: Seq<WorkView>, buckets: Buckets) -> Seq<WorkView>
    decreases buckets.len(),
{
    if buckets.len() == 0 {
        base
    } else {
        stack_seasons(base, buckets.drop_first()).push(
            WorkView::Season { season: buckets[0].0, bucket: buckets[0].1, made: false },
        )
    }
}

/// `base` with `actions` on top, the first of them topmost.
pub open spec fn stack_actions(base: Seq<WorkView>, actions: Seq<MoveActionView>) -> Seq<WorkView>
    decreases actions.len(),
{
    if actions.len() == 0 {
        base
    } else {
        stack_actions(base, actions.drop_first()).push(WorkView::Act(actions[0]))
    }
}

/// `work` without what belongs to the show at hand: everything above the
/// next show.
pub open spec fn drop_show(work: Seq<WorkView>) -> Seq<WorkView>
    decreases work.len(),
{
    if work.len() == 0 || work.last() is Show {
        work
    } else {
        drop_show(work.drop_last())
    }
}

/// The work of a season once its directory in the library was listed: the
/// actions of the season's plan, the first on top, and under them the message
/// that announces the episodes that they move. Nothing where the plan is empty.
pub open spec fn stack_plan(
    base: Seq<WorkView>,
    actions: Seq<MoveActionView>,
    show: Seq<char>,
    season: int,
) -> Seq<WorkView> {
    if actions.len() == 0 {
        base
    } else {
        stack_actions(
            base.push(WorkView::Announce(message_for(show, season, moved_by(actions)))),
            actions,
        )
    }
}

/// The machine at the end of a pass.
pub open spec fn over(m: Machine) -> Machine {
    Machine { waiting: Waiting::Over, work: Seq::empty(), ..m }
}

/// What the machine does next: it takes the piece of work on top and asks for
/// what the piece needs first; with no work left the pass is over.
pub open spec fn advance_of(m: Machine) -> (Machine, RequestView) {
    if m.work.len() == 0 {
        (over(m), RequestView::Done)
    } else {
        let rest = m.work.drop_last();
        match m.work.last() {
            WorkView::Show(f) => {
                let identity = show_identity_of(f.name, regex_captures(show_pattern(), f.name));
                (
                    Machine {
                        waiting: Waiting::ShowListing,
                        work: rest,
                        path: f.path,
                        title: identity.0,
                        year: identity.1,
                        show_path: f.path,
                        ..m
                    },
                    RequestView::List { path: f.path },
                )
            },
            WorkView::Folder { path, fallback } => (
                Machine { waiting: Waiting::FolderListing, work: rest, path, fallback, ..m },
                RequestView::List { path },
            ),
            WorkView::Season { season, bucket, made } => {
                let dir = season_dir(m.dest_dir, m.show.name, m.show.year, season);
                if made {
                    (
                        Machine {
                            waiting: Waiting::DestListing,
                            work: rest,
                            path: dir,
                            season,
                            bucket,
                            ..m
                        },
                        RequestView::List { path: dir },
                    )
                } else {
                    (
                        Machine {
                            waiting: Waiting::Step,
                            work: rest.push(WorkView::Season { season, bucket, made: true }),
                            ..m
                        },
                        RequestView::Mkdir { path: dir },
                    )
                }
            },
            WorkView::Act(a) => if a.needs_rename {
                (
                    Machine {
                        waiting: Waiting::Step,
                        work: rest.push(
                            WorkView::Act(MoveActionView { needs_rename: false, ..a }),
                        ),
                        ..m
                    },
                    RequestView::Rename { path: a.source_path, new_name: a.dest_file_name },
                )
            } else {
                (
                    Machine { waiting: Waiting::Step, work: rest, ..m },
                    RequestView::Move {
                        src_dir: a.source_dir,
                        dest_dir: a.dest_dir,
                        name: a.dest_file_name,
                    },
                )
            },
            WorkView::Announce(message) => (
                Machine { waiting: Waiting::Notified, work: rest, ..m },
                RequestView::Notify { message },
            ),
        }
    }
}

/// What the machine does on a failure: a notification that failed is passed
/// over; a failure of kind `Internal`, or any failure to list the source,
/// ends the pass; a missing resource ends the work on the show at hand.
pub open spec fn failure_of(m: Machine, e: ErrorView) -> (Machine, RequestView) {
    if m.waiting == Waiting::Notified {
        advance_of(m)
    } else if e is Internal || m.waiting == Waiting::SourceListing {
        (over(m), RequestView::Abort(e))
    } else {
        advance_of(Machine { work: drop_show(m.work), ..m })
    }
}

/// The failure that ends a pass on a reply that answers no request of the
/// machine.
pub open spec fn unexpected() -> ErrorView {
    ErrorView::Internal("unexpected reply"@)
}

/// What the machine does on a reply: its next state and its next request.
pub open spec fn step_of(m: Machine, reply: ReplyView) -> (Machine, RequestView) {
    if m.waiting == Waiting::Over {
        (m, RequestView::Done)
    } else if m.waiting == Waiting::Idle {
        (over(m), RequestView::Abort(unexpected()))
    } else {
        match reply {
            ReplyView::Failed(e) => failure_of(m, e),
            ReplyView::Listed(content) => {
                let files = listing_of(m.path, content);
                if m.waiting == Waiting::SourceListing {
                    advance_of(Machine { work: stack_shows(m.work, files), ..m })
                } else if m.waiting == Waiting::ShowListing {
                    if files.len() == 0 {
                        advance_of(m)
                    } else {
                        (
                            Machine { waiting: Waiting::SearchResults, show_files: files, ..m },
                            RequestView::Search { title: m.title, year: m.year },
                        )
                    }
                } else if m.waiting == Waiting::FolderListing {
                    advance_of(
                        Machine { work: stack_seasons(m.work, buckets_of(files, m.fallback)), ..m },
                    )
                } else if m.waiting == Waiting::DestListing {
                    let existing = bucket_for(buckets_of(files, None), m.season);
                    let actions = plan_actions(m.bucket, existing, m.show.name, m.season, m.path);
                    advance_of(
                        Machine { work: stack_plan(m.work, actions, m.show.name, m.season), ..m },
                    )
                } else {
                    (over(m), RequestView::Abort(unexpected()))
                }
            },
            ReplyView::Found(ids) => if m.waiting == Waiting::SearchResults {
                if ids.len() == 0 {
                    failure_of(m, ErrorView::NotFound("no tv found in tmdb for "@ + m.title))
                } else {
                    (Machine { waiting: Waiting::Detail, ..m }, RequestView::Detail { id: ids[0] })
                }
            } else {
                (over(m), RequestView::Abort(unexpected()))
            },
            ReplyView::Detail(info) => if m.waiting == Waiting::Detail {
                advance_of(
                    Machine {
                        show: info,
                        work: stack_folders(m.work, m.show_files).push(
                            WorkView::Folder {
                                path: m.show_path,
                                fallback: fallback_for(info.number_of_seasons),
                            },
                        ),
                        ..m
                    },
                )
            } else {
                (over(m), RequestView::Abort(unexpected()))
            },
            ReplyView::Done => if m.waiting == Waiting::Step || m.waiting == Waiting::Notified {
                advance_of(m)
            } else {
                (over(m), RequestView::Abort(unexpected()))
            },
        }
    }
}

/// The machine at the start of a pass over a task, and its first request:
/// the listing of the source directory.
pub open spec fn start_of(m: Machine) -> (Machine, RequestView) {
    (
        Machine { waiting: Waiting::SourceListing, work: Seq::empty(), path: m.src_dir, ..m },
        RequestView::List { path: m.src_dir },
    )
}

/// A missing resource never ends a pass that has listed its source, and a
/// failed notification counts as a sent one.
pub proof fn lemma_failures_that_pass(m: Machine, message: Seq<char>)
    requires
        m.waiting != Waiting::Over,
        m.waiting != Waiting::Idle,
        m.waiting != Waiting::SourceListing,
    ensures
        !(step_of(m, ReplyView::Failed(ErrorView::NotFound(message))).1 is Abort),
        m.waiting == Waiting::Notified ==> step_of(m, ReplyView::Failed(ErrorView::Internal(message)))
            == step_of(m, ReplyView::Done),
{
}

/// A failure of kind `Internal` ends the pass with that failure, unless it
/// is a notification that failed.
pub proof fn lemma_internal_failure_ends(m: Machine, message: Seq<char>)
    requires
        m.waiting != Waiting::Over,
        m.waiting != Waiting::Idle,
        m.waiting != Waiting::Notified,
    ensures
        step_of(m, ReplyView::Failed(ErrorView::Internal(message))) == (
            over(m),
            RequestView::Abort(ErrorView::Internal(message)),
        ),
{
}

/// A season of which the library holds every episode adds no work: the
/// machine goes on as if the season had not been there.
pub proof fn lemma_settled_season_adds_no_work(m: Machine, content: Option<Seq<FileView>>)
    requires
        m.waiting == Waiting::DestListing,
        forall|j: int|
            0 <= j < m.bucket.len() ==> lookup(
                bucket_for(buckets_of(listing_of(m.path, content), None), m.season),
                (#[trigger] m.bucket[j]).0,
            ) is Some,
    ensures
        step_of(m, ReplyView::Listed(content)) == advance_of(m),
{
    let existing = bucket_for(buckets_of(listing_of(m.path, content), None), m.season);
    lemma_plan_empty(m.bucket, existing, m.show.name, m.season, m.path);
}

/// A second pass adds no work for a season: where the season's directory
/// lists what it listed before the first pass and, beside it, what the first
/// pass's plan moved there, the machine finds nothing to do.
pub proof fn lemma_second_pass_adds_no_work(
    m: Machine,
    source: Seq<FileView>,
    fallback: Option<int>,
    before: Seq<FileView>,
    content: Option<Seq<FileView>>,
)
    requires
        m.waiting == Waiting::DestListing,
        0 <= m.season <= i32::MAX,
        m.bucket == bucket_for(buckets_of(source, fallback), m.season),
        listing_of(m.path, content) == before + landed(
            plan_actions(
                m.bucket,
                bucket_for(buckets_of(before, None), m.season),
                m.show.name,
                m.season,
                m.path,
            ),
        ),
    ensures
        step_of(m, ReplyView::Listed(content)) == advance_of(m),
{
    assert forall|j: int| 0 <= j < m.bucket.len() implies lookup(
        bucket_for(buckets_of(listing_of(m.path, content), None), m.season),
        (#[trigger] m.bucket[j]).0,
    ) is Some by {
        lemma_lookup_some(m.bucket, m.bucket[j].0);
        lemma_library_holds_what_was_planned(
            source,
            fallback,
            before,
            m.show.name,
            m.season,
            m.path,
            m.bucket[j].0,
        );
    }
    lemma_settled_season_adds_no_work(m, content);
}

/// The views of the pieces of work on a stack.
pub open spec fn work_views(work: Seq<Work>) -> Seq<WorkView> {
    work.map_values(|w: Work| w@)
}

/// The machine before its first pass over a task.
pub open spec fn initial(src_dir: Seq<char>, dest_dir: Seq<char>) -> Machine {
    Machine {
        src_dir,
        dest_dir,
        waiting: Waiting::Idle,
        work: Seq::empty(),
        path: Seq::empty(),
        title: Seq::empty(),
        year: None,
        show_path: Seq::empty(),
        show_files: Seq::empty(),
        show: TvInfoView { name: Seq::empty(), year: Seq::empty(), number_of_seasons: 0 },
        fallback: None,
        season: 0,
        bucket: Seq::empty(),
    }
}

/// Puts `w` on top of `work`.
fn push_onto(work: &mut Vec<Work>, w: Work)
    ensures
        work_views(final(work)@) == work_views(old(work)@).push(w@),
{
    let ghost before = work@;
    work.push(w);
    assert(work_views(work@) =~= work_views(before).push(w@));
}

/// Takes the piece on top of `work`, if there is one.
fn pop_from(work: &mut Vec<Work>) -> (r: Option<Work>)
    ensures
        match r {
            Some(w) => old(work)@.len() > 0 && w@ == work_views(old(work)@).last() && work_views(
                final(work)@,
            ) == work_views(old(work)@).drop_last(),
            None => old(work)@.len() == 0 && final(work)@ == old(work)@,
        },
{
    let ghost before = work@;
    let r = work.pop();
    proof {
        if before.len() > 0 {
            assert(work_views(work@) =~= work_views(before).drop_last());
        }
    }
    r
}

/// Puts the directories among `files` on top of `work` as shows.
fn stack_show_work(work: &mut Vec<Work>, files: &Vec<File>)
    ensures
        work_views(final(work)@) == stack_shows(work_views(old(work)@), views(files@)),
{
    let ghost base = work_views(work@);
    let ghost all = views(files@);
    let mut i: usize = files.len();
    assert(all.skip(i as int) =~= Seq::<FileView>::empty());
    while i > 0
        invariant
            i <= files@.len(),
            all == views(files@),
            work_views(work@) == stack_shows(base, all.skip(i as int)),
        decreases i,
    {
        let f = &files[i - 1];
        proof {
            assert(all.skip(i - 1).drop_first() =~= all.skip(i as int));
            assert(all.skip(i - 1)[0] == f@);
        }
        if f.is_dir {
            push_onto(work, Work::Show(File { name: f.name.clone(), path: f.path.clone(), is_dir: true }));
        }
        i -= 1;
    }
    proof {
        assert(all.skip(0) =~= all);
    }
}

/// Puts the directories among `files` on top of `work` as folders.
fn stack_folder_work(work: &mut Vec<Work>, files: &Vec<File>)
    ensures
        work_views(final(work)@) == stack_folders(work_views(old(work)@), views(files@)),
{
    let ghost base = work_views(work@);
    let ghost all = views(files@);
    let mut i: usize = files.len();
    assert(all.skip(i as int) =~= Seq::<FileView>::empty());
    while i > 0
        invariant
            i <= files@.len(),
            all == views(files@),
            work_views(work@) == stack_folders(base, all.skip(i as int)),
        decreases i,
    {
        let f = &files[i - 1];
        proof {
            assert(all.skip(i - 1).drop_first() =~= all.skip(i as int));
            assert(all.skip(i - 1)[0] == f@);
        }
        if f.is_dir {
            let fallback = parse_season_number(f.name.as_str());
            push_onto(work, Work::Folder { path: f.path.clone(), fallback });
        }
        i -= 1;
    }
    proof {
        assert(all.skip(0) =~= all);
    }
}

/// Puts the seasons of `buckets` on top of `work`.
fn stack_season_work(work: &mut Vec<Work>, buckets: SeasonBuckets)
    requires
        buckets.wf(),
    ensures
        work_views(final(work)@) == stack_seasons(work_views(old(work)@), buckets@),
{
    let ghost base = work_views(work@);
    let ghost all = buckets@;
    let mut buckets = buckets;
    assert(all.skip(all.len() as int) =~= Seq::<(int, Bucket)>::empty());
    assert(all.take(all.len() as int) =~= all);
    while buckets.len() > 0
        invariant
            buckets.wf(),
            buckets@.len() <= all.len(),
            buckets@ == all.take(buckets@.len() as int),
            work_views(work@) == stack_seasons(base, all.skip(buckets@.len() as int)),
        decreases buckets@.len(),
    {
        let n = buckets.len();
        let taken = buckets.remove_at(n - 1);
        proof {
            assert(all.skip(n - 1).drop_first() =~= all.skip(n as int));
            assert(all.skip(n - 1)[0] == all[n - 1]);
            assert(all.take(n as int).remove(n - 1) =~= all.take(n - 1));
            assert(all.take(n as int)[n - 1] == all[n - 1]);
        }
        push_onto(work, Work::Season { season: taken.0, bucket: taken.1, made: false });
    }
    proof {
        assert(all.skip(0) =~= all);
    }
}

/// Puts `actions` on top of `work`.
fn stack_action_work(work: &mut Vec<Work>, actions: Vec<MoveAction>)
    ensures
        work_views(final(work)@) == stack_actions(work_views(old(work)@), action_views(actions@)),
{
    let ghost base = work_views(work@);
    let ghost all = action_views(actions@);
    let mut actions = actions;
    assert(all.skip(all.len() as int) =~= Seq::<MoveActionView>::empty());
    assert(all.take(all.len() as int) =~= all);
    while actions.len() > 0
        invariant
            actions@.len() <= all.len(),
            action_views(actions@) == all.take(actions@.len() as int),
            work_views(work@) == stack_actions(base, all.skip(actions@.len() as int)),
        decreases actions@.len(),
    {
        let n = actions.len();
        let ghost before = actions@;
        let a = actions.pop();
        proof {
            assert(all.skip(n - 1).drop_first() =~= all.skip(n as int));
            assert(all.skip(n - 1)[0] == all[n - 1]);
            assert(action_views(before)[n - 1] == all.take(n as int)[n - 1]);
            assert(action_views(actions@) =~= all.take(n - 1)) by {
                assert forall|j: int| 0 <= j < n - 1 implies action_views(actions@)[j] == all.take(
                    n - 1,
                )[j] by {
                    assert(action_views(before)[j] == all.take(n as int)[j]);
                }
            }
        }
        match a {
            Some(a) => {
                push_onto(work, Work::Act(a));
            },
            None => {},
        }
    }
    proof {
        assert(all.skip(0) =~= all);
    }
}

/// Takes what belongs to the show at hand off `work`.
fn drop_show_work(work: &mut Vec<Work>)
    ensures
        work_views(final(work)@) == drop_show(work_views(old(work)@)),
{
    loop
        invariant
            drop_show(work_views(work@)) == drop_show(work_views(old(work)@)),
        decreases work@.len(),
    {
        let n = work.len();
        if n == 0 {
            return ;
        }
        let top_is_show = match &work[n - 1] {
            Work::Show(_) => true,
            _ => false,
        };
        proof {
            assert(work_views(work@).last() == work@[n - 1]@);
        }
        if top_is_show {
            return ;
        }
        let ghost before = work@;
        let _ = work.pop();
        proof {
            assert(work_views(work@) =~= work_views(before).drop_last());
        }
    }
}

/// One pass over a task: the machine that sorts what a source directory
/// holds into the library.
#[derive(Debug)]
pub struct TvProcessor {
    src_dir: String,
    dest_dir: String,
    waiting: Waiting,
    work: Vec<Work>,
    path: String,
    title: String,
    year: Option<i32>,
    show_path: String,
    show_files: Vec<File>,
    show: TvInfo,
    fallback: Option<i32>,
    season: i32,
    bucket: SeasonBucket,
}

impl View for TvProcessor {
    type V = Machine;

    closed spec fn view(&self) -> Machine {
        Machine {
            src_dir: self.src_dir@,
            dest_dir: self.dest_dir@,
            waiting: self.waiting,
            work: work_views(self.work@),
            path: self.path@,
            title: self.title@,
            year: as_int(self.year),
            show_path: self.show_path@,
            show_files: views(self.show_files@),
            show: self.show@,
            fallback: as_int(self.fallback),
            season: self.season as int,
            bucket: self.bucket@,
        }
    }
}

impl TvProcessor {
    /// The machine for a task, where the settings name the metadata
    /// provider's key and the file store's address and token. The first of
    /// the three that is missing is the failure.
    pub fn new(config: &AppConfig, task: &TaskConfig) -> (r: Result<TvProcessor, Error>)
        ensures
            match r {
                Ok(p) => p@ == initial(task@.src_dir, task@.dest_dir) && config@.tmdb_api_key.len()
                    > 0 && config@.alist_host.len() > 0 && config@.alist_api_token.len() > 0,
                Err(e) => e@ == ErrorView::Internal(
                    if config@.tmdb_api_key.len() == 0 {
                        "tmdb api key is empty"@
                    } else if config@.alist_host.len() == 0 {
                        "alist host is empty"@
                    } else {
                        "alist token not set"@
                    },
                ) && (config@.tmdb_api_key.len() == 0 || config@.alist_host.len() == 0
                    || config@.alist_api_token.len() == 0),
            },
    {
        match api_key(config) {
            Ok(_) => {},
            Err(e) => {
                return Err(e);
            },
        }
        match settings(config) {
            Ok(_) => {},
            Err(e) => {
                return Err(e);
            },
        }
        let p = TvProcessor {
            src_dir: task.src_dir.clone(),
            dest_dir: task.dest_dir.clone(),
            waiting: Waiting::Idle,
            work: Vec::new(),
            path: String::new(),
            title: String::new(),
            year: None,
            show_path: String::new(),
            show_files: Vec::new(),
            show: TvInfo { name: String::new(), year: String::new(), number_of_seasons: 0 },
            fallback: None,
            season: 0,
            bucket: OrderedMap::new(),
        };
        proof {
            assert(p@.work =~= Seq::<WorkView>::empty());
            assert(p@.show_files =~= Seq::<FileView>::empty());
        }
        Ok(p)
    }

    /// Begins a pass, and asks for the listing of the source directory.
    pub fn run(&mut self) -> (r: Request)
        ensures
            (final(self)@, r@) == start_of(old(self)@),
    {
        self.work.clear();
        self.waiting = Waiting::SourceListing;
        self.path = self.src_dir.clone();
        proof {
            assert(self@.work =~= Seq::<WorkView>::empty());
        }
        Request::List { path: self.src_dir.clone() }
    }

    /// Whether the pass is over.
    pub fn finished(&self) -> (r: bool)
        ensures
            r == (self@.waiting == Waiting::Over),
    {
        self.waiting == Waiting::Over
    }

    /// Ends the pass.
    fn end(&mut self)
        ensures
            final(self)@ == over(old(self)@),
    {
        self.work.clear();
        self.waiting = Waiting::Over;
        proof {
            assert(self@.work =~= Seq::<WorkView>::empty());
        }
    }

    /// Ends the pass on a reply that answers no request.
    fn refuse(&mut self) -> (r: Request)
        ensures
            (final(self)@, r@) == (over(old(self)@), RequestView::Abort(unexpected())),
    {
        self.end();
        Request::Abort(Error::Internal(String::from_str("unexpected reply")))
    }

    /// Takes the next piece of work and asks for what it needs first.
    fn advance(&mut self) -> (r: Request)
        ensures
            (final(self)@, r@) == advance_of(old(self)@),
    {
        match pop_from(&mut self.work) {
            None => {
                self.end();
                Request::Done
            },
            Some(Work::Show(f)) => {
                let identity = parse_tv_name(f.name.as_str());
                self.title = identity.0;
                self.year = identity.1;
                self.show_path = f.path.clone();
                self.path = f.path.clone();
                self.waiting = Waiting::ShowListing;
                Request::List { path: f.path }
            },
            Some(Work::Folder { path, fallback }) => {
                self.path = path.clone();
                self.fallback = fallback;
                self.waiting = Waiting::FolderListing;
                Request::List { path }
            },
            Some(Work::Season { season, bucket, made }) => {
                let dir = season_path(
                    self.dest_dir.as_str(),
                    self.show.name.as_str(),
                    self.show.year.as_str(),
                    season,
                );
                if made {
                    self.path = dir.clone();
                    self.season = season;
                    self.bucket = bucket;
                    self.waiting = Waiting::DestListing;
                    Request::List { path: dir }
                } else {
                    push_onto(&mut self.work, Work::Season { season, bucket, made: true });
                    self.waiting = Waiting::Step;
                    Request::Mkdir { path: dir }
                }
            },
            Some(Work::Act(a)) => {
                self.waiting = Waiting::Step;
                if a.needs_rename {
                    let r = Request::Rename {
                        path: a.source_path.clone(),
                        new_name: a.dest_file_name.clone(),
                    };
                    push_onto(
                        &mut self.work,
                        Work::Act(
                            MoveAction {
                                episode_number: a.episode_number,
                                source_path: a.source_path,
                                source_dir: a.source_dir,
                                needs_rename: false,
                                dest_file_name: a.dest_file_name,
                                dest_dir: a.dest_dir,
                            },
                        ),
                    );
                    r
                } else {
                    Request::Move {
                        src_dir: a.source_dir,
                        dest_dir: a.dest_dir,
                        name: a.dest_file_name,
                    }
                }
            },
            Some(Work::Announce(message)) => {
                self.waiting = Waiting::Notified;
                Request::Notify { message }
            },
        }
    }

    /// Goes on after a failure.
    fn fail(&mut self, e: Error) -> (r: Request)
        ensures
            (final(self)@, r@) == failure_of(old(self)@, e@),
    {
        if self.waiting == Waiting::Notified {
            self.advance()
        } else if e.fatal() || self.waiting == Waiting::SourceListing {
            self.end();
            Request::Abort(e)
        } else {
            drop_show_work(&mut self.work);
            self.advance()
        }
    }

    /// Plans the season whose directory in the library holds `files`, and puts
    /// the plan's work on the stack.
    fn reconcile(&mut self, files: &Vec<File>)
        ensures
            final(self)@ == (Machine {
                work: stack_plan(
                    old(self)@.work,
                    plan_actions(
                        old(self)@.bucket,
                        bucket_for(buckets_of(views(files@), None), old(self)@.season),
                        old(self)@.show.name,
                        old(self)@.season,
                        old(self)@.path,
                    ),
                    old(self)@.show.name,
                    old(self)@.season,
                ),
                ..old(self)@
            }),
    {
        let found = parse_episodes(files, None);
        let p = match found.get(self.season) {
            Some(existing) => plan(
                &self.bucket,
                existing,
                self.show.name.as_str(),
                self.season,
                self.path.as_str(),
            ),
            None => {
                let nothing: SeasonBucket = OrderedMap::new();
                plan(
                    &self.bucket,
                    &nothing,
                    self.show.name.as_str(),
                    self.season,
                    self.path.as_str(),
                )
            },
        };
        if p.moved.len() > 0 {
            let message = format_message(self.show.name.as_str(), self.season, p.moved.as_slice());
            proof {
                assert(p.moved@.map_values(|n: i32| n as int) =~= as_ints(p.moved@));
            }
            push_onto(&mut self.work, Work::Announce(message));
            stack_action_work(&mut self.work, p.actions);
        } else {
            proof {
                assert(action_views(p.actions@).len() == as_ints(p.moved@).len());
            }
        }
    }

    /// Takes the reply to the request that was handed out last, and hands out
    /// the next request.
    pub fn step(&mut self, reply: Reply) -> (r: Request)
        ensures
            (final(self)@, r@) == step_of(old(self)@, reply@),
    {
        if self.waiting == Waiting::Over {
            return Request::Done;
        }
        if self.waiting == Waiting::Idle {
            return self.refuse();
        }
        match reply {
            Reply::Failed(e) => self.fail(e),
            Reply::Listed(content) => {
                let files = listing(self.path.as_str(), content);
                match self.waiting {
                    Waiting::SourceListing => {
                        stack_show_work(&mut self.work, &files);
                        self.advance()
                    },
                    Waiting::ShowListing => {
                        if files.len() == 0 {
                            self.advance()
                        } else {
                            self.show_files = files;
                            self.waiting = Waiting::SearchResults;
                            Request::Search { title: self.title.clone(), year: self.year }
                        }
                    },
                    Waiting::FolderListing => {
                        let buckets = parse_episodes(&files, self.fallback);
                        stack_season_work(&mut self.work, buckets);
                        self.advance()
                    },
                    Waiting::DestListing => {
                        self.reconcile(&files);
                        self.advance()
                    },
                    _ => self.refuse(),
                }
            },
            Reply::Found(results) => {
                if self.waiting == Waiting::SearchResults {
                    match first_result(&results, self.title.as_str()) {
                        Ok(id) => {
                            self.waiting = Waiting::Detail;
                            Request::Detail { id }
                        },
                        Err(e) => self.fail(e),
                    }
                } else {
                    self.refuse()
                }
            },
            Reply::Detail(detail) => {
                if self.waiting == Waiting::Detail {
                    self.show = tv_info(&detail);
                    stack_folder_work(&mut self.work, &self.show_files);
                    push_onto(
                        &mut self.work,
                        Work::Folder {
                            path: self.show_path.clone(),
                            fallback: fallback_season(self.show.number_of_seasons),
                        },
                    );
                    self.advance()
                } else {
                    self.refuse()
                }
            },
            Reply::Done => {
                if self.waiting == Waiting::Step || self.waiting == Waiting::Notified {
                    self.advance()
                } else {
                    self.refuse()
                }
            },
        }
    }

    /// Reads the title and the year from the name of a show's directory, such
    /// as `The Office (2005)`.
    pub fn parse_tv_name(name: &str) -> (r: (String, Option<i32>))
        ensures
            identity_view(r) == show_identity_of(name@, regex_captures(show_pattern(), name@)),
            occurs_in(name@, r.0@),
            is_trim(r.0@),
            r.1 matches Some(year) ==> written_in(name@, year as int),
    {
        parse_tv_name(name)
    }

    /// Reads the season from the name of a folder, such as `Season 3`.
    pub fn parse_season_number(name: &str) -> (r: Option<i32>)
        ensures
            as_int(r) == season_of(regex_captures(season_pattern(), name@)),
            r matches Some(n) ==> written_in(name@, n as int),
    {
        parse_season_number(name)
    }

    /// Writes the message that announces the episodes `episodes` of a season,
    /// for a list that is not empty.
    pub fn format_message(tv_name: &str, season_number: i32, episodes: &[i32]) -> (r: String)
        requires
            episodes@.len() > 0,
        ensures
            r@ == message_for(
                tv_name@,
                season_number as int,
                episodes@.map_values(|n: i32| n as int),
            ),
    {
        format_message(tv_name, season_number, episodes)
    }

    /// Sorts the entries of a listing into seasons and episodes.
    pub fn parse_episodes(files: &Vec<File>, default_season: Option<i32>) -> (r: SeasonBuckets)
        ensures
            r@ == buckets_of(views(files@), as_int(default_season)),
            r.wf(),
    {
        parse_episodes(files, default_season)
    }
}

} // verus!
