//! The files of a listing, sorted into seasons and episodes.

use crate::ordered::{
    ascending, lemma_lookup_at, lemma_lookup_put, lemma_put_after_remove, lemma_put_at_rank,
    lookup, put, OrderedMap,
};
use crate::parser::episode::{episode_token, extension_of};
use crate::parser::{EpisodeInfo, FileType};
use crate::task::alist::{parent, parent_of, views, File, FileView};
use crate::text::{last_where, lemma_last_where};
use vstd::prelude::*;

verus! {

/// One episode's file, as plain values.
pub struct EpisodeFileView {
    pub file_dir: Seq<char>,
    pub file_path: Seq<char>,
    pub file_name: Seq<char>,
    pub extension: Seq<char>,
}

/// One episode's file: where it lies and what it is called.
#[derive(Debug)]
pub struct EpisodeFile {
    /// The directory that holds the file.
    pub file_dir: String,
    /// The whole path of the file.
    pub file_path: String,
    /// The name of the file in its directory.
    pub file_name: String,
    /// What follows the last dot of the name, as it is written there.
    pub extension: String,
}

impl View for EpisodeFile {
    type V = EpisodeFileView;

    open spec fn view(&self) -> EpisodeFileView {
        EpisodeFileView {
            file_dir: self.file_dir@,
            file_path: self.file_path@,
            file_name: self.file_name@,
            extension: self.extension@,
        }
    }
}

/// The episodes of one season: each episode's number with its file.
pub type SeasonBucket = OrderedMap<EpisodeFile>;

/// The seasons that were found, each with its episodes.
pub type SeasonBuckets = OrderedMap<SeasonBucket>;

/// The model of a [`SeasonBucket`]: episode numbers, ascending, with files.
pub type Bucket = Seq<(int, EpisodeFileView)>;

/// The model of [`SeasonBuckets`]: season numbers, ascending, with buckets.
pub type Buckets = Seq<(int, Bucket)>;

/// The season to assume for files that name none: the first, for a show of
/// exactly one season, and none otherwise.
pub open spec fn fallback_for(season_count: int) -> Option<int> {
    if season_count == 1 {
        Some(1)
    } else {
        None
    }
}

/// Computes [`fallback_for`].
pub fn fallback_season(season_count: i32) -> (r: Option<i32>)
    ensures
        as_int(r) == fallback_for(season_count as int),
{
    if season_count == 1 {
        Some(1)
    } else {
        None
    }
}

/// An optional number as an integer.
pub open spec fn as_int(n: Option<i32>) -> Option<int> {
    match n {
        Some(n) => Some(n as int),
        None => None,
    }
}

/// The season and episode under which the entry `f` is filed, if it is
/// filed: a video whose name gives an episode, in the season that its name
/// gives or, where it gives none, in the season `fallback`.
pub open spec fn file_key(f: FileView, fallback: Option<int>) -> Option<(int, int)> {
    let t = episode_token(f.name);
    if f.is_dir || t.file_type != FileType::Video {
        None
    } else {
        match t.episode {
            Some(episode) => match t.season {
                Some(season) => Some((season, episode)),
                None => match fallback {
                    Some(season) => Some((season, episode)),
                    None => None,
                },
            },
            None => None,
        }
    }
}

/// The episode file that the entry `f` becomes.
pub open spec fn episode_file(f: FileView) -> EpisodeFileView {
    EpisodeFileView {
        file_dir: parent_of(f.path),
        file_path: f.path,
        file_name: f.name,
        extension: match extension_of(f.name) {
            Some(e) => e,
            None => Seq::empty(),
        },
    }
}

/// The bucket of `season` in `b`: empty where `b` has none for it.
pub open spec fn bucket_for(b: Buckets, season: int) -> Bucket {
    match lookup(b, season) {
        Some(bucket) => bucket,
        None => Seq::empty(),
    }
}

/// The file that `b` holds for an episode of a season, if it holds one.
pub open spec fn file_for(b: Buckets, season: int, episode: int) -> Option<EpisodeFileView> {
    lookup(bucket_for(b, season), episode)
}

/// `b` with the file `f` for an episode of a season, in place of the file
/// that it held for that episode.
pub open spec fn put_file(b: Buckets, season: int, episode: int, f: EpisodeFileView) -> Buckets {
    put(b, season, put(bucket_for(b, season), episode, f))
}

/// The buckets that the listing `files` fills, taken entry by entry: where
/// two entries are filed under one season and episode, the later one stays.
pub open spec fn buckets_of(files: Seq<FileView>, fallback: Option<int>) -> Buckets
    decreases files.len(),
{
    if files.len() == 0 {
        Seq::empty()
    } else {
        let rest = buckets_of(files.drop_last(), fallback);
        match file_key(files.last(), fallback) {
            Some(k) => put_file(rest, k.0, k.1, episode_file(files.last())),
            None => rest,
        }
    }
}

/// Seasons ascend, and in each season the episodes ascend.
pub open spec fn buckets_wf(b: Buckets) -> bool {
    &&& ascending(b)
    &&& forall|i: int| 0 <= i < b.len() ==> ascending((#[trigger] b[i]).1)
}

/// The test "entry `i` of `files` is filed under this season and episode".
pub open spec fn filed_under(
    files: Seq<FileView>,
    fallback: Option<int>,
    season: int,
    episode: int,
) -> spec_fn(int) -> bool {
    |i: int| file_key(files[i], fallback) == Some((season, episode))
}

/// Filing one file changes what is held for its season and episode, and
/// nothing else.
pub proof fn lemma_file_for_put(
    b: Buckets,
    season: int,
    episode: int,
    f: EpisodeFileView,
    s: int,
    e: int,
)
    ensures
        file_for(put_file(b, season, episode, f), s, e) == if s == season && e == episode {
            Some(f)
        } else {
            file_for(b, s, e)
        },
{
    let inner = put(bucket_for(b, season), episode, f);
    lemma_lookup_put(b, season, inner, s);
    lemma_lookup_put(bucket_for(b, season), episode, f, e);
}

/// Filing keeps seasons and episodes in ascending order.
pub proof fn lemma_put_file_wf(b: Buckets, season: int, episode: int, f: EpisodeFileView)
    requires
        buckets_wf(b),
    ensures
        buckets_wf(put_file(b, season, episode, f)),
{
    let old_bucket = bucket_for(b, season);
    assert(ascending(old_bucket)) by {
        crate::ordered::lemma_lookup_some(b, season);
        if lookup(b, season) is Some {
            let i = choose|i: int| 0 <= i < b.len() && (#[trigger] b[i]).0 == season;
            lemma_lookup_at(b, i);
        }
    }
    let inner = put(old_bucket, episode, f);
    lemma_put_at_rank(old_bucket, episode, f);
    lemma_put_at_rank(b, season, inner);
    let r = put_file(b, season, episode, f);
    let p = crate::ordered::rank(b, season);
    crate::ordered::lemma_rank(b, season);
    assert forall|i: int| 0 <= i < r.len() implies ascending((#[trigger] r[i]).1) by {
        if p < b.len() && b[p].0 == season {
            if i != p {
                assert(r[i] == b[i]);
            }
        } else {
            if i < p {
                assert(r[i] == b[i]);
            } else if i > p {
                assert(r[i] == b[i - 1]);
            }
        }
    }
}

/// What a listing's buckets hold is in order.
pub proof fn lemma_buckets_wf(files: Seq<FileView>, fallback: Option<int>)
    ensures
        buckets_wf(buckets_of(files, fallback)),
    decreases files.len(),
{
    if files.len() > 0 {
        lemma_buckets_wf(files.drop_last(), fallback);
        match file_key(files.last(), fallback) {
            Some(k) => {
                lemma_put_file_wf(
                    buckets_of(files.drop_last(), fallback),
                    k.0,
                    k.1,
                    episode_file(files.last()),
                );
            },
            None => {},
        }
    }
}

/// The buckets hold, for a season and episode, the last entry of the
/// listing that is filed under them; and nothing where no entry is.
pub proof fn lemma_buckets_hold_last(
    files: Seq<FileView>,
    fallback: Option<int>,
    season: int,
    episode: int,
)
    ensures
        file_for(buckets_of(files, fallback), season, episode) == match last_where(
            files.len() as int,
            filed_under(files, fallback, season, episode),
        ) {
            Some(i) => Some(episode_file(files[i])),
            None => None,
        },
    decreases files.len(),
{
    let p = filed_under(files, fallback, season, episode);
    if files.len() > 0 {
        let front = files.drop_last();
        let q = filed_under(front, fallback, season, episode);
        lemma_buckets_hold_last(front, fallback, season, episode);
        assert(last_where(front.len() as int, q) == last_where(front.len() as int, p)) by {
            assert forall|i: int| 0 <= i < front.len() implies #[trigger] q(i) == p(i) by {
                assert(front[i] == files[i]);
            }
            lemma_last_where_same(front.len() as int, q, p);
        }
        lemma_last_where(front.len() as int, p);
        if last_where(front.len() as int, p) is Some {
            let i = last_where(front.len() as int, p)->0;
            assert(front[i] == files[i]);
        }
        match file_key(files.last(), fallback) {
            Some(k) => {
                lemma_file_for_put(
                    buckets_of(front, fallback),
                    k.0,
                    k.1,
                    episode_file(files.last()),
                    season,
                    episode,
                );
                if k.0 == season && k.1 == episode {
                    assert(p(files.len() - 1));
                } else {
                    assert(!p(files.len() - 1));
                }
            },
            None => {
                assert(!p(files.len() - 1));
            },
        }
    }
}

/// Two tests that agree below `n` have the same last index below `n`.
pub proof fn lemma_last_where_same(n: int, p: spec_fn(int) -> bool, q: spec_fn(int) -> bool)
    requires
        forall|i: int| 0 <= i < n ==> #[trigger] p(i) == q(i),
    ensures
        last_where(n, p) == last_where(n, q),
    decreases n,
{
    if n > 0 {
        lemma_last_where_same(n - 1, p, q);
    }
}

/// A file is held for a season and episode exactly where some entry of the
/// listing is filed under them.
pub proof fn lemma_buckets_hold(
    files: Seq<FileView>,
    fallback: Option<int>,
    season: int,
    episode: int,
)
    ensures
        file_for(buckets_of(files, fallback), season, episode) is Some <==> exists|i: int|
            0 <= i < files.len() && #[trigger] file_key(files[i], fallback) == Some(
                (season, episode),
            ),
{
    let p = filed_under(files, fallback, season, episode);
    lemma_buckets_hold_last(files, fallback, season, episode);
    lemma_last_where(files.len() as int, p);
    if exists|i: int|
        0 <= i < files.len() && #[trigger] file_key(files[i], fallback) == Some((season, episode)) {
        let i = choose|i: int|
            0 <= i < files.len() && #[trigger] file_key(files[i], fallback) == Some(
                (season, episode),
            );
        assert(p(i));
    }
    if last_where(files.len() as int, p) is Some {
        let i = last_where(files.len() as int, p)->0;
        assert(p(i));
        assert(file_key(files[i], fallback) == Some((season, episode)));
    }
}

/// A show of one season takes a file that names no season into its first
/// season; a show of any other number of seasons leaves it out.
pub proof fn lemma_single_season_fallback(f: FileView, season_count: int)
    requires
        !f.is_dir,
        episode_token(f.name).file_type == FileType::Video,
        episode_token(f.name).episode is Some,
        episode_token(f.name).season is None,
    ensures
        season_count == 1 ==> buckets_of(seq![f], fallback_for(season_count)) == seq![
            (1int, seq![(episode_token(f.name).episode->0, episode_file(f))]),
        ],
        season_count != 1 ==> buckets_of(seq![f], fallback_for(season_count))
            == Seq::<(int, Bucket)>::empty(),
{
    let files = seq![f];
    assert(files.drop_last() =~= Seq::<FileView>::empty());
    assert(files.last() == f);
    let rest = buckets_of(files.drop_last(), fallback_for(season_count));
    assert(rest =~= Seq::<(int, Bucket)>::empty());
    if season_count == 1 {
        let e = episode_token(f.name).episode->0;
        assert(bucket_for(rest, 1) =~= Seq::<(int, EpisodeFileView)>::empty());
        assert(put(bucket_for(rest, 1), e, episode_file(f)) =~= seq![(e, episode_file(f))]);
        assert(put_file(rest, 1, e, episode_file(f)) =~= seq![(1int, seq![(e, episode_file(f))])]);
    }
}

/// Files `f` under a season and episode.
fn insert_file(b: &mut SeasonBuckets, season: i32, episode: i32, f: EpisodeFile)
    requires
        old(b).wf(),
        buckets_wf(old(b)@),
    ensures
        final(b).wf(),
        buckets_wf(final(b)@),
        final(b)@ == put_file(old(b)@, season as int, episode as int, f@),
{
    let ghost before = b@;
    proof {
        lemma_put_file_wf(before, season as int, episode as int, f@);
    }
    match b.find(season) {
        Some(i) => {
            proof {
                lemma_lookup_at(before, i as int);
            }
            let taken = b.remove_at(i);
            let mut bucket = taken.1;
            bucket.put(episode, f);
            proof {
                lemma_put_after_remove(before, i as int, bucket@);
            }
            b.put(season, bucket);
        },
        None => {
            let mut bucket: SeasonBucket = OrderedMap::new();
            bucket.put(episode, f);
            b.put(season, bucket);
        },
    }
}

/// Sorts the entries of a listing into seasons and episodes. Directories,
/// files that are no videos and files whose name gives no episode are left
/// out; so is a file whose name gives no season, unless `default_season`
/// gives one. Where two files are filed under one season and episode, the
/// later one stays.
pub fn parse_episodes(files: &Vec<File>, default_season: Option<i32>) -> (r: SeasonBuckets)
    ensures
        r@ == buckets_of(views(files@), as_int(default_season)),
        r.wf(),
        buckets_wf(r@),
{
    let ghost all = views(files@);
    let ghost fallback = as_int(default_season);
    let mut result: SeasonBuckets = OrderedMap::new();
    let mut i: usize = 0;
    while i < files.len()
        invariant
            i <= files@.len(),
            all == views(files@),
            fallback == as_int(default_season),
            result.wf(),
            buckets_wf(result@),
            result@ == buckets_of(all.take(i as int), fallback),
        decreases files@.len() - i,
    {
        let file = &files[i];
        proof {
            assert(all.take(i + 1).drop_last() =~= all.take(i as int));
            assert(all.take(i + 1).last() == file@);
        }
        if !file.is_dir {
            let info = EpisodeInfo::from(file.name.as_str());
            if info.file_type == FileType::Video {
                match info.episode_number {
                    Some(episode) => {
                        let season = match info.season_number {
                            Some(n) => Some(n),
                            None => default_season,
                        };
                        match season {
                            Some(season) => {
                                let extension = match info.extension {
                                    Some(e) => e,
                                    None => String::new(),
                                };
                                let f = EpisodeFile {
                                    file_dir: parent(file.path.as_str()),
                                    file_path: file.path.clone(),
                                    file_name: file.name.clone(),
                                    extension,
                                };
                                assert(f@ == episode_file(file@));
                                insert_file(&mut result, season, episode, f);
                            },
                            None => {},
                        }
                    },
                    None => {},
                }
            }
        }
        i += 1;
    }
    proof {
        assert(all.take(files@.len() as int) =~= all);
    }
    result
}

} // verus!
