use bigbrother::task::alist::{join, listing, parent, File};
use bigbrother::task::episodes::{fallback_season, parse_episodes, SeasonBuckets};
use bigbrother::task::plan::{dest_name, plan, season_path, MovePlan};
use bigbrother::task::tv::TvProcessor;
use std::path::Path;

fn entry(name: &str, is_dir: bool) -> File {
    File { name: name.to_string(), path: String::new(), is_dir }
}

fn files_in(dir: &str, names: &[&str]) -> Vec<File> {
    listing(dir, Some(names.iter().map(|n| entry(n, false)).collect()))
}

fn shape(b: &SeasonBuckets) -> Vec<(i32, Vec<(i32, String)>)> {
    let mut out = Vec::new();
    for i in 0..b.len() {
        let bucket = b.value_at(i);
        let mut episodes = Vec::new();
        for j in 0..bucket.len() {
            episodes.push((bucket.key_at(j), bucket.value_at(j).file_name.clone()));
        }
        out.push((b.key_at(i), episodes));
    }
    out
}

fn plan_for(source: &[File], fallback: Option<i32>, dest: &[File], season: i32) -> MovePlan {
    let source: Vec<File> = source.iter().map(copy).collect();
    let dest: Vec<File> = dest.iter().map(copy).collect();
    let incoming = parse_episodes(&source, fallback);
    let existing = parse_episodes(&dest, None);
    let empty = parse_episodes(&Vec::new(), None);
    let at = incoming.find(season).expect("the season has incoming files");
    match existing.get(season) {
        Some(e) => plan(incoming.value_at(at), e, "Show", season, "/lib/Show (2020)/Season 01"),
        None => {
            assert_eq!(empty.len(), 0);
            let nothing = bigbrother::ordered::OrderedMap::new();
            plan(incoming.value_at(at), &nothing, "Show", season, "/lib/Show (2020)/Season 01")
        }
    }
}

fn copy(f: &File) -> File {
    File { name: f.name.clone(), path: f.path.clone(), is_dir: f.is_dir }
}

#[test]
fn paths_join_and_part() {
    assert_eq!(join("/tv", "Show"), "/tv/Show");
    assert_eq!(join("/tv/", "Show"), "/tv/Show");
    assert_eq!(join("/", "Show"), "/Show");
    assert_eq!(join("", "Show"), "Show");
    assert_eq!(join("/tv", "/abs"), "/abs");
    assert_eq!(join("/tv", ""), "/tv/");
    assert_eq!(parent("/tv/Show/a.mkv"), "/tv/Show");
    assert_eq!(parent("/a.mkv"), "/");
    assert_eq!(parent("a.mkv"), "");
    assert_eq!(parent(""), "");
    assert_eq!(parent("/tv/Show/"), "/tv/Show");
    for (dir, name) in [("/tv", "Show"), ("/", "x"), ("", "x"), ("/a/b c", "d.e")] {
        assert_eq!(parent(&join(dir, name)), dir);
    }
}

#[test]
fn paths_agree_with_the_paths_of_this_machine() {
    for (dir, name) in [
        ("/tv", "Show (2020)"),
        ("/tv/", "Show"),
        ("/", "a.mkv"),
        ("", "a.mkv"),
        ("/tv/Show (2020)", "Show.S01E01.mkv"),
        ("tv/x", "y"),
        ("/tv", "/abs"),
    ] {
        assert_eq!(join(dir, name), Path::new(dir).join(name).to_str().unwrap());
    }
    for path in ["/tv/Show/a.mkv", "/a.mkv", "a.mkv", "tv/a.mkv", "/tv/Show (2020)/Season 1/x.mkv"] {
        assert_eq!(parent(path), Path::new(path).parent().unwrap().to_str().unwrap());
    }
}

#[test]
fn listing_gives_each_entry_its_path() {
    let got = listing("/tv/Show", Some(vec![entry("a.mkv", false), entry("Season 2", true)]));
    assert_eq!(got.len(), 2);
    assert_eq!(got[0].name, "a.mkv");
    assert_eq!(got[0].path, "/tv/Show/a.mkv");
    assert!(!got[0].is_dir);
    assert_eq!(got[1].name, "Season 2");
    assert_eq!(got[1].path, "/tv/Show/Season 2");
    assert!(got[1].is_dir);
    assert!(listing("/tv/Show", None).is_empty());
    assert!(listing("/tv/Show", Some(Vec::new())).is_empty());
}

#[test]
fn files_are_bucketed_by_season_and_episode() {
    let files = files_in(
        "/tv/Show",
        &[
            "Show.S02E01.mkv",
            "Show.S01E03.mkv",
            "Show.S01E01.mkv",
            "Show.S01E01.srt",
            "notes.txt",
            "Show.S01E02.mp4",
        ],
    );
    let got = TvProcessor::parse_episodes(&files, None);
    assert_eq!(
        shape(&got),
        vec![
            (
                1,
                vec![
                    (1, "Show.S01E01.mkv".to_string()),
                    (2, "Show.S01E02.mp4".to_string()),
                    (3, "Show.S01E03.mkv".to_string()),
                ]
            ),
            (2, vec![(1, "Show.S02E01.mkv".to_string())]),
        ]
    );
    let f = got.value_at(0).value_at(1);
    assert_eq!(f.file_dir, "/tv/Show");
    assert_eq!(f.file_path, "/tv/Show/Show.S01E02.mp4");
    assert_eq!(f.extension, "mp4");
}

#[test]
fn directories_are_not_bucketed() {
    let files = listing("/tv", Some(vec![entry("Show.S01E01.mkv", true)]));
    assert_eq!(parse_episodes(&files, Some(1)).len(), 0);
    assert_eq!(parse_episodes(&Vec::new(), Some(1)).len(), 0);
}

#[test]
fn the_later_of_two_files_for_one_episode_stays() {
    let files = files_in("/tv", &["a.S01E01.mkv", "b.S01E01.mkv", "c.S01E02.mkv", "d.S01E01.avi"]);
    let got = parse_episodes(&files, None);
    assert_eq!(
        shape(&got),
        vec![(1, vec![(1, "d.S01E01.avi".to_string()), (2, "c.S01E02.mkv".to_string())])]
    );
}

#[test]
fn single_season_fallback() {
    let files = files_in("/tv/Show", &["Show.E05.mkv"]);
    assert_eq!(fallback_season(1), Some(1));
    assert_eq!(fallback_season(2), None);
    assert_eq!(fallback_season(0), None);
    let one = parse_episodes(&files, fallback_season(1));
    assert_eq!(shape(&one), vec![(1, vec![(5, "Show.E05.mkv".to_string())])]);
    let two = parse_episodes(&files, fallback_season(2));
    assert_eq!(shape(&two), vec![]);
    // a season that the name gives goes before the fallback
    let files = files_in("/tv/Show", &["Show.S03E05.mkv", "Show.E06.mkv"]);
    let got = parse_episodes(&files, Some(7));
    assert_eq!(
        shape(&got),
        vec![
            (3, vec![(5, "Show.S03E05.mkv".to_string())]),
            (7, vec![(6, "Show.E06.mkv".to_string())])
        ]
    );
}

#[test]
fn names_in_the_library() {
    assert_eq!(dest_name("Show", 1, 2, "mkv"), "Show.S01.E02.mkv");
    assert_eq!(dest_name("Show", 12, 345, "MP4"), "Show.S12.E345.MP4");
    assert_eq!(dest_name("", 0, 0, ""), ".S00.E00.");
    assert_eq!(dest_name("Show", -1, -12, "mkv"), "Show.S-1.E-12.mkv");
    for (s, e) in [(0, 9), (9, 10), (99, 100), (-1, -9), (-10, 2147483647), (-2147483648, 7)] {
        assert_eq!(
            dest_name("A b", s, e, "mkv"),
            format!("{}.S{:02}.E{:02}.{}", "A b", s, e, "mkv")
        );
    }
    assert_eq!(season_path("/lib", "Show", "2020", 1), "/lib/Show (2020)/Season 01");
    assert_eq!(season_path("/lib", "Show", "2020", 123), "/lib/Show (2020)/Season 123");
    assert_eq!(season_path("", "", "", 0), "/ ()/Season 00");
}

#[test]
fn plan_moves_what_the_library_lacks() {
    let source = files_in("/tv/Show (2020)", &["Show.S01E02.mkv", "Show.S01.E01.mkv", "x.S01E03.avi"]);
    let p = plan_for(&source, None, &[], 1);
    assert_eq!(p.moved, vec![1, 2, 3]);
    assert_eq!(p.actions.len(), 3);
    let a = &p.actions[0];
    assert_eq!(a.episode_number, 1);
    assert_eq!(a.source_path, "/tv/Show (2020)/Show.S01.E01.mkv");
    assert_eq!(a.source_dir, "/tv/Show (2020)");
    assert!(!a.needs_rename);
    assert_eq!(a.dest_file_name, "Show.S01.E01.mkv");
    assert_eq!(a.dest_dir, "/lib/Show (2020)/Season 01");
    let a = &p.actions[1];
    assert_eq!(a.episode_number, 2);
    assert!(a.needs_rename);
    assert_eq!(a.dest_file_name, "Show.S01.E02.mkv");
    let a = &p.actions[2];
    assert_eq!(a.episode_number, 3);
    assert!(a.needs_rename);
    assert_eq!(a.dest_file_name, "Show.S01.E03.avi");
    assert_eq!(a.source_path, "/tv/Show (2020)/x.S01E03.avi");
}

#[test]
fn an_episode_in_the_library_is_never_planned() {
    let source = files_in("/tv/Show", &["Show.S01E03.mkv", "Show.S01E04.mkv"]);
    let dest = files_in("/lib/Show (2020)/Season 01", &["whatever it is called s1e3.avi"]);
    let p = plan_for(&source, None, &dest, 1);
    assert_eq!(p.moved, vec![4]);
    assert_eq!(p.actions.len(), 1);
    assert_eq!(p.actions[0].episode_number, 4);
    // the same episode of another season in the library does not count
    let dest = files_in("/lib/Show (2020)/Season 01", &["Show.S02.E03.mkv"]);
    let p = plan_for(&source, None, &dest, 1);
    assert_eq!(p.moved, vec![3, 4]);
}

#[test]
fn a_second_run_plans_nothing() {
    let source = files_in("/tv/Show", &["Show.S01E01.mkv", "Show.S01E02.mkv", "Show.E03.MKV"]);
    let before = files_in("/lib/Show (2020)/Season 01", &["Show.S01.E02.mkv"]);
    let first = plan_for(&source, Some(1), &before, 1);
    assert_eq!(first.moved, vec![1, 3]);
    let mut after: Vec<File> = before.iter().map(copy).collect();
    for a in &first.actions {
        after.push(File {
            name: a.dest_file_name.clone(),
            path: join(&a.dest_dir, &a.dest_file_name),
            is_dir: false,
        });
    }
    let second = plan_for(&source, Some(1), &after, 1);
    assert!(second.actions.is_empty());
    assert!(second.moved.is_empty());
    // a show whose own name holds a mark changes nothing
    let source = files_in("/tv/S01E09", &["x.S02E05.mkv"]);
    let incoming = parse_episodes(&source, None);
    let nothing = bigbrother::ordered::OrderedMap::new();
    let first = plan(incoming.value_at(0), &nothing, "S01E09", 2, "/lib/d");
    assert_eq!(first.actions[0].dest_file_name, "S01E09.S02.E05.mkv");
    let after = files_in("/lib/d", &["S01E09.S02.E05.mkv"]);
    let existing = parse_episodes(&after, None);
    let second = plan(incoming.value_at(0), existing.get(2).unwrap(), "S01E09", 2, "/lib/d");
    assert!(second.actions.is_empty());
}
