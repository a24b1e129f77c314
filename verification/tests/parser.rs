use bigbrother::parser::episode::parse_episode;
use bigbrother::parser::{classify, EpisodeInfo, FileType};

fn token(name: &str) -> (FileType, Option<String>, Option<i32>, Option<i32>) {
    let e = parse_episode(name);
    (e.file_type, e.extension, e.season_number, e.episode_number)
}

#[test]
fn file_types_by_extension() {
    for ext in [
        "3g2", "3gp", "3gp2", "asf", "avi", "divx", "flv", "iso", "m4v", "mk2", "mk3d", "mka",
        "mkv", "mov", "mp4", "mp4a", "mpeg", "mpg", "ogg", "ogm", "ogv", "qt", "ra", "ram", "rm",
        "ts", "m2ts", "vob", "wav", "webm", "wma", "wmv",
    ] {
        assert_eq!(FileType::from(ext), FileType::Video);
    }
    for ext in ["srt", "idx", "sub", "ssa", "ass"] {
        assert_eq!(FileType::from(ext), FileType::Subtitle);
    }
    for ext in ["", "txt", "mk", "mkvv", "MKV", "Srt", " mkv", "nfo"] {
        assert_eq!(FileType::from(ext), FileType::Unknown);
    }
    assert_eq!(FileType::default(), FileType::Unknown);
    assert_eq!(classify(&vec!['m', 'k', 'v']), FileType::Video);
    assert_eq!(classify(&vec![]), FileType::Unknown);
}

#[test]
fn episode_marks_with_season() {
    assert_eq!(
        token("Show.S01E02.mkv"),
        (FileType::Video, Some("mkv".to_string()), Some(1), Some(2))
    );
    assert_eq!(
        token("show.s1e2.MP4"),
        (FileType::Video, Some("MP4".to_string()), Some(1), Some(2))
    );
    assert_eq!(
        token("Show.S01.E02.mkv"),
        (FileType::Video, Some("mkv".to_string()), Some(1), Some(2))
    );
    assert_eq!(
        token("Show S12_E345 720p.avi"),
        (FileType::Video, Some("avi".to_string()), Some(12), Some(345))
    );
    assert_eq!(
        token("S03-E04.srt"),
        (FileType::Subtitle, Some("srt".to_string()), Some(3), Some(4))
    );
    assert_eq!(
        token("Show.S000001E000002.mkv"),
        (FileType::Video, Some("mkv".to_string()), Some(1), Some(2))
    );
}

#[test]
fn episode_marks_with_a_cross() {
    assert_eq!(token("Show.1x02.avi"), (FileType::Video, Some("avi".to_string()), Some(1), Some(2)));
    assert_eq!(
        token("Show - 10X123 - Title.mkv"),
        (FileType::Video, Some("mkv".to_string()), Some(10), Some(123))
    );
    // sizes of pictures and names of codecs are no marks
    assert_eq!(token("Show.1920x1080.mkv"), (FileType::Video, Some("mkv".to_string()), None, None));
    assert_eq!(token("Show.720x480.mkv"), (FileType::Video, Some("mkv".to_string()), None, None));
    assert_eq!(token("Show.x264.mkv"), (FileType::Video, Some("mkv".to_string()), None, None));
    assert_eq!(token("Show.1x2.mkv"), (FileType::Video, Some("mkv".to_string()), None, None));
    assert_eq!(token("Show.1x0002.mkv"), (FileType::Video, Some("mkv".to_string()), None, None));
    assert_eq!(token("Show1x02.mkv"), (FileType::Video, Some("mkv".to_string()), None, None));
    // a mark with S and E goes before it, and it goes before a bare episode
    assert_eq!(
        token("Show.S03E04.1x02.mkv"),
        (FileType::Video, Some("mkv".to_string()), Some(3), Some(4))
    );
    assert_eq!(
        token("Show.1x02.E09.mkv"),
        (FileType::Video, Some("mkv".to_string()), Some(1), Some(2))
    );
}

#[test]
fn episode_marks_without_season() {
    assert_eq!(token("Show.E05.mkv"), (FileType::Video, Some("mkv".to_string()), None, Some(5)));
    assert_eq!(token("Show EP12.mkv"), (FileType::Video, Some("mkv".to_string()), None, Some(12)));
    assert_eq!(token("ep7.mkv"), (FileType::Video, Some("mkv".to_string()), None, Some(7)));
}

#[test]
fn the_last_mark_decides() {
    assert_eq!(
        token("Show.S01E02.and.S03E04.mkv"),
        (FileType::Video, Some("mkv".to_string()), Some(3), Some(4))
    );
    // a mark with a season goes before a later one without
    assert_eq!(
        token("Show.S01E02.E09.mkv"),
        (FileType::Video, Some("mkv".to_string()), Some(1), Some(2))
    );
    assert_eq!(
        token("Show.E01.E02.mkv"),
        (FileType::Video, Some("mkv".to_string()), None, Some(2))
    );
}

#[test]
fn what_is_no_mark() {
    // inside a word
    assert_eq!(token("Episodes01E02.mkv"), (FileType::Video, Some("mkv".to_string()), None, None));
    assert_eq!(token("Date2.mkv"), (FileType::Video, Some("mkv".to_string()), None, None));
    // no digits
    assert_eq!(token("Show.SxE.mkv"), (FileType::Video, Some("mkv".to_string()), None, None));
    // two separators
    assert_eq!(token("Show.S01..E02.mkv"), (FileType::Video, Some("mkv".to_string()), None, Some(2)));
    // a number that 32 bits cannot hold
    assert_eq!(
        token("Show.S01E99999999999.mkv"),
        (FileType::Video, Some("mkv".to_string()), None, None)
    );
    assert_eq!(
        token("Show.S2147483647E2147483647.mkv"),
        (FileType::Video, Some("mkv".to_string()), Some(2147483647), Some(2147483647))
    );
    assert_eq!(
        token("Show.S2147483648E1.mkv"),
        (FileType::Video, Some("mkv".to_string()), None, None)
    );
    // a mark in the extension does not count
    assert_eq!(token("Show.S01E02"), (FileType::Unknown, Some("S01E02".to_string()), None, None));
}

#[test]
fn episode_info_from_a_name() {
    let e = EpisodeInfo::from("The.Office.S02E10.720p.mkv");
    assert_eq!(e.file_type, FileType::Video);
    assert_eq!(e.extension, Some("mkv".to_string()));
    assert_eq!(e.season_number, Some(2));
    assert_eq!(e.episode_number, Some(10));
}

#[test]
fn extensions_are_kept_as_written() {
    assert_eq!(token("a.b.MkV"), (FileType::Video, Some("MkV".to_string()), None, None));
    assert_eq!(token("noext"), (FileType::Unknown, None, None, None));
    assert_eq!(token("trailing."), (FileType::Unknown, Some("".to_string()), None, None));
    assert_eq!(token(".mkv"), (FileType::Video, Some("mkv".to_string()), None, None));
    assert_eq!(token(""), (FileType::Unknown, None, None, None));
    assert_eq!(
        token("\u{5267}\u{96c6}.S01E02.mkv"),
        (FileType::Video, Some("mkv".to_string()), Some(1), Some(2))
    );
}
