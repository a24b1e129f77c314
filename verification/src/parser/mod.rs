//! What a media file's name says: its kind, its extension, and the season
//! and episode it belongs to.

use crate::text::{chars_of, same_chars};
use vstd::prelude::*;

pub mod episode;

verus! {

/// The kind of a media file, told by its extension.
#[derive(Debug, Clone, Copy, PartialEq, Eq, Structural)]
pub enum FileType {
    Unknown,
    Video,
    Subtitle,
}

impl Default for FileType {
    fn default() -> (r: Self)
        ensures
            r == FileType::Unknown,
    {
        FileType::Unknown
    }
}

/// The extensions of video files, in small letters.
pub open spec fn video_extensions() -> Seq<Seq<char>> {
    seq![
        "3g2"@,
        "3gp"@,
        "3gp2"@,
        "asf"@,
        "avi"@,
        "divx"@,
        "flv"@,
        "iso"@,
        "m4v"@,
        "mk2"@,
        "mk3d"@,
        "mka"@,
        "mkv"@,
        "mov"@,
        "mp4"@,
        "mp4a"@,
        "mpeg"@,
        "mpg"@,
        "ogg"@,
        "ogm"@,
        "ogv"@,
        "qt"@,
        "ra"@,
        "ram"@,
        "rm"@,
        "ts"@,
        "m2ts"@,
        "vob"@,
        "wav"@,
        "webm"@,
        "wma"@,
        "wmv"@,
    ]
}

/// The extensions of subtitle files, in small letters.
pub open spec fn subtitle_extensions() -> Seq<Seq<char>> {
    seq!["srt"@, "idx"@, "sub"@, "ssa"@, "ass"@]
}

/// The kind that the extension `ext` stands for: it is compared as it is
/// written, so capitals match nothing.
pub open spec fn file_type_of(ext: Seq<char>) -> FileType {
    if video_extensions().contains(ext) {
        FileType::Video
    } else if subtitle_extensions().contains(ext) {
        FileType::Subtitle
    } else {
        FileType::Unknown
    }
}

/// The texts that a list of names holds.
pub open spec fn texts(names: Seq<&'static str>) -> Seq<Seq<char>> {
    names.map_values(|s: &'static str| s@)
}

fn video_names() -> (v: Vec<&'static str>)
    ensures
        texts(v@) == video_extensions(),
{
    let v = vec![
        "3g2",
        "3gp",
        "3gp2",
        "asf",
        "avi",
        "divx",
        "flv",
        "iso",
        "m4v",
        "mk2",
        "mk3d",
        "mka",
        "mkv",
        "mov",
        "mp4",
        "mp4a",
        "mpeg",
        "mpg",
        "ogg",
        "ogm",
        "ogv",
        "qt",
        "ra",
        "ram",
        "rm",
        "ts",
        "m2ts",
        "vob",
        "wav",
        "webm",
        "wma",
        "wmv",
    ];
    assert(texts(v@) =~= video_extensions());
    v
}

fn subtitle_names() -> (v: Vec<&'static str>)
    ensures
        texts(v@) == subtitle_extensions(),
{
    let v = vec!["srt", "idx", "sub", "ssa", "ass"];
    assert(texts(v@) =~= subtitle_extensions());
    v
}

/// Whether `names` holds the text `val`.
fn among(val: &Vec<char>, names: &Vec<&'static str>) -> (r: bool)
    ensures
        r == texts(names@).contains(val@),
{
    let mut i: usize = 0;
    while i < names.len()
        invariant
            i <= names@.len(),
            forall|k: int| 0 <= k < i ==> texts(names@)[k] != val@,
        decreases names@.len() - i,
    {
        let name = chars_of(names[i]);
        if same_chars(val, &name) {
            assert(texts(names@)[i as int] == val@);
            return true;
        }
        i += 1;
    }
    false
}

/// Computes [`file_type_of`] for the characters of an extension.
pub fn classify(ext: &Vec<char>) -> (r: FileType)
    ensures
        r == file_type_of(ext@),
{
    if among(ext, &video_names()) {
        FileType::Video
    } else if among(ext, &subtitle_names()) {
        FileType::Subtitle
    } else {
        FileType::Unknown
    }
}

impl vstd::std_specs::convert::FromSpecImpl<&str> for FileType {
    open spec fn obeys_from_spec() -> bool {
        true
    }

    open spec fn from_spec(val: &str) -> Self {
        file_type_of(val@)
    }
}

impl From<&str> for FileType {
    /// The kind that the extension `val` stands for.
    fn from(val: &str) -> (r: Self) {
        classify(&chars_of(val))
    }
}

/// What a file name says, as plain values.
pub struct EpisodeToken {
    pub file_type: FileType,
    pub extension: Option<Seq<char>>,
    pub season: Option<int>,
    pub episode: Option<int>,
}

/// What was read from the name of one media file.
#[derive(Debug)]
pub struct EpisodeInfo {
    /// The kind of file, by its extension without regard to case.
    pub file_type: FileType,
    /// What follows the last dot of the name, as it is written there.
    pub extension: Option<String>,
    pub season_number: Option<i32>,
    pub episode_number: Option<i32>,
}

impl View for EpisodeInfo {
    type V = EpisodeToken;

    open spec fn view(&self) -> EpisodeToken {
        EpisodeToken {
            file_type: self.file_type,
            extension: match self.extension {
                Some(e) => Some(e@),
                None => None,
            },
            season: match self.season_number {
                Some(n) => Some(n as int),
                None => None,
            },
            episode: match self.episode_number {
                Some(n) => Some(n as int),
                None => None,
            },
        }
    }
}

} // verus!
