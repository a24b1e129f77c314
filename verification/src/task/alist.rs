//! Entries of the remote file store, and the paths that name them.
//!
//! Paths of the store are texts with `/` between their parts, whatever the
//! machine that runs this code uses for its own files.

use crate::common::config::AppConfig;
use crate::common::error::{Error, ErrorView};
use crate::text::{
    chars_of, contains, find_last, holds_char, last_index_of, lemma_last_where,
    lemma_last_where_is, number_text, occurs_in, slice_of, write_number,
};
use vstd::prelude::*;

verus! {

/// One entry of a directory listing, as plain values.
pub struct FileView {
    pub name: Seq<char>,
    pub path: Seq<char>,
    pub is_dir: bool,
}

/// One entry of a directory listing.
#[derive(Debug)]
pub struct File {
    pub name: String,
    /// The directory that was listed, joined with `name`.
    pub path: String,
    pub is_dir: bool,
}

impl View for File {
    type V = FileView;

    open spec fn view(&self) -> FileView {
        FileView { name: self.name@, path: self.path@, is_dir: self.is_dir }
    }
}

/// The views of the entries of a listing.
pub open spec fn views(files: Seq<File>) -> Seq<FileView> {
    files.map_values(|f: File| f@)
}

/// The path of the entry `name` in the directory `dir`: a name that starts
/// at the root stands for itself, and one `/` separates the two otherwise.
pub open spec fn joined(dir: Seq<char>, name: Seq<char>) -> Seq<char> {
    if name.len() > 0 && name[0] == '/' {
        name
    } else if dir.len() == 0 || dir.last() == '/' {
        dir + name
    } else {
        dir + seq!['/'] + name
    }
}

/// The directory that holds `path`: what stands before its last `/`, the
/// root itself for an entry of the root, and nothing for a bare name.
pub open spec fn parent_of(path: Seq<char>) -> Seq<char> {
    match last_index_of(path, '/') {
        Some(p) => if p == 0 {
            seq!['/']
        } else {
            path.subrange(0, p)
        },
        None => Seq::empty(),
    }
}

/// Whether `dir` is written as listings name a directory: without a `/` at
/// its end, unless it is the root.
pub open spec fn is_plain_dir(dir: Seq<char>) -> bool {
    dir.len() == 0 || dir.last() != '/' || dir == seq!['/']
}

/// Joining a name to a directory and taking the parent gives the directory
/// back.
pub proof fn lemma_parent_of_joined(dir: Seq<char>, name: Seq<char>)
    requires
        is_plain_dir(dir),
        forall|i: int| 0 <= i < name.len() ==> name[i] != '/',
    ensures
        parent_of(joined(dir, name)) == dir,
{
    let path = joined(dir, name);
    let p = holds_char(path, '/');
    if dir.len() == 0 {
        assert(path =~= name);
        lemma_last_where(path.len() as int, p);
        assert(last_index_of(path, '/') is None);
    } else if dir.last() == '/' {
        assert(dir =~= seq!['/']);
        assert(p(0));
        lemma_last_where_is(path.len() as int, p, 0);
    } else {
        let d = dir.len() as int;
        assert(path[d] == '/');
        assert(p(d));
        assert forall|j: int| d < j < path.len() implies !#[trigger] p(j) by {
            assert(path[j] == name[j - d - 1]);
        }
        lemma_last_where_is(path.len() as int, p, d);
        assert(path.subrange(0, d) =~= dir);
    }
}

/// Computes [`joined`].
pub fn join(dir: &str, name: &str) -> (r: String)
    ensures
        r@ == joined(dir@, name@),
{
    let d = chars_of(dir);
    let n = chars_of(name);
    if n.len() > 0 && n[0] == '/' {
        return String::from_str(name);
    }
    let mut r = String::from_str(dir);
    if d.len() > 0 && d[d.len() - 1] != '/' {
        proof {
            reveal_strlit("/");
        }
        r.append("/");
        assert(r@ =~= dir@ + seq!['/']);
    }
    r.append(name);
    r
}

/// Computes [`parent_of`].
pub fn parent(path: &str) -> (r: String)
    ensures
        r@ == parent_of(path@),
{
    let v = chars_of(path);
    match find_last(&v, '/') {
        Some(p) => if p == 0 {
            proof {
                reveal_strlit("/");
            }
            let r = String::from_str("/");
            assert(r@ =~= seq!['/']);
            r
        } else {
            slice_of(path, 0, p)
        },
        None => String::new(),
    }
}

/// The entries of the directory `dir`, made from what the store answered: no
/// entries where it sent no content, and each entry with its path in `dir`
/// otherwise.
pub open spec fn listing_of(dir: Seq<char>, content: Option<Seq<FileView>>) -> Seq<FileView> {
    match content {
        Some(entries) => entries.map_values(
            |f: FileView| FileView { name: f.name, path: joined(dir, f.name), is_dir: f.is_dir },
        ),
        None => Seq::empty(),
    }
}

/// The views of what the store answered.
pub open spec fn content_views(content: Option<Vec<File>>) -> Option<Seq<FileView>> {
    match content {
        Some(entries) => Some(views(entries@)),
        None => None,
    }
}

/// Makes the listing of `dir` from the store's answer, giving each entry its
/// path.
pub fn listing(dir: &str, content: Option<Vec<File>>) -> (r: Vec<File>)
    ensures
        views(r@) == listing_of(dir@, content_views(content)),
{
    match content {
        None => {
            let r: Vec<File> = Vec::new();
            assert(views(r@) =~= Seq::<FileView>::empty());
            r
        },
        Some(entries) => {
            let ghost want = listing_of(dir@, Some(views(entries@)));
            let mut r: Vec<File> = Vec::new();
            let mut i: usize = 0;
            while i < entries.len()
                invariant
                    i <= entries@.len(),
                    want == listing_of(dir@, Some(views(entries@))),
                    r@.len() == i,
                    views(r@) == want.take(i as int),
                decreases entries@.len() - i,
            {
                let f = &entries[i];
                let e = File { name: f.name.clone(), path: join(dir, f.name.as_str()), is_dir: f.is_dir };
                let ghost before = r@;
                r.push(e);
                proof {
                    assert(want[i as int] == r@[i as int]@);
                    assert forall|j: int| 0 <= j < i + 1 implies views(r@)[j] == want.take(
                        i + 1,
                    )[j] by {
                        if j < i {
                            assert(views(before)[j] == want.take(i as int)[j]);
                        }
                    }
                    assert(views(r@) =~= want.take(i + 1));
                }
                i += 1;
            }
            proof {
                assert(want.take(entries@.len() as int) =~= want);
            }
            r
        },
    }
}

/// What the store's answer with the code `code` and the message `message`
/// stands for: code 200 is a success, a message that speaks of something
/// "not found" is a missing resource, and anything else is a failure that is
/// reported with the code and the message.
pub open spec fn reply_failure_of(code: int, message: Seq<char>) -> Option<ErrorView> {
    if code == 200 {
        None
    } else if occurs_in(message, "not found"@) {
        Some(ErrorView::NotFound(message))
    } else {
        Some(
            ErrorView::Internal(
                "http post failed, code: "@ + number_text(code) + ", message: "@ + message,
            ),
        )
    }
}

/// Computes [`reply_failure_of`].
pub fn check_reply(code: i32, message: String) -> (r: Result<(), Error>)
    ensures
        match r {
            Ok(_) => reply_failure_of(code as int, message@) is None,
            Err(e) => reply_failure_of(code as int, message@) == Some(e@),
        },
{
    if code == 200 {
        Ok(())
    } else if contains(message.as_str(), "not found") {
        Err(Error::NotFound(message))
    } else {
        let mut m = String::from_str("http post failed, code: ");
        m.append(write_number(code).as_str());
        m.append(", message: ");
        m.append(message.as_str());
        Err(Error::Internal(m))
    }
}

/// The address and the token of the store, both of which must be set.
pub fn settings(config: &AppConfig) -> (r: Result<(&str, &str), Error>)
    ensures
        match r {
            Ok(s) => s.0@ == config@.alist_host && s.1@ == config@.alist_api_token && s.0@.len()
                > 0 && s.1@.len() > 0,
            Err(e) => if config@.alist_host.len() == 0 {
                e@ == ErrorView::Internal("alist host is empty"@)
            } else {
                config@.alist_api_token.len() == 0 && e@ == ErrorView::Internal(
                    "alist token not set"@,
                )
            },
        },
{
    if config.alist_host.as_str().is_empty() {
        Err(Error::Internal(String::from_str("alist host is empty")))
    } else if config.alist_api_token.as_str().is_empty() {
        Err(Error::Internal(String::from_str("alist token not set")))
    } else {
        Ok((config.alist_host.as_str(), config.alist_api_token.as_str()))
    }
}

} // verus!
