use vstd::prelude::*;
use crate::text::{chars_of, chars_equal, push_all, string_of};

verus! {

pub open spec fn tmp_root() -> Seq<char> {
    "/tmp/awocadodl"@
}

/// The directory that holds one chapter's images under `root`.
pub open spec fn chapter_dir_of(root: Seq<char>, comic: Seq<char>, chapter: Seq<char>) -> Seq<
    char,
> {
    root + "/"@ + comic + "/"@ + chapter
}

/// The staging directory for chapters that are packed into archives.
pub fn get_tmp_path() -> (r: String)
    ensures
        r@ == tmp_root(),
{
    string_of(chars_of("/tmp/awocadodl").as_slice())
}

/// The directory that comics are saved under: a configured, non-empty directory wins;
/// otherwise `Comics` in the home directory; `None` when neither is known.
pub fn get_comic_path(configured: Option<&str>, home: Option<&str>) -> (r: Option<String>)
    ensures
        (configured is Some && configured->Some_0@.len() > 0) ==> (r is Some && r->Some_0@
            == configured->Some_0@),
        !(configured is Some && configured->Some_0@.len() > 0) ==> match home {
            Some(h) => r is Some && r->Some_0@ == h@ + "/Comics"@,
            None => r is None,
        },
{
    if let Some(c) = configured {
        let cs = chars_of(c);
        if cs.len() > 0 {
            return Some(string_of(cs.as_slice()));
        }
    }
    match home {
        Some(h) => {
            let mut p = chars_of(h);
            push_all(&mut p, chars_of("/Comics").as_slice());
            Some(string_of(p.as_slice()))
        },
        None => None,
    }
}

/// The directory that holds one chapter's images under `root`: `root/comic/chapter`.
pub fn chapter_dir(root: &str, comic: &str, chapter: &str) -> (r: String)
    ensures
        r@ == chapter_dir_of(root@, comic@, chapter@),
{
    let mut p = chars_of(root);
    push_all(&mut p, chars_of("/").as_slice());
    push_all(&mut p, chars_of(comic).as_slice());
    push_all(&mut p, chars_of("/").as_slice());
    push_all(&mut p, chars_of(chapter).as_slice());
    string_of(p.as_slice())
}

/// The archive file of one chapter under `root`: `root/comic/chapter.cbz`.
pub fn archive_path(root: &str, comic: &str, chapter: &str) -> (r: String)
    ensures
        r@ == chapter_dir_of(root@, comic@, chapter@) + ".cbz"@,
{
    let d = chapter_dir(root, comic, chapter);
    let mut p = chars_of(d.as_str());
    push_all(&mut p, chars_of(".cbz").as_slice());
    string_of(p.as_slice())
}

/// Whether the requested output format is the comic book archive.
pub fn is_archive_format(format: Option<&str>) -> (r: bool)
    ensures
        r == (format is Some && format->Some_0@ == "cbz"@),
{
    match format {
        Some(f) => chars_equal(chars_of(f).as_slice(), chars_of("cbz").as_slice()),
        None => false,
    }
}

} // verus!
