use vstd::prelude::*;
use crate::comic::ComicError;
use crate::text::{chars_of, string_of};

verus! {

/// One entry of a directory listing.
pub struct DirEntry {
    pub name: String,
    pub is_file: bool,
}

/// The last `/` in `p` before `k`; -1 when there is none.
pub open spec fn last_slash(p: Seq<char>, k: int) -> int
    decreases k,
{
    if k <= 0 || k > p.len() {
        -1
    } else if p[k - 1] == '/' {
        k - 1
    } else {
        last_slash(p, k - 1)
    }
}

/// `p` without its directories.
pub open spec fn base_name(p: Seq<char>) -> Seq<char> {
    p.subrange(last_slash(p, p.len() as int) + 1, p.len() as int)
}

/// The names under which the regular files among `entries` go into an archive, in listing
/// order; directories are skipped.
pub open spec fn archive_names(entries: Seq<(Seq<char>, bool)>) -> Seq<Seq<char>>
    decreases entries.len(),
{
    if entries.len() == 0 {
        Seq::empty()
    } else {
        let rest = archive_names(entries.drop_last());
        if entries.last().1 {
            rest.push(base_name(entries.last().0))
        } else {
            rest
        }
    }
}

/// The number of regular files among `entries`.
pub open spec fn file_count(entries: Seq<(Seq<char>, bool)>) -> nat
    decreases entries.len(),
{
    if entries.len() == 0 {
        0
    } else {
        file_count(entries.drop_last()) + if entries.last().1 {
            1nat
        } else {
            0nat
        }
    }
}

/// No `/` follows the last one.
proof fn lemma_after_last_slash(p: Seq<char>, k: int, j: int)
    requires
        0 <= k <= p.len(),
        last_slash(p, k) < j < k,
    ensures
        p[j] != '/',
    decreases k,
{
    if p[k - 1] != '/' && j < k - 1 {
        lemma_after_last_slash(p, k - 1, j);
    }
}

/// A base name holds no `/`.
pub proof fn lemma_base_name_flat(p: Seq<char>)
    ensures
        forall|j: int| 0 <= j < base_name(p).len() ==> #[trigger] base_name(p)[j] != '/',
{
    let s = last_slash(p, p.len() as int);
    assert(-1 <= s < p.len()) by {
        lemma_last_slash_range(p, p.len() as int);
    }
    assert forall|j: int| 0 <= j < base_name(p).len() implies #[trigger] base_name(p)[j] != '/' by {
        lemma_after_last_slash(p, p.len() as int, s + 1 + j);
    }
}

proof fn lemma_last_slash_range(p: Seq<char>, k: int)
    requires
        0 <= k <= p.len(),
    ensures
        -1 <= last_slash(p, k) < k,
    decreases k,
{
    if k > 0 && p[k - 1] != '/' {
        lemma_last_slash_range(p, k - 1);
    }
}

/// The archive names of a listing are one per regular file, each a flat name.
pub proof fn lemma_archive_names_flat(entries: Seq<(Seq<char>, bool)>)
    ensures
        archive_names(entries).len() == file_count(entries),
        forall|i: int, j: int|
            0 <= i < archive_names(entries).len() && 0 <= j < archive_names(entries)[i].len()
                ==> #[trigger] archive_names(entries)[i][j] != '/',
    decreases entries.len(),
{
    if entries.len() > 0 {
        let rest = entries.drop_last();
        lemma_archive_names_flat(rest);
        lemma_base_name_flat(entries.last().0);
        let a = archive_names(entries);
        assert forall|i: int, j: int| 0 <= i < a.len() && 0 <= j < a[i].len() implies #[trigger] a[i][j]
            != '/' by {
            if i < archive_names(rest).len() {
                assert(a[i] == archive_names(rest)[i]);
            } else {
                assert(a[i] == base_name(entries.last().0));
            }
        }
    }
}

pub open spec fn entries_view(v: Seq<DirEntry>) -> Seq<(Seq<char>, bool)> {
    v.map_values(|e: DirEntry| (e.name@, e.is_file))
}

/// `p` without its directories.
pub fn base_name_of(p: &str) -> (r: String)
    ensures
        r@ == base_name(p@),
{
    let cs = chars_of(p);
    let n = cs.len();
    let mut k: usize = n;
    while k > 0 && cs[k - 1] != '/'
        invariant
            k <= n == cs@.len(),
            cs@ == p@,
            last_slash(p@, n as int) == last_slash(p@, k as int),
        decreases k,
    {
        k = k - 1;
    }
    let mut out: Vec<char> = Vec::new();
    let mut j: usize = k;
    while j < n
        invariant
            k <= j <= n == cs@.len(),
            out@ == cs@.subrange(k as int, j as int),
        decreases n - j,
    {
        assert(cs@.subrange(k as int, j + 1) =~= cs@.subrange(k as int, j as int).push(
            cs@[j as int],
        ));
        out.push(cs[j]);
        j = j + 1;
    }
    string_of(out.as_slice())
}

/// The names under which the regular files of a directory listing go into a chapter's
/// archive: base names only, directories skipped. A `PackError` when there is no file to
/// pack.
pub fn archive_entries(entries: &Vec<DirEntry>) -> (r: Result<Vec<String>, ComicError>)
    ensures
        r matches Ok(v) ==> v@.map_values(|s: String| s@) == archive_names(
            entries_view(entries@),
        ) && v@.len() > 0,
        r matches Ok(v) ==> v@.len() == file_count(entries_view(entries@)),
        r matches Ok(v) ==> forall|i: int, j: int|
            0 <= i < v@.len() && 0 <= j < v@[i]@.len() ==> #[trigger] v@[i]@[j] != '/',
        r is Err <==> archive_names(entries_view(entries@)).len() == 0,
        r matches Err(e) ==> e == ComicError::PackError,
{
    let ghost ev = entries_view(entries@);
    let mut out: Vec<String> = Vec::new();
    let mut i: usize = 0;
    while i < entries.len()
        invariant
            i <= entries@.len(),
            ev == entries_view(entries@),
            out@.map_values(|s: String| s@) == archive_names(ev.take(i as int)),
        decreases entries@.len() - i,
    {
        let ghost p = ev.take(i as int + 1);
        assert(p.drop_last() =~= ev.take(i as int));
        assert(p.last() == (entries@[i as int].name@, entries@[i as int].is_file));
        if entries[i].is_file {
            let ghost before = out@;
            out.push(base_name_of(entries[i].name.as_str()));
            assert(out@.map_values(|s: String| s@) =~= before.map_values(|s: String| s@).push(
                base_name(entries@[i as int].name@),
            ));
        }
        i = i + 1;
    }
    assert(ev.take(entries@.len() as int) =~= ev);
    proof {
        lemma_archive_names_flat(ev);
        assert forall|i: int, j: int| 0 <= i < out@.len() && 0 <= j < out@[i]@.len() implies #[trigger] out@[i]@[j]
            != '/' by {
            assert(out@.map_values(|s: String| s@)[i] == out@[i]@);
            assert(archive_names(ev)[i][j] != '/');
        }
    }
    if out.len() == 0 {
        Err(ComicError::PackError)
    } else {
        Ok(out)
    }
}

} // verus!

verus! {

/// A zip archive being written in memory.
#[verifier::external_body]
pub struct ArchiveWriter {
    inner: zip::ZipWriter<std::io::Cursor<Vec<u8>>>,
}

#[verifier::external_type_specification]
#[verifier::external_body]
pub struct ExZipError(zip::result::ZipError);

#[verifier::external_type_specification]
#[verifier::external_body]
pub struct ExIoError(std::io::Error);

/// The files that an archive being written holds so far, in order: name and contents.
pub uninterp spec fn zip_entries(z: ArchiveWriter) -> Seq<
    (Seq<char>, Seq<u8>),
>;

/// Whether the archive being written is still open: not finished, and every call on it so
/// far has succeeded.
pub uninterp spec fn zip_open(z: ArchiveWriter) -> bool;

/// Whether the file started last, if any, is small enough that finishing it succeeds:
/// under 2 GiB, so that its deflated form stays under the 4 GiB that a file without the
/// large-file option may take.
pub open spec fn last_file_fits(entries: Seq<(Seq<char>, Seq<u8>)>) -> bool {
    entries.len() == 0 || entries.last().1.len() < 0x8000_0000
}

/// The bytes of the finished archive holding `entries`, deflate-compressed, with default
/// file options.
pub uninterp spec fn zip_archive_of(entries: Seq<(Seq<char>, Seq<u8>)>) -> Seq<u8>;

/// Relies on `zip::ZipWriter::new`: a new archive is open and holds no file.
#[verifier::external_body]
fn zip_new() -> (r: ArchiveWriter)
    ensures
        zip_entries(r) == Seq::<(Seq<char>, Seq<u8>)>::empty(),
        zip_open(r),
{
    ArchiveWriter { inner: zip::ZipWriter::new(std::io::Cursor::new(Vec::new())) }
}

/// Relies on `zip::ZipWriter::start_file` with default options: on success the archive
/// holds one more, empty, file named `name`. Writing into memory, it fails only when the
/// writer is finished or the previous file is too large to finish.
#[verifier::external_body]
fn zip_start_file(z: &mut ArchiveWriter, name: &str) -> (r: Result<
    (),
    zip::result::ZipError,
>)
    ensures
        r is Ok ==> zip_entries(*final(z)) == zip_entries(*old(z)).push((name@, Seq::empty())),
        r is Ok ==> zip_open(*final(z)),
        zip_open(*old(z)) && last_file_fits(zip_entries(*old(z))) ==> r is Ok,
{
    z.inner.start_file(name, zip::write::FileOptions::default())
}

/// Relies on `Write::write_all` for `zip::ZipWriter`: on success, when a file has been
/// started, `data` is appended to the contents of the file started last. Writing into
/// memory, it fails on an open writer with a started file only when that file would
/// exceed 4 GiB.
#[verifier::external_body]
fn zip_write(z: &mut ArchiveWriter, data: &[u8]) -> (r: Result<
    (),
    std::io::Error,
>)
    ensures
        r is Ok && zip_entries(*old(z)).len() > 0 ==> zip_entries(*final(z)) == zip_entries(
            *old(z),
        ).drop_last().push(
            (zip_entries(*old(z)).last().0, zip_entries(*old(z)).last().1 + data@),
        ),
        r is Ok && zip_open(*old(z)) && zip_entries(*old(z)).len() > 0 ==> zip_open(*final(z)),
        zip_open(*old(z)) && zip_entries(*old(z)).len() > 0 && zip_entries(*old(z)).last().1.len()
            + data@.len() <= 0xFFFF_FFFF ==> r is Ok,
{
    std::io::Write::write_all(&mut z.inner, data)
}

/// Relies on `zip::ZipWriter::finish`: on success, the bytes of the archive that holds
/// what was written. Writing into memory, it fails only when the writer is finished or
/// the last file is too large to finish.
#[verifier::external_body]
fn zip_finish(z: &mut ArchiveWriter) -> (r: Result<
    Vec<u8>,
    zip::result::ZipError,
>)
    ensures
        r matches Ok(b) ==> b@ == zip_archive_of(zip_entries(*old(z))),
        zip_open(*old(z)) && last_file_fits(zip_entries(*old(z))) ==> r is Ok,
{
    z.inner.finish().map(|c| c.into_inner())
}

pub open spec fn files_view(names: Seq<String>, contents: Seq<Vec<u8>>) -> Seq<
    (Seq<char>, Seq<u8>),
> {
    Seq::new(names.len(), |i: int| (names[i]@, contents[i]@))
}

/// A compressed archive holding one file per name, with the contents at the same
/// position, in order. A `PackError` when there is no file or the archive cannot be
/// written, which happens only for a file of 2 GiB or more.
pub fn pack_archive(names: &Vec<String>, contents: &Vec<Vec<u8>>) -> (r: Result<
    Vec<u8>,
    ComicError,
>)
    requires
        names@.len() == contents@.len(),
    ensures
        r matches Ok(b) ==> names@.len() > 0 && b@ == zip_archive_of(
            files_view(names@, contents@),
        ),
        r matches Err(e) ==> e == ComicError::PackError,
        names@.len() == 0 ==> r is Err,
        names@.len() > 0 && (forall|i: int|
            0 <= i < contents@.len() ==> (#[trigger] contents@[i])@.len() < 0x8000_0000) ==> r is Ok,
{
    if names.len() == 0 {
        return Err(ComicError::PackError);
    }
    let mut z = zip_new();
    let mut i: usize = 0;
    while i < names.len()
        invariant
            i <= names@.len() == contents@.len(),
            zip_entries(z) == files_view(names@, contents@).take(i as int),
            zip_open(z),
        decreases names@.len() - i,
    {
        proof {
            if i > 0 {
                assert(zip_entries(z).last() == files_view(names@, contents@)[i - 1]);
            }
        }
        if zip_start_file(&mut z, names[i].as_str()).is_err() {
            return Err(ComicError::PackError);
        }
        if zip_write(&mut z, contents[i].as_slice()).is_err() {
            return Err(ComicError::PackError);
        }
        assert(zip_entries(z) =~= files_view(names@, contents@).take(i as int + 1));
        i = i + 1;
    }
    assert(files_view(names@, contents@).take(names@.len() as int) =~= files_view(
        names@,
        contents@,
    ));
    assert(zip_entries(z).last() == files_view(names@, contents@)[names@.len() - 1]);
    match zip_finish(&mut z) {
        Ok(b) => Ok(b),
        Err(_) => Err(ComicError::PackError),
    }
}

} // verus!
