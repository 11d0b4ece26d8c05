use vstd::prelude::*;
use crate::comic::ComicError;
use crate::text::{chars_of, push_all, string_of};

verus! {

/// The decimal digit of `d < 10`.
pub open spec fn digit_char(d: nat) -> char {
    (0x30 + d) as char
}

/// The decimal representation of `n`, without leading zeros.
pub open spec fn decimal(n: nat) -> Seq<char>
    decreases n,
{
    if n < 10 {
        seq![digit_char(n)]
    } else {
        decimal(n / 10).push(digit_char(n % 10))
    }
}

/// The decimal digits of `n`.
pub fn decimal_chars(n: usize) -> (r: Vec<char>)
    ensures
        r@ == decimal(n as nat),
    decreases n,
{
    let d: u8 = (n % 10) as u8;
    let c: char = (0x30u8 + d) as char;
    if n < 10 {
        let mut v: Vec<char> = Vec::new();
        v.push(c);
        assert(v@ =~= seq![digit_char(n as nat)]);
        v
    } else {
        let mut v = decimal_chars(n / 10);
        v.push(c);
        v
    }
}

pub open spec fn is_query_mark(c: char) -> bool {
    c == '?' || c == '#'
}

/// Where the address part of `u` ends: at the first `?` or `#` from `i` on, else at the end.
pub open spec fn address_end(u: Seq<char>, i: int) -> int
    decreases u.len() - i,
{
    if i < 0 || i >= u.len() {
        u.len() as int
    } else if is_query_mark(u[i]) {
        i
    } else {
        address_end(u, i + 1)
    }
}

/// The first `//` in `u` at or after `i` and before `end`; -1 when there is none.
pub open spec fn double_slash(u: Seq<char>, i: int, end: int) -> int
    decreases end - i,
{
    if i < 0 || i + 1 >= end || end > u.len() {
        -1
    } else if u[i] == '/' && u[i + 1] == '/' {
        i
    } else {
        double_slash(u, i + 1, end)
    }
}

/// The first `/` in `u` at or after `i` and before `end`; `end` when there is none.
pub open spec fn slash_from(u: Seq<char>, i: int, end: int) -> int
    decreases end - i,
{
    if i < 0 || i >= end || end > u.len() {
        end
    } else if u[i] == '/' {
        i
    } else {
        slash_from(u, i + 1, end)
    }
}

/// The path of URL `u`: after the host (when `u` names one with `//`) and before any
/// query or fragment.
pub open spec fn url_path(u: Seq<char>) -> Seq<char> {
    let e = address_end(u, 0);
    let d = double_slash(u, 0, e);
    let start = if d < 0 {
        0
    } else {
        slash_from(u, d + 2, e)
    };
    u.subrange(start, e)
}

/// The last `.` in `p` before `k`; -1 when there is none.
pub open spec fn last_dot(p: Seq<char>, k: int) -> int
    decreases k,
{
    if k <= 0 || k > p.len() {
        -1
    } else if p[k - 1] == '.' {
        k - 1
    } else {
        last_dot(p, k - 1)
    }
}

/// The file extension of an image URL: what follows the last `.` of its path.
pub open spec fn extension_of(u: Seq<char>) -> Option<Seq<char>> {
    let p = url_path(u);
    let d = last_dot(p, p.len() as int);
    if d < 0 {
        None
    } else {
        Some(p.subrange(d + 1, p.len() as int))
    }
}

fn find_address_end(u: &Vec<char>) -> (r: usize)
    ensures
        r == address_end(u@, 0),
        r <= u@.len(),
{
    let mut i: usize = 0;
    while i < u.len() && !(u[i] == '?' || u[i] == '#')
        invariant
            i <= u@.len(),
            address_end(u@, 0) == address_end(u@, i as int),
        decreases u@.len() - i,
    {
        i = i + 1;
    }
    i
}

fn find_double_slash(u: &Vec<char>, end: usize) -> (r: Option<usize>)
    requires
        end <= u@.len(),
    ensures
        r matches Some(d) ==> d == double_slash(u@, 0, end as int) && d + 2 <= end,
        r is None ==> double_slash(u@, 0, end as int) == -1,
{
    let mut i: usize = 0;
    while i < end && i + 1 < end
        invariant
            end <= u@.len(),
            double_slash(u@, 0, end as int) == double_slash(u@, i as int, end as int),
        decreases end - i,
    {
        if u[i] == '/' && u[i + 1] == '/' {
            return Some(i);
        }
        i = i + 1;
    }
    None
}

fn find_slash(u: &Vec<char>, from: usize, end: usize) -> (r: usize)
    requires
        from <= end <= u@.len(),
    ensures
        r == slash_from(u@, from as int, end as int),
        from <= r <= end,
{
    let mut i: usize = from;
    while i < end && u[i] != '/'
        invariant
            from <= i <= end <= u@.len(),
            slash_from(u@, from as int, end as int) == slash_from(u@, i as int, end as int),
        decreases end - i,
    {
        i = i + 1;
    }
    i
}

/// The file extension of image URL `url`: the text after the last `.` of its path; a
/// `MalformedUrl` error when the path holds no `.`.
pub fn file_extension(url: &str) -> (r: Result<String, ComicError>)
    ensures
        r matches Ok(e) ==> extension_of(url@) == Some(e@),
        r is Err ==> extension_of(url@) is None,
        r matches Err(e) ==> e == ComicError::MalformedUrl,
{
    let u = chars_of(url);
    let e = find_address_end(&u);
    let start = match find_double_slash(&u, e) {
        Some(d) => find_slash(&u, d + 2, e),
        None => 0,
    };
    let ghost p = u@.subrange(start as int, e as int);
    assert(p == url_path(url@));
    let mut k: usize = e - start;
    while k > 0 && u[start + k - 1] != '.'
        invariant
            start + k <= e <= u@.len(),
            p == u@.subrange(start as int, e as int),
            last_dot(p, p.len() as int) == last_dot(p, k as int),
        decreases k,
    {
        k = k - 1;
    }
    if k == 0 {
        return Err(ComicError::MalformedUrl);
    }
    let mut out: Vec<char> = Vec::new();
    let mut j: usize = start + k;
    while j < e
        invariant
            start + k <= j <= e <= u@.len(),
            out@ == u@.subrange(start + k, j as int),
        decreases e - j,
    {
        assert(u@.subrange(start + k, j + 1) =~= u@.subrange(start + k, j as int).push(
            u@[j as int],
        ));
        out.push(u[j]);
        j = j + 1;
    }
    assert(p.subrange(k as int, p.len() as int) =~= u@.subrange(start + k, e as int));
    Ok(string_of(out.as_slice()))
}

/// The file name of image `index` with extension `ext`.
pub open spec fn image_file_name(index: nat, ext: Seq<char>) -> Seq<char> {
    decimal(index) + "."@ + ext
}

/// Where image `index` at `url` is written inside `dir`, or why it cannot be.
pub open spec fn image_target(dir: Seq<char>, index: nat, url: Seq<char>) -> Result<
    Seq<char>,
    ComicError,
> {
    match extension_of(url) {
        Some(ext) => Ok(dir + "/"@ + image_file_name(index, ext)),
        None => Err(ComicError::MalformedUrl),
    }
}

pub open spec fn target_view(r: Result<String, ComicError>) -> Result<Seq<char>, ComicError> {
    match r {
        Ok(s) => Ok(s@),
        Err(e) => Err(e),
    }
}

/// The file path for each image of a chapter, in page order: `dir/{index}.{ext}`, or a
/// `MalformedUrl` error for an image whose extension cannot be derived.
pub fn image_targets(dir: &str, urls: &Vec<String>) -> (r: Vec<Result<String, ComicError>>)
    ensures
        r@.len() == urls@.len(),
        forall|i: int|
            0 <= i < urls@.len() ==> target_view(#[trigger] r@[i]) == image_target(
                dir@,
                i as nat,
                urls@[i]@,
            ),
{
    let mut out: Vec<Result<String, ComicError>> = Vec::new();
    let mut i: usize = 0;
    while i < urls.len()
        invariant
            i <= urls@.len(),
            out@.len() == i,
            forall|j: int|
                0 <= j < i ==> target_view(#[trigger] out@[j]) == image_target(
                    dir@,
                    j as nat,
                    urls@[j]@,
                ),
        decreases urls@.len() - i,
    {
        match file_extension(urls[i].as_str()) {
            Ok(ext) => {
                let mut p = chars_of(dir);
                push_all(&mut p, chars_of("/").as_slice());
                push_all(&mut p, decimal_chars(i).as_slice());
                push_all(&mut p, chars_of(".").as_slice());
                push_all(&mut p, chars_of(ext.as_str()).as_slice());
                assert(p@ =~= dir@ + "/"@ + image_file_name(i as nat, ext@));
                out.push(Ok(string_of(p.as_slice())));
            },
            Err(e) => {
                out.push(Err(e));
            },
        }
        i = i + 1;
    }
    out
}

} // verus!

verus! {

/// One image of a chapter that could not be saved.
pub struct FailedImage {
    pub index: usize,
    pub url: String,
    pub error: ComicError,
}

/// What materializing one chapter achieved.
pub struct DownloadReport {
    pub succeeded: usize,
    pub failed: Vec<FailedImage>,
}

/// What became of one image of a chapter.
#[derive(Clone, Copy, Debug, PartialEq, Eq, Structural)]
pub enum ImageOutcome {
    /// The image was written to its file.
    Saved,
    /// The image could not be saved.
    Failed(ComicError),
    /// The image was not attempted.
    Skipped,
}

/// Whether to go on with the remaining images of a chapter after one fails.
#[derive(Clone, Copy, Debug, PartialEq, Eq, Structural)]
pub enum FailurePolicy {
    SkipAndContinue,
    Abort,
}

pub open spec fn failed_view(f: FailedImage) -> (nat, Seq<char>, ComicError) {
    (f.index as nat, f.url@, f.error)
}

/// The failures among the first `outcomes.len()` images, by index: for each image that
/// failed, its index, URL and error.
pub open spec fn failures(urls: Seq<Seq<char>>, outcomes: Seq<ImageOutcome>) -> Seq<
    (nat, Seq<char>, ComicError),
>
    decreases outcomes.len(),
{
    if outcomes.len() == 0 {
        Seq::empty()
    } else {
        let k = (outcomes.len() - 1) as int;
        let rest = failures(urls, outcomes.drop_last());
        match outcomes[k] {
            ImageOutcome::Failed(e) => rest.push((k as nat, urls[k], e)),
            _ => rest,
        }
    }
}

/// The number of images that were saved.
pub open spec fn successes(outcomes: Seq<ImageOutcome>) -> nat
    decreases outcomes.len(),
{
    if outcomes.len() == 0 {
        0
    } else {
        successes(outcomes.drop_last()) + if outcomes.last() is Saved {
            1nat
        } else {
            0nat
        }
    }
}

/// Failures come in increasing order of index, each below the number of outcomes; saved
/// and failed images together are at most the images.
pub proof fn lemma_failures_sorted(urls: Seq<Seq<char>>, outcomes: Seq<ImageOutcome>)
    ensures
        forall|i: int, j: int|
            0 <= i < j < failures(urls, outcomes).len() ==> (#[trigger] failures(urls, outcomes)[i]).0
                < (#[trigger] failures(urls, outcomes)[j]).0,
        forall|i: int|
            0 <= i < failures(urls, outcomes).len() ==> (#[trigger] failures(urls, outcomes)[i]).0
                < outcomes.len(),
        successes(outcomes) + failures(urls, outcomes).len() <= outcomes.len(),
    decreases outcomes.len(),
{
    if outcomes.len() > 0 {
        lemma_failures_sorted(urls, outcomes.drop_last());
    }
}

/// Whether the next image is attempted after one with `outcome`, under `policy`.
pub fn keep_going(policy: FailurePolicy, outcome: ImageOutcome) -> (r: bool)
    ensures
        r == (!(outcome is Failed) || policy == FailurePolicy::SkipAndContinue),
{
    match outcome {
        ImageOutcome::Failed(_) => match policy {
            FailurePolicy::SkipAndContinue => true,
            FailurePolicy::Abort => false,
        },
        _ => true,
    }
}

impl DownloadReport {
    /// The report on the first `outcomes.len()` images of `urls`, where `outcomes[i]` is
    /// what became of image `i`: the number saved, and the failures in index order.
    pub fn from_outcomes(urls: &Vec<String>, outcomes: &Vec<ImageOutcome>) -> (r:
        DownloadReport)
        requires
            outcomes@.len() <= urls@.len(),
        ensures
            r.succeeded == successes(outcomes@),
            r.failed@.map_values(|f: FailedImage| failed_view(f)) == failures(
                urls@.map_values(|s: String| s@),
                outcomes@,
            ),
    {
        let ghost us = urls@.map_values(|s: String| s@);
        let mut succeeded: usize = 0;
        let mut failed: Vec<FailedImage> = Vec::new();
        let mut i: usize = 0;
        while i < outcomes.len()
            invariant
                i <= outcomes@.len() <= urls@.len(),
                us == urls@.map_values(|s: String| s@),
                succeeded == successes(outcomes@.take(i as int)),
                succeeded <= i,
                failed@.map_values(|f: FailedImage| failed_view(f)) == failures(
                    us,
                    outcomes@.take(i as int),
                ),
            decreases outcomes@.len() - i,
        {
            let ghost p = outcomes@.take(i as int + 1);
            assert(p.drop_last() =~= outcomes@.take(i as int));
            match outcomes[i] {
                ImageOutcome::Saved => {
                    succeeded = succeeded + 1;
                },
                ImageOutcome::Skipped => {},
                ImageOutcome::Failed(e) => {
                    let ghost before = failed@;
                    failed.push(FailedImage { index: i, url: urls[i].clone(), error: e });
                    assert(failed@.map_values(|f: FailedImage| failed_view(f)) =~= before.map_values(
                        |f: FailedImage| failed_view(f),
                    ).push((i as nat, us[i as int], e)));
                },
            }
            i = i + 1;
        }
        assert(outcomes@.take(outcomes@.len() as int) =~= outcomes@);
        DownloadReport { succeeded, failed }
    }
}

} // verus!
