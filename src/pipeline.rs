use vstd::prelude::*;
use crate::comic::{ComicData, ComicError, ComicStatus, status_of};
use crate::markup::parsed_timestamp;
use crate::paths::{archive_path, chapter_dir, chapter_dir_of, get_tmp_path, tmp_root};
use crate::selection::{by_number, resolve_range, select_chapters};
use crate::w5m::{W5MChapter, W5MComic, chapter_count, chapters_view, first_text, update_format};

verus! {

/// The work on one chapter of a download: where its images go, and the archive to pack
/// them into, if any.
pub struct ChapterJob {
    /// The chapter number, counted from the oldest chapter.
    pub number: usize,
    pub chapter: W5MChapter,
    pub dir: String,
    pub archive: Option<String>,
}

/// Whether `job` is the work on chapter number `n` of `chapters` for comic `comic`, with
/// images under `work_root` and, when packing, the archive under `comic_root`.
pub open spec fn job_matches(
    job: ChapterJob,
    chapters: Seq<(Seq<char>, Seq<char>)>,
    n: int,
    comic: Seq<char>,
    work_root: Seq<char>,
    comic_root: Seq<char>,
    pack: bool,
) -> bool {
    let ch = by_number(chapters, n);
    &&& job.number == n
    &&& job.chapter@ == ch
    &&& job.dir@ == chapter_dir_of(work_root, comic, ch.0)
    &&& if pack {
        job.archive is Some && job.archive->Some_0@ == chapter_dir_of(comic_root, comic, ch.0)
            + ".cbz"@
    } else {
        job.archive is None
    }
}

/// The chapters to download for `comic`, oldest first, with their directories: the range
/// `from..=to` (defaulting to all chapters) must lie within the chapter list, else
/// `InvalidRange`. Images go under the staging directory when packing, else under
/// `comic_root`; archives go under `comic_root`.
pub fn plan_download(
    comic: &W5MComic,
    chapters: &Vec<W5MChapter>,
    from: Option<usize>,
    to: Option<usize>,
    pack: bool,
    comic_root: &str,
) -> (r: Result<Vec<ChapterJob>, ComicError>)
    ensures
        ({
            let len = chapters@.len();
            let f = match from {
                Some(f) => f as int,
                None => 1,
            };
            let t = match to {
                Some(t) => t as int,
                None => len as int,
            };
            let work_root = if pack {
                tmp_root()
            } else {
                comic_root@
            };
            &&& r is Ok <==> 1 <= f <= t <= len
            &&& r matches Err(e) ==> e == ComicError::InvalidRange
            &&& r matches Ok(jobs) ==> {
                &&& jobs@.len() == t - f + 1
                &&& forall|k: int|
                    0 <= k < jobs@.len() ==> job_matches(
                        #[trigger] jobs@[k],
                        chapters_view(chapters@),
                        f + k,
                        comic.name@,
                        work_root,
                        comic_root@,
                        pack,
                    )
            }
        }),
{
    let range = match resolve_range(from, to, chapters.len()) {
        Ok(g) => g,
        Err(e) => return Err(e),
    };
    let selected = select_chapters(chapters, range);
    let work_root = if pack {
        get_tmp_path()
    } else {
        let cs = crate::text::chars_of(comic_root);
        crate::text::string_of(cs.as_slice())
    };
    let mut jobs: Vec<ChapterJob> = Vec::new();
    let mut k: usize = 0;
    while k < selected.len()
        invariant
            range.valid_for(chapters@.len() as nat),
            selected@.len() == range.to - range.from + 1,
            forall|j: int|
                0 <= j < selected@.len() ==> (#[trigger] selected@[j])@ == by_number(
                    chapters_view(chapters@),
                    range.from + j,
                ),
            work_root@ == if pack {
                tmp_root()
            } else {
                comic_root@
            },
            k <= selected@.len(),
            jobs@.len() == k,
            forall|j: int|
                0 <= j < k ==> job_matches(
                    #[trigger] jobs@[j],
                    chapters_view(chapters@),
                    range.from + j,
                    comic.name@,
                    work_root@,
                    comic_root@,
                    pack,
                ),
        decreases selected@.len() - k,
    {
        let ch = &selected[k];
        assert(ch@ == selected@[k as int]@);
        let dir = chapter_dir(work_root.as_str(), comic.name.as_str(), ch.name.as_str());
        let archive = if pack {
            Some(archive_path(comic_root, comic.name.as_str(), ch.name.as_str()))
        } else {
            None
        };
        jobs.push(ChapterJob { number: range.from + k, chapter: ch.duplicate(), dir, archive });
        k = k + 1;
    }
    Ok(jobs)
}

impl W5MComic {
    /// The metadata on this comic's detail page `markup`; when the page lacks the status
    /// or last-update line, the partial metadata: status `Unknown`, no last update, and
    /// the chapter count that the page still gives.
    pub fn data_or_partial(&self, markup: &str) -> (r: ComicData)
        ensures
            r.name@ == self.name@,
            r.url@ == self.url@,
            r.chapters == chapter_count(markup@),
            (first_text(markup@, crate::w5m::status_selector()) is None || first_text(
                markup@,
                crate::w5m::update_selector(),
            ) is None) ==> r.status == ComicStatus::Unknown && r.last_update is None,
            (first_text(markup@, crate::w5m::status_selector()) is Some && first_text(
                markup@,
                crate::w5m::update_selector(),
            ) is Some) ==> r.status == status_of(
                first_text(markup@, crate::w5m::status_selector())->Some_0,
            ) && r.last_update == parsed_timestamp(
                first_text(markup@, crate::w5m::update_selector())->Some_0,
                update_format(),
            ),
    {
        match self.parse_data(markup) {
            Ok(d) => d,
            Err(_) => {
                let count = match self.parse_chapters(markup) {
                    Ok(v) => v.len(),
                    Err(_) => 0,
                };
                ComicData::new(self.name.clone(), self.url.clone(), count)
            },
        }
    }
}

} // verus!
