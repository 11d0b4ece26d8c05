use vstd::prelude::*;
use crate::text::{chars_of, chars_equal, string_of};

verus! {

/// What can go wrong in the pipeline.
#[derive(Clone, Copy, Debug, PartialEq, Eq, Structural)]
pub enum ComicError {
    /// Transport failure or timeout.
    NetworkError,
    /// Markup is present but the expected structure is absent.
    ParseError,
    /// Zero results where one was required.
    NotFound,
    /// Chapter bounds outside the chapter list.
    InvalidRange,
    /// No file extension can be derived from an image URL.
    MalformedUrl,
    /// The archive could not be created.
    PackError,
    /// A filesystem operation failed.
    IoError,
}

/// Publication status of a comic, as the catalog reports it.
#[derive(Clone, Copy, Debug, PartialEq, Eq, Structural)]
pub enum ComicStatus {
    Unknown,
    Ongoing,
    Suspended,
    Completed,
}

/// The status that a status line denotes: a closed, exact-match vocabulary.
pub open spec fn status_of(text: Seq<char>) -> ComicStatus {
    if text == "Status : Ongoing"@ {
        ComicStatus::Ongoing
    } else if text == "Status : Completed"@ {
        ComicStatus::Completed
    } else {
        ComicStatus::Unknown
    }
}

pub open spec fn status_name(s: ComicStatus) -> Seq<char> {
    match s {
        ComicStatus::Unknown => "Unknown"@,
        ComicStatus::Ongoing => "Ongoing"@,
        ComicStatus::Suspended => "Suspended"@,
        ComicStatus::Completed => "Completed"@,
    }
}

impl ComicStatus {
    /// Maps a status line to a status: only the two exact lines the catalog uses are
    /// recognised, everything else is `Unknown`.
    pub fn from_status_text(text: &str) -> (r: ComicStatus)
        ensures
            r == status_of(text@),
    {
        let t = chars_of(text);
        let ongoing = chars_of("Status : Ongoing");
        let completed = chars_of("Status : Completed");
        if chars_equal(t.as_slice(), ongoing.as_slice()) {
            ComicStatus::Ongoing
        } else if chars_equal(t.as_slice(), completed.as_slice()) {
            ComicStatus::Completed
        } else {
            ComicStatus::Unknown
        }
    }

    /// The variant's name, as shown to a user.
    pub fn name(&self) -> (r: String)
        ensures
            r@ == status_name(*self),
    {
        let cs = match self {
            ComicStatus::Unknown => chars_of("Unknown"),
            ComicStatus::Ongoing => chars_of("Ongoing"),
            ComicStatus::Suspended => chars_of("Suspended"),
            ComicStatus::Completed => chars_of("Completed"),
        };
        string_of(cs.as_slice())
    }
}

/// A calendar date and wall-clock time, without a time zone.
#[derive(Clone, Copy, Debug, PartialEq, Eq, Structural)]
pub struct Timestamp {
    pub year: i32,
    pub month: u32,
    pub day: u32,
    pub hour: u32,
    pub minute: u32,
    pub second: u32,
}

impl Timestamp {
    pub open spec fn wf(&self) -> bool {
        &&& 1 <= self.month <= 12
        &&& 1 <= self.day <= 31
        &&& self.hour < 24
        &&& self.minute < 60
        &&& self.second < 60
    }
}

/// Metadata of one comic, recomputed on every request.
pub struct ComicData {
    pub name: String,
    pub url: String,
    pub status: ComicStatus,
    pub last_update: Option<Timestamp>,
    pub chapters: usize,
}

impl ComicData {
    /// Metadata that knows only the comic's identity and chapter count: status
    /// `Unknown` and no last update.
    pub fn new(name: String, url: String, chapters: usize) -> (r: ComicData)
        ensures
            r.name@ == name@,
            r.url@ == url@,
            r.status == ComicStatus::Unknown,
            r.last_update.is_none(),
            r.chapters == chapters,
    {
        ComicData { name, url, status: ComicStatus::Unknown, last_update: None, chapters }
    }
}

/// One downloadable unit of a comic.
pub trait Chapter {
    spec fn name_view(&self) -> Seq<char>;

    spec fn url_view(&self) -> Seq<char>;

    fn get_name(&self) -> (r: String)
        ensures
            r@ == self.name_view(),
    ;

    fn get_url(&self) -> (r: String)
        ensures
            r@ == self.url_view(),
    ;
}

/// One catalog entry.
pub trait Comic {
    spec fn name_view(&self) -> Seq<char>;

    spec fn url_view(&self) -> Seq<char>;

    fn get_name(&self) -> (r: String)
        ensures
            r@ == self.name_view(),
    ;

    fn get_url(&self) -> (r: String)
        ensures
            r@ == self.url_view(),
    ;
}

/// A catalog site.
pub trait ComicScraper {
    spec fn name_view(&self) -> Seq<char>;

    fn get_name(&self) -> (r: String)
        ensures
            r@ == self.name_view(),
    ;
}

} // verus!
