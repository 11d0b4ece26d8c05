use vstd::prelude::*;
use vstd::string::StringSliceAdditionalSpecFns;
use crate::comic::{Chapter, Comic, ComicData, ComicError, ComicScraper, ComicStatus, status_of};
use crate::markup::{parse_timestamp, parsed_timestamp, select, selected};
use crate::text::{chars_of, normalize_chars, normalized, push_all, starts_with, string_of};

verus! {

/// Scheme and host of the catalog site.
pub open spec fn site_root() -> Seq<char> {
    "https://ww5.mangakakalot.tv"@
}

/// The absolute form of a link found on the site: absolute links stay as they are,
/// root-relative ones get the site's scheme and host, others are taken relative to the
/// site root.
pub open spec fn resolve_href(href: Seq<char>) -> Seq<char> {
    if (href.len() >= 7 && href.take(7) == "http://"@) || (href.len() >= 8 && href.take(8)
        == "https://"@) {
        href
    } else if href.len() > 0 && href[0] == '/' {
        site_root() + href
    } else {
        site_root() + "/"@ + href
    }
}

/// A named link taken from one matched element: its normalized text and its resolved
/// `href`.
pub open spec fn link_of(m: (Seq<char>, Option<Seq<char>>)) -> (Seq<char>, Seq<char>) {
    (normalized(m.0), resolve_href(m.1->Some_0))
}

/// The links that matched elements denote; `None` when one of them has no `href`.
pub open spec fn links_of(ms: Seq<(Seq<char>, Option<Seq<char>>)>) -> Option<
    Seq<(Seq<char>, Seq<char>)>,
> {
    if forall|i: int| 0 <= i < ms.len() ==> (#[trigger] ms[i]).1 is Some {
        Some(ms.map_values(|m: (Seq<char>, Option<Seq<char>>)| link_of(m)))
    } else {
        None
    }
}

/// Links under `selector` in `markup`: a parse error when the selection fails or a
/// matched element has no `href`.
pub open spec fn links_in(markup: Seq<char>, selector: Seq<char>) -> Result<
    Seq<(Seq<char>, Seq<char>)>,
    ComicError,
> {
    match selected(markup, selector, "href"@) {
        None => Err(ComicError::ParseError),
        Some(ms) => match links_of(ms) {
            Some(ls) => Ok(ls),
            None => Err(ComicError::ParseError),
        },
    }
}

pub open spec fn search_selector() -> Seq<char> {
    "h3.story_name>a"@
}

pub open spec fn chapter_selector() -> Seq<char> {
    ".manga-info-chapter span a"@
}

pub open spec fn status_selector() -> Seq<char> {
    ".manga-info-text li:nth-of-type(3)"@
}

pub open spec fn update_selector() -> Seq<char> {
    ".manga-info-text li:nth-of-type(4)"@
}

pub open spec fn update_format() -> Seq<char> {
    "Last updated : %b %d,%Y - %H:%M %p"@
}

pub open spec fn image_selector() -> Seq<char> {
    "img.img-loading"@
}

/// The image URLs of a reader page, in page order; a parse error when the selection fails
/// or an image carries no `data-src`.
pub open spec fn images_in(markup: Seq<char>) -> Result<Seq<Seq<char>>, ComicError> {
    match selected(markup, image_selector(), "data-src"@) {
        None => Err(ComicError::ParseError),
        Some(ms) => if forall|i: int| 0 <= i < ms.len() ==> (#[trigger] ms[i]).1 is Some {
            Ok(ms.map_values(|m: (Seq<char>, Option<Seq<char>>)| m.1->Some_0))
        } else {
            Err(ComicError::ParseError)
        },
    }
}

pub open spec fn pairs_view(v: Seq<(String, String)>) -> Seq<(Seq<char>, Seq<char>)> {
    v.map_values(|p: (String, String)| (p.0@, p.1@))
}

/// The absolute form of `href`, see `resolve_href`.
pub fn resolve_link(href: &str) -> (r: String)
    ensures
        r@ == resolve_href(href@),
{
    proof {
        reveal_strlit("http://");
        reveal_strlit("https://");
    }
    let h = chars_of(href);
    let http = chars_of("http://");
    let https = chars_of("https://");
    if starts_with(h.as_slice(), http.as_slice()) || starts_with(h.as_slice(), https.as_slice()) {
        return string_of(h.as_slice());
    }
    let mut out = chars_of("https://ww5.mangakakalot.tv");
    if h.len() == 0 || h[0] != '/' {
        let slash = chars_of("/");
        push_all(&mut out, slash.as_slice());
    }
    push_all(&mut out, h.as_slice());
    proof {
        if !(h@.len() > 0 && h@[0] == '/') {
            assert(out@ == site_root() + "/"@ + href@);
        }
    }
    string_of(out.as_slice())
}

/// The named links under `selector` in `markup`, in document order.
fn links(markup: &str, selector: &str) -> (r: Result<Vec<(String, String)>, ComicError>)
    ensures
        r matches Ok(v) ==> links_in(markup@, selector@) == Ok::<_, ComicError>(pairs_view(v@)),
        r matches Err(e) ==> links_in(markup@, selector@) == Err::<Seq<(Seq<char>, Seq<char>)>, _>(e),
{
    let found = select(markup, selector, "href");
    let ms = match found {
        Some(ms) => ms,
        None => return Err(ComicError::ParseError),
    };
    let ghost mv = crate::markup::matches_view(ms@);
    assert(selected(markup@, selector@, "href"@) == Some(mv));
    let mut out: Vec<(String, String)> = Vec::new();
    let mut i: usize = 0;
    while i < ms.len()
        invariant
            i <= ms@.len(),
            mv == crate::markup::matches_view(ms@),
            selected(markup@, selector@, "href"@) == Some(mv),
            forall|j: int| 0 <= j < i ==> (#[trigger] mv[j]).1 is Some,
            out@.len() == i,
            forall|j: int| 0 <= j < i ==> pairs_view(out@)[j] == link_of(#[trigger] mv[j]),
        decreases ms@.len() - i,
    {
        let m = &ms[i];
        assert(mv[i as int] == crate::markup::match_view(ms@[i as int]));
        match &m.1 {
            Some(h) => {
                let text = chars_of(m.0.as_str());
                let name = string_of(normalize_chars(&text).as_slice());
                let url = resolve_link(h.as_str());
                out.push((name, url));
                assert(pairs_view(out@)[i as int] == link_of(mv[i as int]));
            },
            None => {
                assert(!(mv[i as int].1 is Some));
                return Err(ComicError::ParseError);
            },
        }
        i = i + 1;
    }
    assert(pairs_view(out@) =~= mv.map_values(|m: (Seq<char>, Option<Seq<char>>)| link_of(m)));
    Ok(out)
}

/// A chapter of a comic on the catalog site.
pub struct W5MChapter {
    pub name: String,
    pub url: String,
}

impl View for W5MChapter {
    type V = (Seq<char>, Seq<char>);

    open spec fn view(&self) -> (Seq<char>, Seq<char>) {
        (self.name@, self.url@)
    }
}

impl W5MChapter {
    pub fn new(name: String, url: String) -> (r: W5MChapter)
        ensures
            r@ == (name@, url@),
    {
        W5MChapter { name, url }
    }

    /// A copy of this chapter.
    pub fn duplicate(&self) -> (r: W5MChapter)
        ensures
            r@ == self@,
    {
        W5MChapter { name: self.name.clone(), url: self.url.clone() }
    }

    /// The image URLs of this chapter's reader page `markup`, in page order.
    pub fn parse_images(&self, markup: &str) -> (r: Result<Vec<String>, ComicError>)
        ensures
            r matches Ok(v) ==> images_in(markup@) == Ok::<_, ComicError>(
                v@.map_values(|s: String| s@),
            ),
            r matches Err(e) ==> images_in(markup@) == Err::<Seq<Seq<char>>, _>(e),
    {
        let ms = match select(markup, "img.img-loading", "data-src") {
            Some(ms) => ms,
            None => return Err(ComicError::ParseError),
        };
        let ghost mv = selected(markup@, image_selector(), "data-src"@)->Some_0;
        let mut out: Vec<String> = Vec::new();
        let mut i: usize = 0;
        while i < ms.len()
            invariant
                i <= ms@.len(),
                mv == crate::markup::matches_view(ms@),
                selected(markup@, image_selector(), "data-src"@) == Some(mv),
                forall|j: int| 0 <= j < i ==> (#[trigger] mv[j]).1 is Some,
                out@.len() == i,
                forall|j: int| 0 <= j < i ==> (#[trigger] out@[j])@ == mv[j].1->Some_0,
            decreases ms@.len() - i,
        {
            assert(mv[i as int] == crate::markup::match_view(ms@[i as int]));
            match &ms[i].1 {
                Some(src) => {
                    out.push(src.clone());
                },
                None => {
                    assert(!(mv[i as int].1 is Some));
                    return Err(ComicError::ParseError);
                },
            }
            i = i + 1;
        }
        assert(out@.map_values(|s: String| s@) =~= mv.map_values(
            |m: (Seq<char>, Option<Seq<char>>)| m.1->Some_0,
        ));
        Ok(out)
    }
}

impl Chapter for W5MChapter {
    open spec fn name_view(&self) -> Seq<char> {
        self.name@
    }

    open spec fn url_view(&self) -> Seq<char> {
        self.url@
    }

    fn get_name(&self) -> (r: String) {
        self.name.clone()
    }

    fn get_url(&self) -> (r: String) {
        self.url.clone()
    }
}

} // verus!

verus! {

pub open spec fn chapters_view(v: Seq<W5MChapter>) -> Seq<(Seq<char>, Seq<char>)> {
    v.map_values(|c: W5MChapter| c@)
}

pub open spec fn comics_view(v: Seq<W5MComic>) -> Seq<(Seq<char>, Seq<char>)> {
    v.map_values(|c: W5MComic| c@)
}

/// The text of the first element of `markup` that `selector` matches.
pub open spec fn first_text(markup: Seq<char>, selector: Seq<char>) -> Option<Seq<char>> {
    match selected(markup, selector, ""@) {
        Some(ms) => if ms.len() > 0 {
            Some(ms[0].0)
        } else {
            None
        },
        None => None,
    }
}

/// The number of chapters a detail page lists; zero when the list cannot be read.
pub open spec fn chapter_count(markup: Seq<char>) -> nat {
    match links_in(markup, chapter_selector()) {
        Ok(ls) => ls.len(),
        Err(_) => 0,
    }
}

/// The text of the first element that `selector` matches in `markup`.
fn first_match_text(markup: &str, selector: &str) -> (r: Option<String>)
    ensures
        opt_view_of(r) == first_text(markup@, selector@),
{
    match select(markup, selector, "") {
        Some(ms) => {
            if ms.len() > 0 {
                assert(crate::markup::matches_view(ms@)[0] == crate::markup::match_view(ms@[0]));
                Some(ms[0].0.clone())
            } else {
                None
            }
        },
        None => None,
    }
}

pub open spec fn opt_view_of(o: Option<String>) -> Option<Seq<char>> {
    crate::markup::opt_view(o)
}

/// A comic listed by the catalog site.
pub struct W5MComic {
    pub name: String,
    pub url: String,
}

impl View for W5MComic {
    type V = (Seq<char>, Seq<char>);

    open spec fn view(&self) -> (Seq<char>, Seq<char>) {
        (self.name@, self.url@)
    }
}

fn pairs_to_chapters(pairs: Vec<(String, String)>) -> (r: Vec<W5MChapter>)
    ensures
        chapters_view(r@) == pairs_view(pairs@),
{
    let mut out: Vec<W5MChapter> = Vec::new();
    let mut i: usize = 0;
    while i < pairs.len()
        invariant
            i <= pairs@.len(),
            out@.len() == i,
            forall|j: int| 0 <= j < i ==> (#[trigger] out@[j])@ == (pairs@[j].0@, pairs@[j].1@),
        decreases pairs@.len() - i,
    {
        out.push(W5MChapter { name: pairs[i].0.clone(), url: pairs[i].1.clone() });
        i = i + 1;
    }
    assert(chapters_view(out@) =~= pairs_view(pairs@));
    out
}

fn pairs_to_comics(pairs: Vec<(String, String)>) -> (r: Vec<W5MComic>)
    ensures
        comics_view(r@) == pairs_view(pairs@),
{
    let mut out: Vec<W5MComic> = Vec::new();
    let mut i: usize = 0;
    while i < pairs.len()
        invariant
            i <= pairs@.len(),
            out@.len() == i,
            forall|j: int| 0 <= j < i ==> (#[trigger] out@[j])@ == (pairs@[j].0@, pairs@[j].1@),
        decreases pairs@.len() - i,
    {
        out.push(W5MComic { name: pairs[i].0.clone(), url: pairs[i].1.clone() });
        i = i + 1;
    }
    assert(comics_view(out@) =~= pairs_view(pairs@));
    out
}

impl W5MComic {
    pub fn new(name: String, url: String) -> (r: W5MComic)
        ensures
            r@ == (name@, url@),
    {
        W5MComic { name, url }
    }

    /// A copy of this comic.
    pub fn duplicate(&self) -> (r: W5MComic)
        ensures
            r@ == self@,
    {
        W5MComic { name: self.name.clone(), url: self.url.clone() }
    }

    /// The chapters that this comic's detail page `markup` lists, in the site's order
    /// (newest first), with normalized names and absolute URLs. Only this one page is
    /// read: a chapter index spread over several pages is not followed, so its later
    /// pages are missing from the result.
    pub fn parse_chapters(&self, markup: &str) -> (r: Result<Vec<W5MChapter>, ComicError>)
        ensures
            r matches Ok(v) ==> links_in(markup@, chapter_selector()) == Ok::<_, ComicError>(
                chapters_view(v@),
            ),
            r matches Err(e) ==> links_in(markup@, chapter_selector()) == Err::<
                Seq<(Seq<char>, Seq<char>)>,
                _,
            >(e),
    {
        match links(markup, ".manga-info-chapter span a") {
            Ok(pairs) => Ok(pairs_to_chapters(pairs)),
            Err(e) => Err(e),
        }
    }

    /// The metadata on this comic's detail page `markup`: the status line mapped to a
    /// status, the last-update line parsed as a timestamp (`None` when it does not parse),
    /// and the number of chapters listed. A parse error when the page has no status line
    /// or no last-update line.
    pub fn parse_data(&self, markup: &str) -> (r: Result<ComicData, ComicError>)
        ensures
            r is Err <==> (first_text(markup@, status_selector()) is None || first_text(
                markup@,
                update_selector(),
            ) is None),
            r matches Err(e) ==> e == ComicError::ParseError,
            r matches Ok(d) ==> {
                &&& d.name@ == self.name@
                &&& d.url@ == self.url@
                &&& d.status == status_of(first_text(markup@, status_selector())->Some_0)
                &&& d.last_update == parsed_timestamp(
                    first_text(markup@, update_selector())->Some_0,
                    update_format(),
                )
                &&& d.chapters == chapter_count(markup@)
            },
    {
        let status_text = match first_match_text(markup, ".manga-info-text li:nth-of-type(3)") {
            Some(t) => t,
            None => return Err(ComicError::ParseError),
        };
        let date_text = match first_match_text(markup, ".manga-info-text li:nth-of-type(4)") {
            Some(t) => t,
            None => return Err(ComicError::ParseError),
        };
        let status = ComicStatus::from_status_text(status_text.as_str());
        let last_update = parse_timestamp(
            date_text.as_str(),
            "Last updated : %b %d,%Y - %H:%M %p",
        );
        let chapters = match self.parse_chapters(markup) {
            Ok(v) => v.len(),
            Err(_) => 0,
        };
        Ok(
            ComicData {
                name: self.name.clone(),
                url: self.url.clone(),
                status,
                last_update,
                chapters,
            },
        )
    }
}

impl Comic for W5MComic {
    open spec fn name_view(&self) -> Seq<char> {
        self.name@
    }

    open spec fn url_view(&self) -> Seq<char> {
        self.url@
    }

    fn get_name(&self) -> (r: String) {
        self.name.clone()
    }

    fn get_url(&self) -> (r: String) {
        self.url.clone()
    }
}

} // verus!

verus! {

/// Bytes that stand for themselves in a URL.
pub open spec fn is_unreserved(b: u8) -> bool {
    (0x41 <= b <= 0x5A) || (0x61 <= b <= 0x7A) || (0x30 <= b <= 0x39) || b == 0x2D || b == 0x2E
        || b == 0x5F || b == 0x7E
}

/// The upper-case hexadecimal digit of `n < 16`.
pub open spec fn hex_digit(n: u8) -> char {
    if n < 10 {
        (0x30 + n) as char
    } else {
        (0x41 + n - 10) as char
    }
}

pub open spec fn encode_byte(b: u8) -> Seq<char> {
    if is_unreserved(b) {
        seq![b as char]
    } else {
        seq!['%', hex_digit(b / 16), hex_digit(b % 16)]
    }
}

/// `bs` percent-encoded: unreserved bytes as themselves, every other byte as `%XX`.
pub open spec fn percent_encoded(bs: Seq<u8>) -> Seq<char>
    decreases bs.len(),
{
    if bs.len() == 0 {
        Seq::empty()
    } else {
        percent_encoded(bs.drop_last()) + encode_byte(bs.last())
    }
}

/// The search endpoint of the catalog site.
pub open spec fn search_endpoint() -> Seq<char> {
    "https://ww5.mangakakalot.tv/search/"@
}

fn hex_char(n: u8) -> (r: char)
    requires
        n < 16,
    ensures
        r == hex_digit(n),
{
    if n < 10 {
        (0x30 + n) as char
    } else {
        (0x41 + n - 10) as char
    }
}

/// The UTF-8 bytes of `s`, percent-encoded.
pub fn percent_encode(s: &str) -> (r: String)
    ensures
        r@ == percent_encoded(s.spec_bytes()),
{
    let bytes = s.as_bytes();
    let mut out: Vec<char> = Vec::new();
    let mut i: usize = 0;
    while i < bytes.len()
        invariant
            i <= bytes@.len(),
            out@ == percent_encoded(bytes@.take(i as int)),
        decreases bytes@.len() - i,
    {
        let b = bytes[i];
        assert(bytes@.take(i as int + 1).drop_last() =~= bytes@.take(i as int));
        if (0x41 <= b && b <= 0x5A) || (0x61 <= b && b <= 0x7A) || (0x30 <= b && b <= 0x39) || b
            == 0x2D || b == 0x2E || b == 0x5F || b == 0x7E {
            out.push(b as char);
        } else {
            out.push('%');
            out.push(hex_char(b / 16));
            out.push(hex_char(b % 16));
        }
        assert(out@ =~= percent_encoded(bytes@.take(i as int + 1)));
        i = i + 1;
    }
    assert(bytes@.take(bytes@.len() as int) =~= bytes@);
    string_of(out.as_slice())
}

/// The catalog site ww5.mangakakalot.tv.
pub struct W5MComicScraper {}

impl W5MComicScraper {
    /// The address of the search page for `name`.
    pub fn search_url(&self, name: &str) -> (r: String)
        ensures
            r@ == search_endpoint() + percent_encoded(name.spec_bytes()),
    {
        let mut out = chars_of("https://ww5.mangakakalot.tv/search/");
        let q = percent_encode(name);
        let qc = chars_of(q.as_str());
        push_all(&mut out, qc.as_slice());
        string_of(out.as_slice())
    }

    /// The comics listed on the search results page `markup`, in document order, with
    /// normalized names and absolute URLs. No match at all is an empty list, not an error.
    pub fn search_simple_comics(&self, markup: &str) -> (r: Result<Vec<W5MComic>, ComicError>)
        ensures
            r matches Ok(v) ==> links_in(markup@, search_selector()) == Ok::<_, ComicError>(
                comics_view(v@),
            ),
            r matches Err(e) ==> links_in(markup@, search_selector()) == Err::<
                Seq<(Seq<char>, Seq<char>)>,
                _,
            >(e),
    {
        match links(markup, "h3.story_name>a") {
            Ok(pairs) => Ok(pairs_to_comics(pairs)),
            Err(e) => Err(e),
        }
    }
}

impl ComicScraper for W5MComicScraper {
    open spec fn name_view(&self) -> Seq<char> {
        "ww5.mangakakalot.tv"@
    }

    fn get_name(&self) -> (r: String) {
        string_of(chars_of("ww5.mangakakalot.tv").as_slice())
    }
}

/// A search page on which the result selector matches nothing yields an empty list of
/// comics, not an error.
pub proof fn lemma_empty_search(markup: Seq<char>)
    requires
        selected(markup, search_selector(), "href"@) == Some(
            Seq::<(Seq<char>, Option<Seq<char>>)>::empty(),
        ),
    ensures
        links_in(markup, search_selector()) == Ok::<_, ComicError>(
            Seq::<(Seq<char>, Seq<char>)>::empty(),
        ),
{
    let ms = Seq::<(Seq<char>, Option<Seq<char>>)>::empty();
    assert(ms.map_values(|m: (Seq<char>, Option<Seq<char>>)| link_of(m)) =~= Seq::empty());
}

} // verus!
