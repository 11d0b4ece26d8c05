use awocadodl::comic::{Chapter, Comic, ComicData, ComicError, ComicScraper, ComicStatus, Timestamp};
use awocadodl::paths::{archive_path, chapter_dir, get_comic_path, get_tmp_path, is_archive_format};
use awocadodl::pipeline::plan_download;
use awocadodl::w5m::{resolve_link, W5MChapter, W5MComic, W5MComicScraper};

const SEARCH_PAGE: &str = r#"<html><body>
<div class="story_item"><h3 class="story_name"><a href="/manga/one">  One   Piece </a></h3></div>
<div class="story_item"><h3 class="story_name"><a href="manga/two">Two &amp; Three</a></h3></div>
<div class="story_item"><h3 class="story_name"><a href="https://other.site/x">Elsewhere</a></h3></div>
</body></html>"#;

const DETAIL_PAGE: &str = r#"<html><body>
<ul class="manga-info-text">
<li><h1>One Piece</h1></li>
<li>Author(s) : Oda</li>
<li>Status : Ongoing</li>
<li>Last updated : May 25,2019 - 12:00 PM</li>
</ul>
<div class="manga-info-chapter">
<div class="row"><span><a href="/chapter/3">  Chapter   3 </a></span></div>
<div class="row"><span><a href="/chapter/2">Chapter 2</a></span></div>
<div class="row"><span><a href="/chapter/1">Chapter 1</a></span></div>
</div>
</body></html>"#;

const READER_PAGE: &str = r#"<html><body>
<img class="img-loading" src="/blank.gif" data-src="https://cdn.x/1/0.jpg">
<img class="other" data-src="https://cdn.x/ad.jpg">
<img class="img-loading" src="/blank.gif" data-src="https://cdn.x/1/1.png">
</body></html>"#;

#[test]
fn search_lists_candidates_in_order() {
    let comics = W5MComicScraper {}.search_simple_comics(SEARCH_PAGE).unwrap();
    assert_eq!(comics.len(), 3);
    assert_eq!(comics[0].name, "One Piece");
    assert_eq!(comics[0].url, "https://ww5.mangakakalot.tv/manga/one");
    assert_eq!(comics[1].name, "Two & Three");
    assert_eq!(comics[1].url, "https://ww5.mangakakalot.tv/manga/two");
    assert_eq!(comics[2].url, "https://other.site/x");
}

#[test]
fn empty_search_is_an_empty_list() {
    let comics = W5MComicScraper {}.search_simple_comics("<html><body><p>No result</p></body></html>").unwrap();
    assert!(comics.is_empty());
}

#[test]
fn search_url_is_percent_encoded() {
    let s = W5MComicScraper {};
    assert_eq!(s.search_url("one piece"), "https://ww5.mangakakalot.tv/search/one%20piece");
    assert_eq!(s.search_url("a/b_c"), "https://ww5.mangakakalot.tv/search/a%2Fb_c");
    assert_eq!(s.search_url("é"), "https://ww5.mangakakalot.tv/search/%C3%A9");
    assert_eq!(s.get_name(), "ww5.mangakakalot.tv");
}

#[test]
fn links_are_resolved_against_the_site() {
    assert_eq!(resolve_link("/a"), "https://ww5.mangakakalot.tv/a");
    assert_eq!(resolve_link("a"), "https://ww5.mangakakalot.tv/a");
    assert_eq!(resolve_link("http://h/a"), "http://h/a");
}

#[test]
fn chapters_come_in_site_order() {
    let comic = W5MComic::new("One Piece".to_string(), "https://ww5.mangakakalot.tv/manga/one".to_string());
    let chapters = comic.parse_chapters(DETAIL_PAGE).unwrap();
    assert_eq!(chapters.len(), 3);
    assert_eq!(chapters[0].get_name(), "Chapter 3");
    assert_eq!(chapters[0].get_url(), "https://ww5.mangakakalot.tv/chapter/3");
    assert_eq!(chapters[2].get_name(), "Chapter 1");
}

#[test]
fn chapter_without_href_is_a_parse_error() {
    let comic = W5MComic::new("C".to_string(), "u".to_string());
    let page = r#"<div class="manga-info-chapter"><span><a>Chapter 1</a></span></div>"#;
    assert_eq!(comic.parse_chapters(page).err(), Some(ComicError::ParseError));
}

#[test]
fn metadata_of_a_detail_page() {
    let comic = W5MComic::new("One Piece".to_string(), "https://ww5.mangakakalot.tv/manga/one".to_string());
    let data: ComicData = comic.parse_data(DETAIL_PAGE).ok().unwrap();
    assert_eq!(data.name, "One Piece");
    assert_eq!(data.url, "https://ww5.mangakakalot.tv/manga/one");
    assert_eq!(data.status, ComicStatus::Ongoing);
    assert_eq!(data.chapters, 3);
    assert_eq!(
        data.last_update,
        Some(Timestamp { year: 2019, month: 5, day: 25, hour: 12, minute: 0, second: 0 })
    );
    assert_eq!(comic.get_name(), "One Piece");
}

#[test]
fn metadata_of_a_page_without_status_is_partial() {
    let comic = W5MComic::new("C".to_string(), "u".to_string());
    let page = r#"<div class="manga-info-chapter"><span><a href="/c/1">Chapter 1</a></span></div>"#;
    assert_eq!(comic.parse_data(page).err(), Some(ComicError::ParseError));
    let data = comic.data_or_partial(page);
    assert_eq!(data.status, ComicStatus::Unknown);
    assert!(data.last_update.is_none());
    assert_eq!(data.chapters, 1);
}

#[test]
fn unparsable_date_is_none() {
    let comic = W5MComic::new("C".to_string(), "u".to_string());
    let page = r#"<ul class="manga-info-text"><li>a</li><li>b</li><li>Status : Completed</li><li>Last updated : sometime</li></ul>"#;
    let data = comic.parse_data(page).ok().unwrap();
    assert_eq!(data.status, ComicStatus::Completed);
    assert!(data.last_update.is_none());
    assert_eq!(data.chapters, 0);
}

#[test]
fn status_lines_are_a_closed_set() {
    assert_eq!(ComicStatus::from_status_text("Status : Ongoing"), ComicStatus::Ongoing);
    assert_eq!(ComicStatus::from_status_text("Status : Completed"), ComicStatus::Completed);
    assert_eq!(ComicStatus::from_status_text(""), ComicStatus::Unknown);
    assert_eq!(ComicStatus::from_status_text("Status : ongoing"), ComicStatus::Unknown);
    assert_eq!(ComicStatus::from_status_text("Status : Completed "), ComicStatus::Unknown);
    assert_eq!(ComicStatus::Ongoing.name(), "Ongoing");
    assert_eq!(ComicStatus::Unknown.name(), "Unknown");
}

#[test]
fn images_in_page_order() {
    let chapter = W5MChapter::new("Chapter 1".to_string(), "u".to_string());
    let images = chapter.parse_images(READER_PAGE).unwrap();
    assert_eq!(images, vec!["https://cdn.x/1/0.jpg".to_string(), "https://cdn.x/1/1.png".to_string()]);
}

#[test]
fn image_without_source_is_a_parse_error() {
    let chapter = W5MChapter::new("Chapter 1".to_string(), "u".to_string());
    let page = r#"<img class="img-loading" src="/blank.gif">"#;
    assert_eq!(chapter.parse_images(page).err(), Some(ComicError::ParseError));
}

#[test]
fn paths_are_built_from_names() {
    assert_eq!(get_tmp_path(), "/tmp/awocadodl");
    assert_eq!(chapter_dir("/home/u/Comics", "One Piece", "Chapter 1"), "/home/u/Comics/One Piece/Chapter 1");
    assert_eq!(archive_path("/home/u/Comics", "One Piece", "Chapter 1"), "/home/u/Comics/One Piece/Chapter 1.cbz");
    assert_eq!(get_comic_path(Some("/data"), Some("/home/u")), Some("/data".to_string()));
    assert_eq!(get_comic_path(Some(""), Some("/home/u")), Some("/home/u/Comics".to_string()));
    assert_eq!(get_comic_path(None, Some("/home/u")), Some("/home/u/Comics".to_string()));
    assert_eq!(get_comic_path(None, None), None);
    assert!(is_archive_format(Some("cbz")));
    assert!(!is_archive_format(Some("img")));
    assert!(!is_archive_format(None));
}

#[test]
fn download_plan_for_archives() {
    let comic = W5MComic::new("One Piece".to_string(), "u".to_string());
    let chapters = comic.parse_chapters(DETAIL_PAGE).unwrap();
    let jobs = plan_download(&comic, &chapters, Some(2), None, true, "/home/u/Comics").ok().unwrap();
    assert_eq!(jobs.len(), 2);
    assert_eq!(jobs[0].number, 2);
    assert_eq!(jobs[0].chapter.name, "Chapter 2");
    assert_eq!(jobs[0].dir, "/tmp/awocadodl/One Piece/Chapter 2");
    assert_eq!(jobs[0].archive, Some("/home/u/Comics/One Piece/Chapter 2.cbz".to_string()));
    assert_eq!(jobs[1].chapter.name, "Chapter 3");
}

#[test]
fn download_plan_for_images() {
    let comic = W5MComic::new("One Piece".to_string(), "u".to_string());
    let chapters = comic.parse_chapters(DETAIL_PAGE).unwrap();
    let jobs = plan_download(&comic, &chapters, None, None, false, "/c").ok().unwrap();
    assert_eq!(jobs.len(), 3);
    assert_eq!(jobs[0].dir, "/c/One Piece/Chapter 1");
    assert_eq!(jobs[0].archive, None);
    assert!(plan_download(&comic, &chapters, Some(1), Some(4), false, "/c").is_err());
}
