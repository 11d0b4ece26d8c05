use awocadodl::comic::ComicError;
use awocadodl::selection::{chapter_index, choose_candidate, interpret_choice, resolve_range, select_chapters, Choice, DownloadRange};
use awocadodl::text::trim_whitespace;
use awocadodl::w5m::W5MChapter;

fn chapters(n: usize) -> Vec<W5MChapter> {
    // newest first, as the site lists them
    (0..n)
        .map(|i| W5MChapter::new(format!("Chapter {}", n - i), format!("https://ww5.mangakakalot.tv/chapter/{}", n - i)))
        .collect()
}

#[test]
fn normalize_collapses_and_trims() {
    assert_eq!(trim_whitespace("  A   B  "), "A B");
    assert_eq!(trim_whitespace("\n\tChapter  12:   The  End \r\n"), "Chapter 12: The End");
    assert_eq!(trim_whitespace(""), "");
    assert_eq!(trim_whitespace("   "), "");
    assert_eq!(trim_whitespace("plain"), "plain");
}

#[test]
fn normalize_is_idempotent_on_samples() {
    for s in ["  A   B  ", " x ", "a  b   c", "\u{3000}wide\u{3000}", "tab\t\tinside", ""] {
        let once = trim_whitespace(s);
        assert_eq!(trim_whitespace(&once), once);
    }
}

#[test]
fn normalize_keeps_interior_tabs() {
    assert_eq!(trim_whitespace(" a\t\tb "), "a\t\tb");
}

#[test]
fn range_rejects_from_zero() {
    assert_eq!(resolve_range(Some(0), Some(5), 10), Err(ComicError::InvalidRange));
}

#[test]
fn range_rejects_from_after_to() {
    assert_eq!(resolve_range(Some(3), Some(2), 10), Err(ComicError::InvalidRange));
}

#[test]
fn range_rejects_past_the_end() {
    assert_eq!(resolve_range(Some(1), Some(11), 10), Err(ComicError::InvalidRange));
}

#[test]
fn range_defaults_to_all_chapters() {
    assert_eq!(resolve_range(None, None, 10), Ok(DownloadRange { from: 1, to: 10 }));
    assert_eq!(resolve_range(Some(4), None, 10), Ok(DownloadRange { from: 4, to: 10 }));
    assert_eq!(resolve_range(None, Some(2), 10), Ok(DownloadRange { from: 1, to: 2 }));
}

#[test]
fn range_on_empty_list_is_invalid() {
    assert_eq!(resolve_range(None, None, 0), Err(ComicError::InvalidRange));
}

#[test]
fn chapter_numbers_count_from_the_oldest() {
    assert_eq!(chapter_index(1, 10), 9);
    assert_eq!(chapter_index(10, 10), 0);
    assert_eq!(chapter_index(4, 10), 6);
}

#[test]
fn selected_chapters_come_oldest_first() {
    let list = chapters(5);
    let picked = select_chapters(&list, DownloadRange { from: 2, to: 4 });
    let names: Vec<&str> = picked.iter().map(|c| c.name.as_str()).collect();
    assert_eq!(names, vec!["Chapter 2", "Chapter 3", "Chapter 4"]);
    let all = select_chapters(&list, DownloadRange { from: 1, to: 5 });
    assert_eq!(all[0].name, list[4].name);
    assert_eq!(all[4].name, list[0].name);
}

#[test]
fn no_candidate_is_not_found() {
    assert_eq!(choose_candidate(0, true), Err(ComicError::NotFound));
    assert_eq!(choose_candidate(0, false), Err(ComicError::NotFound));
    assert_eq!(choose_candidate(3, true), Ok(Some(0)));
    assert_eq!(choose_candidate(3, false), Ok(None));
}

#[test]
fn user_choice_is_the_selected_index() {
    assert_eq!(interpret_choice("q\n", 3), Choice::Quit);
    assert_eq!(interpret_choice(" 2 \n", 3), Choice::Pick(2));
    assert_eq!(interpret_choice("0", 3), Choice::Pick(0));
    assert_eq!(interpret_choice("+0", 1), Choice::Pick(0));
    assert_eq!(interpret_choice(" +2\n", 3), Choice::Pick(2));
    assert_eq!(interpret_choice("+", 3), Choice::Retry);
    assert_eq!(interpret_choice("++1", 3), Choice::Retry);
    assert_eq!(interpret_choice("-1", 3), Choice::Retry);
    assert_eq!(interpret_choice("3", 3), Choice::Retry);
    assert_eq!(interpret_choice("x1", 3), Choice::Retry);
    assert_eq!(interpret_choice("", 3), Choice::Retry);
    assert_eq!(interpret_choice("99999999999999999999999", 3), Choice::Retry);
}
