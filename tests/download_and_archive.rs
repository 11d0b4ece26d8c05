use std::io::{Cursor, Read};

use awocadodl::archive::{archive_entries, base_name_of, pack_archive, DirEntry};
use awocadodl::comic::ComicError;
use awocadodl::download::{decimal_chars, file_extension, image_targets, keep_going, DownloadReport, FailurePolicy, ImageOutcome};

#[test]
fn extension_ignores_the_query() {
    assert_eq!(file_extension("https://x/img/42.jpg?cache=1"), Ok("jpg".to_string()));
}

#[test]
fn extension_ignores_the_fragment_and_host() {
    assert_eq!(file_extension("https://cdn.example.com/a/b/7.png#top"), Ok("png".to_string()));
    assert_eq!(file_extension("https://cdn.example.com/a/b/7"), Err(ComicError::MalformedUrl));
}

#[test]
fn extension_missing_is_malformed_url() {
    assert_eq!(file_extension("https://x/img/42"), Err(ComicError::MalformedUrl));
    assert_eq!(file_extension("https://x/img/42?file=a.jpg"), Err(ComicError::MalformedUrl));
    assert_eq!(file_extension(""), Err(ComicError::MalformedUrl));
}

#[test]
fn extension_of_a_relative_path() {
    assert_eq!(file_extension("img/1.webp"), Ok("webp".to_string()));
}

#[test]
fn decimal_digits() {
    assert_eq!(decimal_chars(0), vec!['0']);
    assert_eq!(decimal_chars(42), vec!['4', '2']);
    assert_eq!(decimal_chars(1000), vec!['1', '0', '0', '0']);
}

#[test]
fn targets_are_index_and_extension() {
    let urls = vec![
        "https://x/a.jpg".to_string(),
        "https://x/b".to_string(),
        "https://x/c.png?v=2".to_string(),
    ];
    let t = image_targets("/out/Comic/Ch 1", &urls);
    assert_eq!(t.len(), 3);
    assert_eq!(t[0], Ok("/out/Comic/Ch 1/0.jpg".to_string()));
    assert_eq!(t[1], Err(ComicError::MalformedUrl));
    assert_eq!(t[2], Ok("/out/Comic/Ch 1/2.png".to_string()));
}

#[test]
fn failures_are_isolated_per_image() {
    let urls: Vec<String> = (0..5).map(|i| format!("https://x/{}.jpg", i)).collect();
    let outcomes = vec![
        ImageOutcome::Saved,
        ImageOutcome::Failed(ComicError::NetworkError),
        ImageOutcome::Saved,
        ImageOutcome::Failed(ComicError::NetworkError),
        ImageOutcome::Saved,
    ];
    let report = DownloadReport::from_outcomes(&urls, &outcomes);
    assert_eq!(report.succeeded, 3);
    assert_eq!(report.failed.len(), 2);
    assert_eq!(report.failed[0].index, 1);
    assert_eq!(report.failed[0].url, "https://x/1.jpg");
    assert_eq!(report.failed[0].error, ComicError::NetworkError);
    assert_eq!(report.failed[1].index, 3);
    assert_eq!(report.failed[1].url, "https://x/3.jpg");
}

#[test]
fn report_on_an_aborted_chapter() {
    let urls: Vec<String> = (0..4).map(|i| format!("https://x/{}.jpg", i)).collect();
    let outcomes = vec![
        ImageOutcome::Saved,
        ImageOutcome::Failed(ComicError::IoError),
        ImageOutcome::Skipped,
        ImageOutcome::Saved,
    ];
    let report = DownloadReport::from_outcomes(&urls, &outcomes);
    assert_eq!(report.succeeded, 2);
    assert_eq!(report.failed.len(), 1);
    assert_eq!(report.failed[0].index, 1);
    assert_eq!(report.failed[0].error, ComicError::IoError);
}

#[test]
fn policy_decides_whether_to_continue() {
    assert!(keep_going(FailurePolicy::Abort, ImageOutcome::Saved));
    assert!(!keep_going(FailurePolicy::Abort, ImageOutcome::Failed(ComicError::NetworkError)));
    assert!(keep_going(FailurePolicy::SkipAndContinue, ImageOutcome::Failed(ComicError::NetworkError)));
}

#[test]
fn archive_takes_flat_file_names() {
    let entries = vec![
        DirEntry { name: "0.jpg".to_string(), is_file: true },
        DirEntry { name: "sub".to_string(), is_file: false },
        DirEntry { name: "/tmp/awocadodl/C/1/1.png".to_string(), is_file: true },
    ];
    let names = archive_entries(&entries).unwrap();
    assert_eq!(names, vec!["0.jpg".to_string(), "1.png".to_string()]);
    assert!(names.iter().all(|n| !n.contains('/')));
}

#[test]
fn archive_of_no_file_is_an_error() {
    let entries = vec![DirEntry { name: "sub".to_string(), is_file: false }];
    assert_eq!(archive_entries(&entries), Err(ComicError::PackError));
    assert_eq!(archive_entries(&vec![]), Err(ComicError::PackError));
}

#[test]
fn base_names() {
    assert_eq!(base_name_of("a/b/c.jpg"), "c.jpg");
    assert_eq!(base_name_of("c.jpg"), "c.jpg");
    assert_eq!(base_name_of("dir/"), "");
}

#[test]
fn archive_round_trip() {
    let names = vec!["0.jpg".to_string(), "1.png".to_string()];
    let contents = vec![vec![0xFFu8, 0xD8, 0xFF, 0xE0, 1, 2, 3], vec![0x89u8, b'P', b'N', b'G', 0, 0, 7, 7, 7, 7]];
    let bytes = pack_archive(&names, &contents).unwrap();
    let mut zip = zip::ZipArchive::new(Cursor::new(bytes)).unwrap();
    assert_eq!(zip.len(), 2);
    for i in 0..2 {
        let mut f = zip.by_index(i).unwrap();
        assert!(!f.is_dir());
        assert_eq!(f.name(), names[i]);
        let mut data = Vec::new();
        f.read_to_end(&mut data).unwrap();
        assert_eq!(data, contents[i]);
    }
}

#[test]
fn archive_of_nothing_is_an_error() {
    assert_eq!(pack_archive(&vec![], &vec![]), Err(ComicError::PackError));
}

#[test]
fn archive_of_empty_files_succeeds() {
    let names = vec!["0.jpg".to_string()];
    let bytes = pack_archive(&names, &vec![vec![]]).unwrap();
    let mut zip = zip::ZipArchive::new(Cursor::new(bytes)).unwrap();
    assert_eq!(zip.len(), 1);
    assert_eq!(zip.by_index(0).unwrap().size(), 0);
}
