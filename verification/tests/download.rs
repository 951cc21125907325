use newscenter::download::{next_range, range_url, RANGE_SIZE};

#[test]
fn a_range_is_nine_mebibytes_at_most() {
    assert_eq!(RANGE_SIZE, 1024 * 1024 * 9);
    assert_eq!(next_range(0, 100), Some((0, 99)));
    assert_eq!(next_range(0, RANGE_SIZE), Some((0, RANGE_SIZE - 1)));
    assert_eq!(next_range(0, RANGE_SIZE + 1), Some((0, RANGE_SIZE - 1)));
    assert_eq!(next_range(RANGE_SIZE, RANGE_SIZE + 1), Some((RANGE_SIZE, RANGE_SIZE)));
    assert_eq!(next_range(5, 40_000_000), Some((5, RANGE_SIZE + 4)));
    assert_eq!(next_range(u64::MAX - 1, u64::MAX), Some((u64::MAX - 1, u64::MAX - 1)));
    assert_eq!(next_range(0, u64::MAX), Some((0, RANGE_SIZE - 1)));
}

#[test]
fn a_complete_stream_needs_no_range() {
    assert_eq!(next_range(0, 0), None);
    assert_eq!(next_range(100, 100), None);
    assert_eq!(next_range(101, 100), None);
    assert_eq!(next_range(u64::MAX, u64::MAX), None);
}

#[test]
fn the_ranges_of_a_stream_follow_each_other() {
    let file_size = 3 * RANGE_SIZE + 17;
    let mut downloaded = 0;
    let mut ranges = Vec::new();
    while let Some((start, stop)) = next_range(downloaded, file_size) {
        assert_eq!(start, downloaded);
        ranges.push((start, stop));
        downloaded = stop + 1;
    }
    assert_eq!(downloaded, file_size);
    assert_eq!(
        ranges,
        vec![
            (0, RANGE_SIZE - 1),
            (RANGE_SIZE, 2 * RANGE_SIZE - 1),
            (2 * RANGE_SIZE, 3 * RANGE_SIZE - 1),
            (3 * RANGE_SIZE, 3 * RANGE_SIZE + 16),
        ]
    );
}

#[test]
fn a_range_is_named_in_the_address() {
    assert_eq!(range_url("https://a.example/s", 0, 9437183), "https://a.example/s?range=0-9437183");
    assert_eq!(range_url("", 7, 7), "?range=7-7");
    assert_eq!(
        range_url("u", u64::MAX, 0),
        format!("{}?range={}-{}", "u", u64::MAX, 0)
    );
}

use newscenter::download::{needs_splitting, temporary_file_name, SPLIT_ABOVE};

#[test]
fn large_streams_are_cut() {
    assert_eq!(SPLIT_ABOVE, 38 * 1024 * 1024);
    assert!(!needs_splitting(0));
    assert!(!needs_splitting(38 * 1024 * 1024));
    assert!(needs_splitting(38 * 1024 * 1024 + 1));
    assert!(needs_splitting(u64::MAX));
}

#[test]
fn the_kind_of_a_stream_names_its_file() {
    assert_eq!(temporary_file_name("audio/webm; codecs=\"opus\""), "temp.webm");
    assert_eq!(temporary_file_name("audio/mp4; codecs=\"mp4a.40.2\""), "temp.m4a");
    assert_eq!(temporary_file_name(""), "temp.m4a");
    assert_eq!(temporary_file_name("WEBM"), "temp.m4a");
}
