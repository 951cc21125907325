use newscenter::webvtt::{chunk_lines, first_listed_language, parse_timestamp};

fn lines(text: &[&str]) -> Vec<String> {
    text.iter().map(|line| line.to_string()).collect()
}

#[test]
fn a_time_is_hours_minutes_and_seconds() {
    assert_eq!(parse_timestamp("00:00:00.000"), Some(0));
    assert_eq!(parse_timestamp("00:08:20.000"), Some(500_000));
    assert_eq!(parse_timestamp("01:02:03.456"), Some(3_723_000));
    assert_eq!(parse_timestamp("1:2:3"), Some(3_723_000));
    assert_eq!(parse_timestamp("1.2.3"), Some(3_723_000));
}

#[test]
fn the_fifth_field_is_thousandths() {
    assert_eq!(parse_timestamp("00:00:01.000.250"), Some(1_250));
    assert_eq!(parse_timestamp("00:00:01.x.250"), Some(1_250));
    assert_eq!(parse_timestamp("00:00:01.000.x"), Some(1_000));
    assert_eq!(parse_timestamp("00:00:01.000."), Some(1_000));
}

#[test]
fn a_time_needs_three_numbers() {
    assert_eq!(parse_timestamp(""), None);
    assert_eq!(parse_timestamp("12:34"), None);
    assert_eq!(parse_timestamp("a:00:00"), None);
    assert_eq!(parse_timestamp("00:b:00"), None);
    assert_eq!(parse_timestamp("00:00:c"), None);
    assert_eq!(parse_timestamp("00::00"), None);
    assert_eq!(parse_timestamp("00:00: 1"), None);
}

#[test]
fn the_largest_time_does_not_overflow() {
    let big = u64::MAX as u128;
    assert_eq!(
        parse_timestamp(
            "18446744073709551615:18446744073709551615:18446744073709551615.0.18446744073709551615"
        ),
        Some((big * 3600 + big * 60 + big) * 1000 + big)
    );
    assert_eq!(parse_timestamp("18446744073709551616:00:00"), None);
}

#[test]
fn text_is_cut_every_five_hundred_seconds() {
    let file = lines(&[
        "WEBVTT",
        "",
        "00:00:01.000 --> 00:00:04.000",
        "one",
        "two",
        "",
        "not in a cue",
        "00:08:19.999 --> 00:08:21.000",
        "three",
        "",
        "00:08:21.000 --> 00:08:25.000",
        "four",
        "",
        "00:16:41.000 --> 00:16:45.000",
        "five",
    ]);
    assert_eq!(chunk_lines(&file), vec!["one two three".to_string(), "four".to_string(), "five".to_string()]);
}

#[test]
fn a_cue_at_the_interval_cuts_before_any_text() {
    let file = lines(&["00:08:20.000 --> 00:08:24.000", "late"]);
    assert_eq!(chunk_lines(&file), vec!["".to_string(), "late".to_string()]);
}

#[test]
fn an_arrow_without_blanks_begins_no_cue() {
    let file = lines(&["00:00:01.000-->00:00:04.000", "lost", "", "x --> y", "kept"]);
    assert_eq!(chunk_lines(&file), vec!["kept".to_string()]);
    assert_eq!(chunk_lines(&Vec::new()), Vec::<String>::new());
    assert_eq!(chunk_lines(&lines(&["WEBVTT", ""])), Vec::<String>::new());
}

#[test]
fn the_first_language_of_the_list_is_named() {
    let listing = "[info] Available subtitles for abc:\nLanguage Name Formats\nen       English vtt, srt\nde       German vtt\n";
    assert_eq!(first_listed_language(listing), Some("en".to_string()));
}

#[test]
fn automatic_captions_alone_name_no_language() {
    let listing = "[info] Available automatic captions for abc:\nLanguage Name Formats\nen English vtt\n";
    assert_eq!(first_listed_language(listing), None);
    let both = "Language formats\n\n[info] Available automatic captions for abc:\nzh-Hans Chinese\n";
    assert_eq!(first_listed_language(both), Some("[info]".to_string()));
}

#[test]
fn a_listing_without_a_list_names_no_language() {
    assert_eq!(first_listed_language(""), None);
    assert_eq!(first_listed_language("abc has no subtitles\nLanguage\nen x\n"), None);
    assert_eq!(first_listed_language("Language\n\nen\nde German\n"), None);
    assert_eq!(first_listed_language("something\nelse\n"), None);
    assert_eq!(first_listed_language("Language\nLanguage\n fr French\n"), Some("".to_string()));
}

use newscenter::webvtt::{list_arguments, subtitle_arguments, subtitle_file_name};

#[test]
fn a_fetcher_is_told_what_to_write() {
    assert_eq!(
        subtitle_arguments(None, "en", "/cache/vtt/temp", "https://youtu.be/FdeioVndUhs"),
        vec![
            "--skip-download",
            "--write-subs",
            "--sub-lang",
            "en",
            "-o",
            "/cache/vtt/temp",
            "https://youtu.be/FdeioVndUhs"
        ]
    );
    assert_eq!(
        subtitle_arguments(Some("http://127.0.0.1:7890"), "zh", "temp", "u"),
        vec![
            "--proxy",
            "http://127.0.0.1:7890",
            "--skip-download",
            "--write-subs",
            "--sub-lang",
            "zh",
            "-o",
            "temp",
            "u"
        ]
    );
    assert_eq!(subtitle_file_name("en"), "temp.en.vtt");
    assert_eq!(subtitle_file_name(""), "temp..vtt");
}

#[test]
fn a_fetcher_is_told_to_list_captions() {
    assert_eq!(list_arguments(None, "u"), vec!["--list-subs", "u"]);
    assert_eq!(list_arguments(Some("p"), "u"), vec!["--proxy", "p", "--list-subs", "u"]);
}
