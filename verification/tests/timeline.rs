use newscenter::timeline::{convert_microseconds_to_time, parse_timeline, TimelineEntry};

#[test]
fn test_simple_timestamp() {
    let input = "00:00 Simple description";
    let result = parse_timeline(input);
    assert_eq!(result.len(), 1);
}

#[test]
fn test_with_dash() {
    let input = "01:23 - With dash";
    let result = parse_timeline(input);
    assert_eq!(result.len(), 1);
}

#[test]
fn test_with_em_dash() {
    let input = "02:45 — With em dash";
    let result = parse_timeline(input);
    assert_eq!(result.len(), 1);
}

#[test]
fn test_multiple_formats() {
    let input = r#"00:00 Direct description
01:23 - Dash description
02:45 — Em dash description"#;
    let result = parse_timeline(input);
    assert_eq!(result.len(), 3);
}

#[test]
fn test_invalid_input() {
    let input = "Invalid timestamp";
    let result = parse_timeline(input);
    assert_eq!(result.len(), 0);
}

#[test]
fn an_entry_holds_its_time_and_its_text() {
    let result = parse_timeline("  01:23 - With dash  \nno time here\n12:05 Second\r\n");
    assert_eq!(
        result,
        vec![
            TimelineEntry { timestamp: 83, content: "[01:23 - With dash] \n".to_string() },
            TimelineEntry { timestamp: 725, content: "[12:05 - Second] \n".to_string() },
        ]
    );
}

#[test]
fn minutes_keep_all_their_digits() {
    let result = parse_timeline("123:45 — Late");
    assert_eq!(
        result,
        vec![TimelineEntry { timestamp: 123 * 60 + 45, content: "[123:45 - Late] \n".to_string() }]
    );
}

#[test]
fn minutes_that_are_no_u64_count_as_zero() {
    let result = parse_timeline("99999999999999999999:07 Far");
    assert_eq!(
        result,
        vec![TimelineEntry { timestamp: 7, content: "[00:07 - Far] \n".to_string() }]
    );
}

#[test]
fn the_largest_minutes_do_not_overflow() {
    let result = parse_timeline("18446744073709551615:59 End");
    assert_eq!(result.len(), 1);
    assert_eq!(result[0].timestamp, 18446744073709551615u128 * 60 + 59);
    assert_eq!(result[0].content, "[18446744073709551615:59 - End] \n");
}

#[test]
fn a_clock_shows_minutes_and_seconds() {
    assert_eq!(convert_microseconds_to_time(0), "00:00");
    assert_eq!(convert_microseconds_to_time(999), "00:00");
    assert_eq!(convert_microseconds_to_time(61_000), "01:01");
    assert_eq!(convert_microseconds_to_time(3_599_999), "59:59");
    assert_eq!(convert_microseconds_to_time(6_000_000), "100:00");
    assert_eq!(convert_microseconds_to_time(u64::MAX), format!("{:02}:{:02}", u64::MAX / 1000 / 60, u64::MAX / 1000 % 60));
}
