use newscenter::text::{
    chars_of, contains, find, is_whitespace, join, parse_number, split_lines, split_once,
    starts_with, text_of, trim,
};

fn lines(text: &str) -> Vec<String> {
    split_lines(&chars_of(text)).iter().map(|line| text_of(line)).collect()
}

fn std_lines(text: &str) -> Vec<String> {
    text.lines().map(|line| line.to_string()).collect()
}

#[test]
fn characters_and_text_are_the_same_thing() {
    let text = "a — b\n\u{3000}ü";
    assert_eq!(chars_of(text), text.chars().collect::<Vec<char>>());
    assert_eq!(text_of(&chars_of(text)), text);
    assert_eq!(text_of(&Vec::new()), "");
}

#[test]
fn white_space_is_what_std_calls_white_space() {
    let mut code: u32 = 0;
    while code <= 0x3100 {
        if let Some(c) = char::from_u32(code) {
            assert_eq!(is_whitespace(c), c.is_whitespace(), "U+{:04X}", code);
        }
        code += 1;
    }
    assert!(!is_whitespace('\u{feff}'));
    assert!(!is_whitespace('\u{10ffff}'));
}

#[test]
fn trimming_is_what_std_does() {
    for text in ["", " ", "a", "  a b  ", "\t\r\n x \u{3000}", "\u{a0}\u{2003}", "x\n", " —"] {
        assert_eq!(text_of(&trim(&chars_of(text))), text.trim(), "{:?}", text);
    }
}

#[test]
fn lines_are_what_std_gives() {
    for text in [
        "", "a", "a\n", "a\nb", "a\r\nb\r\n", "\n", "\n\n", "a\n\nb", "a\r", "a\rb\n", "\r\n",
        "a\r\n\r\nb", "\ra\n", "x\n\r",
    ] {
        assert_eq!(lines(text), std_lines(text), "{:?}", text);
    }
}

#[test]
fn numbers_are_read_as_std_reads_them() {
    for text in [
        "", "0", "00", "7", "+7", "+", "-7", "12a", " 12", "12 ", "18446744073709551615",
        "18446744073709551616", "99999999999999999999999", "0000000000000000000000012", "１２",
        "++1", "1+",
    ] {
        assert_eq!(parse_number(&chars_of(text), u64::MAX), text.parse::<u64>().ok(), "{:?}", text);
        assert_eq!(
            parse_number(&chars_of(text), u32::MAX as u64),
            text.parse::<u32>().ok().map(|n| n as u64),
            "{:?}",
            text
        );
    }
    assert_eq!(parse_number(&chars_of("4294967295"), u32::MAX as u64), Some(4294967295));
    assert_eq!(parse_number(&chars_of("4294967296"), u32::MAX as u64), None);
    assert_eq!(parse_number(&chars_of("5"), 4), None);
    assert_eq!(parse_number(&chars_of("0"), 0), Some(0));
}

#[test]
fn finding_is_what_std_does() {
    for (text, pattern) in [
        ("", ""), ("abc", ""), ("", "a"), ("abc", "abc"), ("abc", "abcd"), ("aab", "ab"),
        ("00:01 --> 00:02", "-->"), ("00:01 --> 00:02", " --> "), ("a-->b", " --> "),
        ("xxab", "b"), ("ababab", "bab"),
    ] {
        let chars = chars_of(text);
        let marks = chars_of(pattern);
        let byte_at = text.find(pattern);
        let char_at = byte_at.map(|at| text[..at].chars().count());
        assert_eq!(find(&chars, &marks), char_at, "{:?} in {:?}", pattern, text);
        assert_eq!(contains(&chars, &marks), text.contains(pattern));
        assert_eq!(starts_with(&chars, &marks), text.starts_with(pattern));
        let halves = split_once(&chars, &marks).map(|(front, back)| (text_of(&front), text_of(&back)));
        let expected = text.split_once(pattern).map(|(front, back)| (front.to_string(), back.to_string()));
        assert_eq!(halves, expected);
    }
}

#[test]
fn joining_is_what_std_does() {
    for parts in [vec![], vec![""], vec!["a"], vec!["a", "b"], vec!["a", "", "c"], vec!["", ""]] {
        let list: Vec<Vec<char>> = parts.iter().map(|part| chars_of(part)).collect();
        assert_eq!(text_of(&join(&list, &chars_of(" "))), parts.join(" "));
        assert_eq!(text_of(&join(&list, &chars_of("\n\n"))), parts.join("\n\n"));
    }
}
