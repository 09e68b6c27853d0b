use sakura::text::{
    chars_of, is_whitespace, lines, parse_unsigned, same_text, split_once, strip_prefix, trim, words,
};

#[test]
fn white_space_is_that_of_unicode() {
    for n in 0..=0x10_ffffu32 {
        if let Some(c) = char::from_u32(n) {
            assert_eq!(is_whitespace(c), c.is_whitespace(), "U+{:04X}", n);
        }
    }
}

#[test]
fn trim_takes_white_space_off_both_ends() {
    let samples = ["", " ", "a", " a", "a ", " \t a b\r\n", "\u{3000}x\u{2028}", "\u{a0}", "é ü "];
    for s in samples {
        assert_eq!(trim(s), s.trim());
    }
}

#[test]
fn split_once_takes_the_first_separator() {
    assert_eq!(split_once("Location: yeelight://1.2.3.4:5", ':'), Some(("Location", " yeelight://1.2.3.4:5")));
    assert_eq!(split_once(":", ':'), Some(("", "")));
    assert_eq!(split_once("é:ü", ':'), Some(("é", "ü")));
    assert_eq!(split_once("no colon", ':'), None);
    assert_eq!(split_once("", ':'), None);
}

#[test]
fn lines_end_with_line_feeds() {
    assert_eq!(lines(""), Vec::<&str>::new());
    assert_eq!(lines("\n"), vec![""]);
    assert_eq!(lines("a"), vec!["a"]);
    assert_eq!(lines("a\n"), vec!["a"]);
    assert_eq!(lines("a\n\nb"), vec!["a", "", "b"]);
    for s in ["", "\n", "a\r\nb\r\n\r\n", "x\n\n", "\r\n", "one\ntwo"] {
        let trimmed: Vec<&str> = lines(s).into_iter().map(|line| line.trim()).collect();
        let expected: Vec<&str> = s.lines().map(|line| line.trim()).collect();
        assert_eq!(trimmed, expected);
    }
}

#[test]
fn words_are_what_white_space_separates() {
    for s in ["", "  ", "a", " a  b ", "get_prop set_default\tset_power", "\u{3000}é\u{2003}ü"] {
        let expected: Vec<String> = s.split_whitespace().map(str::to_string).collect();
        assert_eq!(words(s), expected);
    }
}

#[test]
fn strip_prefix_needs_the_whole_prefix() {
    assert_eq!(strip_prefix("yeelight://1.2.3.4:55443", "yeelight://"), Some("1.2.3.4:55443"));
    assert_eq!(strip_prefix("yeelight://", "yeelight://"), Some(""));
    assert_eq!(strip_prefix("yeelight:/", "yeelight://"), None);
    assert_eq!(strip_prefix("http://x", "yeelight://"), None);
    assert_eq!(strip_prefix("x", ""), Some("x"));
}

#[test]
fn numbers_are_read_as_the_standard_library_reads_them() {
    let samples = [
        "", "+", "-", "0", "-0", "+0", "00", "7", "+7", "++7", "255", "256", "0255", "+255", "65535",
        "65536", "4294967295", "4294967296", "99999999999999999999", " 1", "1 ", "1_0", "1.0", "0x1",
        "٣", "12a", "000000000000000000000012",
    ];
    for s in samples {
        assert_eq!(parse_unsigned(s, u8::MAX as u32).map(|n| n as u8), s.parse::<u8>().ok(), "{s}");
        assert_eq!(parse_unsigned(s, u16::MAX as u32).map(|n| n as u16), s.parse::<u16>().ok(), "{s}");
        assert_eq!(parse_unsigned(s, u32::MAX), s.parse::<u32>().ok(), "{s}");
    }
    for n in 0..=300u32 {
        assert_eq!(parse_unsigned(&n.to_string(), 255), if n <= 255 { Some(n) } else { None });
    }
}

#[test]
fn same_text_compares_characters() {
    assert!(same_text("", ""));
    assert!(same_text("props", "props"));
    assert!(!same_text("props", "prop"));
    assert!(!same_text("props", "propz"));
    assert!(same_text("é", "é"));
    assert!(!same_text("e\u{301}", "é"));
}

#[test]
fn chars_come_in_order() {
    assert_eq!(chars_of("aé\u{1f338}"), vec!['a', 'é', '\u{1f338}']);
}
