use linear_cli::text::{
    decimal_text, eq_ignore_case, find_text, first_chars, is_uuid, join_texts,
    line_breaks_to_spaces, parse_i64, parse_u64, sanitize_terminal_text, signed_text, split_lines,
    split_list, split_text, split_trimmed, text_after, text_before, text_comes_first, text_from,
    trimmed, truncate,
};

#[test]
fn trimming_follows_unicode_white_space() {
    for s in ["", " a ", "\u{a0}a\u{2003}", "\t\r\n", "a b", "\u{200b}a"] {
        assert_eq!(trimmed(s), s.trim());
        assert_eq!(trimmed(&trimmed(s)), trimmed(s));
    }
}

#[test]
fn lines_are_those_of_the_standard_library() {
    for s in ["", "a", "a\n", "a\r\nb", "a\n\nb\n", "\n", "a\rb\r", "a\r\r\n"] {
        let expected: Vec<&str> = s.lines().collect();
        assert_eq!(split_lines(s), expected, "{:?}", s);
    }
}

#[test]
fn splitting_is_that_of_the_standard_library() {
    for s in ["", "a,b", ",a,", "a", "a, b ,c"] {
        let expected: Vec<&str> = s.split(',').collect();
        assert_eq!(split_text(s, ','), expected);
        let trimmed: Vec<&str> = s.split(',').map(|p| p.trim()).collect();
        assert_eq!(split_trimmed(s, ','), trimmed);
    }
    assert_eq!(split_list(" a, ,b,"), vec!["a", "b"]);
    assert_eq!(
        join_texts(&vec!["a".to_string(), "b".to_string()], ", "),
        "a, b"
    );
}

#[test]
fn parts_of_a_text_are_found() {
    assert_eq!(text_before("a#b#c", '#'), "a");
    assert_eq!(text_after("a#b#c", '#').as_deref(), Some("b#c"));
    assert_eq!(text_after("abc", '#'), None);
    assert_eq!(find_text("abcabc", "ca"), Some(2));
    assert_eq!(text_from("xx linear.app/y", "linear.app/").as_deref(), Some("linear.app/y"));
    assert_eq!(text_from("xx", "y"), None);
    assert_eq!(first_chars("héllo", 2), "hé");
}

#[test]
fn numbers_are_written_and_read() {
    for n in [0u64, 7, 10, 4294967296, u64::MAX] {
        assert_eq!(decimal_text(n), n.to_string());
        assert_eq!(parse_u64(&n.to_string()), Some(n));
    }
    for n in [i64::MIN, -1, 0, 1, i64::MAX] {
        assert_eq!(signed_text(n), n.to_string());
        assert_eq!(parse_i64(&n.to_string()), Some(n));
    }
    for s in ["", "+", "-", "1x", "18446744073709551616", "+5", "-0", " 1"] {
        assert_eq!(parse_u64(s), s.parse::<u64>().ok(), "{:?}", s);
        assert_eq!(parse_i64(s), s.parse::<i64>().ok(), "{:?}", s);
    }
}

#[test]
fn escape_sequences_are_taken_out() {
    assert_eq!(sanitize_terminal_text("a\u{1b}[31mb\u{1b}[0mc"), "abc");
    assert_eq!(sanitize_terminal_text("a\u{1b}]0;t\u{7}b"), "ab");
    assert_eq!(sanitize_terminal_text("a\u{7}\tb\nc"), "a\tb\nc");
    let once = sanitize_terminal_text("x\u{1b}]52;c;Zg==\u{1b}\\y\u{9b}1mz");
    assert_eq!(sanitize_terminal_text(&once), once);
}

#[test]
fn long_texts_are_shortened() {
    assert_eq!(truncate("hello", None), "hello");
    assert_eq!(truncate("hello", Some(5)), "hello");
    assert!(truncate("hello world", Some(8)).chars().count() <= 8);
    assert_eq!(line_breaks_to_spaces("a\nb"), "a b");
}

#[test]
fn ids_have_the_shape_of_a_uuid() {
    assert!(is_uuid("12345678-1234-1234-1234-1234567890ab"));
    assert!(!is_uuid("12345678-1234-1234-1234-1234567890a"));
    assert!(!is_uuid("LIN-123"));
    assert!(!is_uuid("g2345678-1234-1234-1234-1234567890ab"));
}

#[test]
fn texts_are_compared() {
    assert!(eq_ignore_case("ENG", "eng"));
    assert!(!eq_ignore_case("É", "é"));
    assert!(text_comes_first("a", "b"));
    assert!(text_comes_first("a", "a"));
    assert!(!text_comes_first("b", "a"));
}
