use codex_gemini::text::{
    contains, decimal_text, ends_with, eq_ignore_ascii_case, find, first_word, last_segment, lines,
    split_once, split_whitespace, starts_with, strip_prefix, strip_suffix, text_eq, trim,
};

#[test]
fn parts_are_found() {
    assert_eq!(find("na\u{ef}ve na", "na"), Some(0));
    assert_eq!(find("\u{e9}\u{e9}ab", "ab"), Some(2));
    assert_eq!(find("abc", "d"), None);
    assert_eq!(find("", ""), Some(0));
    assert!(contains("abc", "bc"));
    assert!(!contains("abc", "cb"));
    assert!(starts_with("abc", "ab"));
    assert!(!starts_with("ab", "abc"));
    assert!(ends_with("abc", "bc"));
    assert!(text_eq("a", "a"));
}

#[test]
fn texts_are_cut() {
    assert_eq!(strip_prefix("data:x", "data:"), Some("x"));
    assert_eq!(strip_prefix("x", "data:"), None);
    assert_eq!(strip_suffix("a.jsonl", ".jsonl"), Some("a"));
    assert_eq!(strip_suffix("a.json", ".jsonl"), None);
    assert_eq!(split_once("a=b=c", "="), Some(("a", "b=c")));
    assert_eq!(split_once("abc", "="), None);
    assert_eq!(last_segment("a-b-c", '-'), "c");
    assert_eq!(last_segment("abc", '-'), "abc");
    assert_eq!(last_segment("abc-", '-'), "");
}

#[test]
fn white_space_is_that_of_unicode() {
    let text = "\u{2003}\t a\u{a0}b \n";
    assert_eq!(trim(text), text.trim());
    let words: Vec<String> = text.split_whitespace().map(str::to_string).collect();
    assert_eq!(split_whitespace(text), words);
    assert_eq!(first_word(text).as_deref(), Some("a"));
    assert_eq!(first_word(" \u{3000}"), None);
    for code in 0..=0x10ffffu32 {
        if let Some(c) = char::from_u32(code) {
            let one = c.to_string();
            assert_eq!(trim(&one).is_empty(), one.trim().is_empty(), "{code:x}");
        }
    }
}

#[test]
fn lines_end_in_line_feeds() {
    for text in ["", "a", "a\n", "a\r\nb", "\n\n", "a\rb\n", "a\n\r\n", "x\r"] {
        let expected: Vec<String> = text.lines().map(str::to_string).collect();
        assert_eq!(lines(text), expected, "{text:?}");
    }
}

#[test]
fn ascii_letters_match_in_either_case() {
    assert!(eq_ignore_ascii_case("SSE", "sse"));
    assert!(!eq_ignore_ascii_case("\u{c4}", "\u{e4}"));
    assert!(!eq_ignore_ascii_case("sse ", "sse"));
}

#[test]
fn numbers_are_written_in_decimal() {
    assert_eq!(decimal_text(0), "0");
    assert_eq!(decimal_text(907), "907");
    assert_eq!(decimal_text(usize::MAX), usize::MAX.to_string());
}
