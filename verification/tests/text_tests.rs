use actix_web_nextjs::text::{
    chars_of, has_char, has_suffix, is_numeric_segment, leading_run, matches_at, push_range, push_str,
    segment_end, string_of, trailing_run, without,
};

fn removed(text: &str, pat: &str) -> String {
    string_of(&without(&chars_of(text), &chars_of(pat)))
}

fn is_number(text: &str) -> bool {
    let chars = chars_of(text);
    is_numeric_segment(&chars, 0, chars.len())
}

#[test]
fn chars_round_trip() {
    let chars = chars_of("/blog/[slug]");
    assert_eq!(chars.len(), 12);
    assert_eq!(chars[0], '/');
    assert_eq!(chars[6], '[');
    assert_eq!(string_of(&chars), "/blog/[slug]");
}

#[test]
fn chars_are_characters_not_bytes() {
    let chars = chars_of("/caf\u{e9}/\u{1f600}");
    assert_eq!(chars.len(), 7);
    assert_eq!(chars[4], '\u{e9}');
    assert_eq!(string_of(&chars), "/caf\u{e9}/\u{1f600}");
}

#[test]
fn string_of_builds_from_nothing() {
    assert_eq!(string_of(&Vec::new()), "");
    assert_eq!(string_of(&vec!['a']), "a");
}

#[test]
fn push_range_appends_the_slice() {
    let from = chars_of("abcdef");
    let mut out = chars_of("x");
    push_range(&mut out, &from, 2, 5);
    assert_eq!(string_of(&out), "xcde");
    push_range(&mut out, &from, 3, 3);
    assert_eq!(string_of(&out), "xcde");
    push_range(&mut out, &from, 0, 6);
    assert_eq!(string_of(&out), "xcdeabcdef");
}

#[test]
fn push_str_appends_the_text() {
    let mut out = chars_of("a");
    push_str(&mut out, "");
    push_str(&mut out, ".html");
    assert_eq!(string_of(&out), "a.html");
}

#[test]
fn has_char_finds_any_position() {
    assert!(has_char(&chars_of("/a"), '/'));
    assert!(has_char(&chars_of("a/"), '/'));
    assert!(has_char(&chars_of("a*b"), '*'));
    assert!(!has_char(&chars_of("abc"), '/'));
    assert!(!has_char(&chars_of(""), '/'));
}

#[test]
fn matches_at_compares_in_place() {
    let chars = chars_of("a.html.htm");
    let pat = chars_of(".html");
    assert!(matches_at(&chars, 1, &pat));
    assert!(!matches_at(&chars, 0, &pat));
    assert!(!matches_at(&chars, 6, &pat));
    assert!(!matches_at(&chars, 10, &pat));
    assert!(matches_at(&chars, 10, &Vec::new()));
}

#[test]
fn has_suffix_agrees_with_ends_with() {
    let cases = [
        ("index.html", ".html"),
        ("html", ".html"),
        (".html", ".html"),
        ("a.htm", ".html"),
        ("a.html/", ".html"),
        ("", ".html"),
        ("abc", ""),
        ("", ""),
        ("a.HTML", ".html"),
    ];
    for (text, suffix) in cases {
        assert_eq!(
            has_suffix(&chars_of(text), &chars_of(suffix)),
            text.ends_with(suffix),
            "{:?} {:?}",
            text,
            suffix
        );
    }
    assert!(has_suffix(&chars_of("index.html"), &chars_of(".html")));
    assert!(!has_suffix(&chars_of("html"), &chars_of(".html")));
}

#[test]
fn without_removes_every_occurrence() {
    assert_eq!(removed("a.htmlb.html", ".html"), "ab");
    assert_eq!(removed("/page.html", ".html"), "/page");
    assert_eq!(removed("/page", ".html"), "/page");
    assert_eq!(removed("[[x]]", "["), "x]]");
    assert_eq!(removed(".html", ".html"), "");
    assert_eq!(removed("", ".html"), "");
}

#[test]
fn without_does_not_overlap_or_rescan() {
    assert_eq!(removed("aaa", "aa"), "a");
    assert_eq!(removed(".ht.htmlml", ".html"), ".html");
    assert_eq!(removed("abc", ""), "abc");
}

#[test]
fn without_agrees_with_replace() {
    let texts = ["", "a", "aaaa", "abab", "xx.html.htmlyy", "[a][b]", "a.ht.htmlml", "....html"];
    let pats = ["a", "aa", "ab", ".html", "[", "]", "b", "", "....html."];
    for text in texts {
        for pat in pats {
            assert_eq!(removed(text, pat), text.replace(pat, ""), "{:?} {:?}", text, pat);
        }
    }
}

#[test]
fn leading_run_counts_the_prefix() {
    assert_eq!(leading_run(&chars_of("///a/"), '/'), 3);
    assert_eq!(leading_run(&chars_of("a/"), '/'), 0);
    assert_eq!(leading_run(&chars_of("//"), '/'), 2);
    assert_eq!(leading_run(&chars_of(""), '/'), 0);
}

#[test]
fn trailing_run_stops_at_the_start() {
    assert_eq!(trailing_run(&chars_of("/a//"), 0, '/'), 2);
    assert_eq!(trailing_run(&chars_of("/a"), 0, '/'), 2);
    assert_eq!(trailing_run(&chars_of("///"), 0, '/'), 0);
    assert_eq!(trailing_run(&chars_of("///"), 2, '/'), 2);
    assert_eq!(trailing_run(&chars_of("///"), 3, '/'), 3);
    assert_eq!(trailing_run(&chars_of(""), 0, '/'), 0);
}

#[test]
fn trims_agree_with_std() {
    let texts = ["", "/", "//", "/a", "a/", "/a/", "//a//b//", "a", "./", "./fixtures/001/"];
    for text in texts {
        let chars = chars_of(text);
        let start = leading_run(&chars, '/');
        let end = trailing_run(&chars, start, '/');
        let mut out = Vec::new();
        push_range(&mut out, &chars, start, end);
        assert_eq!(
            string_of(&out),
            text.trim_start_matches('/').trim_end_matches('/'),
            "{:?}",
            text
        );
        let root_end = trailing_run(&chars, 0, '/');
        let mut root = Vec::new();
        push_range(&mut root, &chars, 0, root_end);
        assert_eq!(string_of(&root), text.trim_end_matches('/'), "{:?}", text);
    }
}

#[test]
fn segment_end_finds_the_next_slash() {
    let chars = chars_of("/1/items/1");
    assert_eq!(segment_end(&chars, 0), 0);
    assert_eq!(segment_end(&chars, 1), 2);
    assert_eq!(segment_end(&chars, 3), 8);
    assert_eq!(segment_end(&chars, 9), 10);
    assert_eq!(segment_end(&chars, 10), 10);
}

#[test]
fn numbers_are_recognised() {
    assert!(is_number("0"));
    assert!(is_number("1"));
    assert!(is_number("007"));
    assert!(is_number("4294967295"));
    assert!(is_number("0004294967295"));
}

#[test]
fn numbers_may_be_of_any_size() {
    assert!(is_number("4294967296"));
    assert!(is_number("18446744073709551616"));
    assert!(is_number("99999999999999999999999999"));
}

#[test]
fn a_sign_makes_no_number() {
    assert!(!is_number("+1"));
    assert!(!is_number("+4294967295"));
    assert!(!is_number("-1"));
    assert!(!is_number("+"));
    assert!(!is_number("++1"));
}

#[test]
fn what_is_no_number_is_refused() {
    assert!(!is_number(""));
    assert!(!is_number("1a"));
    assert!(!is_number("a1"));
    assert!(!is_number(" 1"));
    assert!(!is_number("1 "));
    assert!(!is_number("1_000"));
    assert!(!is_number("1.5"));
    assert!(!is_number("\u{ff11}"));
    assert!(!is_number("\u{661}\u{662}\u{663}"));
    assert!(!is_number("3b2b6d56-e85b-432d-b555-7113b810a3b7"));
}

#[test]
fn numbers_are_the_texts_of_ascii_digits() {
    let cases = [
        "", "0", "00", "1", "+1", "+", "-", "-0", "-1", "+-1", "12345", "4294967295",
        "4294967296", "42949672950", "18446744073709551616", "1e3", "0x10", "1/2", "items", "001",
        "+001", "1+", "[id]",
    ];
    for text in cases {
        let expected = !text.is_empty() && text.chars().all(|c| c.is_ascii_digit());
        assert_eq!(is_number(text), expected, "{:?}", text);
    }
}

#[test]
fn a_number_inside_a_longer_text() {
    let chars = chars_of("/12/ab");
    assert!(is_numeric_segment(&chars, 1, 3));
    assert!(!is_numeric_segment(&chars, 0, 3));
    assert!(!is_numeric_segment(&chars, 1, 4));
    assert!(!is_numeric_segment(&chars, 2, 2));
    assert!(is_numeric_segment(&chars, 2, 3));
}
