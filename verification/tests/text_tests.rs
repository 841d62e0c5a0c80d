use mimo_herdr::text::{
    chars_of, cat, contains, decimal_string, is_blank, is_whitespace, join, replace, split,
    string_from, trim,
};

#[test]
fn chars_of_keeps_order() {
    assert_eq!(chars_of("aé€"), vec!['a', 'é', '€']);
}

#[test]
fn string_from_collects_chars() {
    assert_eq!(string_from(&['h', 'é', 'x']), "héx");
    assert_eq!(string_from(&[]), "");
}

#[test]
fn contains_finds_substrings() {
    assert!(contains("hello custom:mimo-herdr world", "custom:mimo-herdr"));
    assert!(!contains("custom:mimo", "custom:mimo-herdr"));
    assert!(contains("abc", ""));
    assert!(contains("", ""));
    assert!(!contains("", "a"));
    assert!(contains("abc", "c"));
}

#[test]
fn replace_is_leftmost_non_overlapping() {
    assert_eq!(replace("aaa", "aa", "b"), "ba");
    assert_eq!(replace("x__B__y__B__", "__B__", "/usr/bin/x"), "x/usr/bin/xy/usr/bin/x");
    assert_eq!(replace("nothing here", "__B__", "z"), "nothing here");
    assert_eq!(replace("ab", "abc", "z"), "ab");
}

#[test]
fn replace_matches_std() {
    for (s, f, t) in [("abcabc", "bc", "X"), ("aaaa", "aa", "a"), ("", "x", "y"), ("xyx", "x", "")] {
        assert_eq!(replace(s, f, t), s.replace(f, t));
    }
}

#[test]
fn decimal_string_matches_to_string() {
    for n in [0u64, 7, 10, 99, 1000, 1234567890, u64::MAX] {
        assert_eq!(decimal_string(n), n.to_string());
    }
}

#[test]
fn split_matches_std_split() {
    for (s, c) in [("a:b::c", ':'), ("", ':'), (":", ':'), ("abc", ':'), ("/usr/bin:/bin:", ':')] {
        let expected: Vec<String> = s.split(c).map(|p| p.to_string()).collect();
        assert_eq!(split(s, c), expected);
    }
}

#[test]
fn join_inserts_separator_between() {
    let v = vec!["plugin".to_string(), "plugins".to_string()];
    assert_eq!(join(&v, ", "), "plugin, plugins");
    assert_eq!(join(&vec!["one".to_string()], ", "), "one");
    assert_eq!(join(&Vec::new(), ", "), "");
}

#[test]
fn concat_appends() {
    assert_eq!(cat("PATH=", "/x"), "PATH=/x");
}

#[test]
fn whitespace_matches_std() {
    for c in ['\t', '\n', ' ', '\u{85}', '\u{a0}', '\u{2003}', '\u{3000}', 'a', '_', '\u{200b}'] {
        assert_eq!(is_whitespace(c), c.is_whitespace(), "{c:?}");
    }
}

#[test]
fn blank_and_trim_match_std() {
    for s in ["", "  ", " \t\n", " x ", "x", "\u{a0}y\u{3000}", "a b"] {
        assert_eq!(is_blank(s), s.trim().is_empty());
        assert_eq!(trim(s), s.trim());
    }
}
