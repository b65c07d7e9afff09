use templify::text::{
    chars_of, contains_chars, decimal_chars, is_blank, replace_all_chars, rfind_chars, string_of,
    trim,
};

#[test]
fn trim_removes_unicode_whitespace() {
    assert_eq!(trim("\u{3000}\t hello world \n\u{a0}"), "hello world");
    assert_eq!(trim("   "), "");
    assert_eq!(trim(""), "");
    assert_eq!(trim("x"), "x");
}

#[test]
fn trim_matches_std() {
    for s in ["  a b  ", "\u{85}z\u{2028}", "\r\n\t", "q\u{200b}", "\u{205f}m\u{1680}"] {
        assert_eq!(trim(s), s.trim());
    }
}

#[test]
fn is_blank_detects_whitespace_only() {
    assert!(is_blank(" \n\t"));
    assert!(!is_blank(" a "));
}

#[test]
fn replace_all_matches_std_replace() {
    let cases = [("aaaa", "aa", "b"), ("abcabc", "bc", "X"), ("$1$1", "$1", "$1$1"), ("", "x", "y")];
    for (s, pat, rep) in cases {
        let out = replace_all_chars(&chars_of(s), &chars_of(pat), &chars_of(rep));
        assert_eq!(string_of(&out), s.replace(pat, rep));
    }
}

#[test]
fn rfind_finds_last_occurrence() {
    let v = chars_of("a```b```c");
    assert_eq!(rfind_chars(&v, &chars_of("```")), Some(5));
    assert_eq!(rfind_chars(&v, &chars_of("zz")), None);
}

#[test]
fn contains_finds_pattern() {
    assert!(contains_chars(&chars_of("hello"), &chars_of("ll")));
    assert!(!contains_chars(&chars_of("hello"), &chars_of("lo!")));
}

#[test]
fn decimal_matches_to_string() {
    for n in [0u64, 7, 10, 99, 100, 12345, u64::MAX] {
        assert_eq!(string_of(&decimal_chars(n)), n.to_string());
    }
}
