//! Text, numbers and versions.

use antigravity_upstream::text::{
    contains_str, eq_ignore_ascii_case, find_char, is_whitespace, prefix, str_after, str_eq, trim,
    trim_start_char,
};
use antigravity_upstream::version::{compare_versions, parse_dotted, parse_number, parse_version};

#[test]
fn white_space_is_that_of_the_standard_library() {
    for n in 0..=0x10ffffu32 {
        if let Some(c) = char::from_u32(n) {
            assert_eq!(is_whitespace(c), c.is_whitespace(), "{:x}", n);
        }
    }
}

#[test]
fn text_functions_agree_with_the_standard_library() {
    let samples = [
        "", " ", "a", "A", "v", "vv1", "abc", "ABC", "abd", "ab", " \t a b \u{3000}", "http://x",
        "://", ":/", "ß", "ẞ", "vß", "\u{a0}v1.2 ", "a-b-c",
    ];
    for a in samples {
        assert_eq!(trim(a), a.trim());
        assert_eq!(trim_start_char(a, 'v'), a.trim_start_matches('v'));
        assert_eq!(contains_str(a, "://"), a.contains("://"));
        assert_eq!(prefix(a, 2), a.chars().take(2).collect::<String>());
        let before = a.chars().take_while(|c| *c != '-').count();
        assert_eq!(find_char(a, '-'), before);
        for b in samples {
            assert_eq!(str_eq(a, b), a == b);
            assert_eq!(str_after(a, b), a > b, "{:?} {:?}", a, b);
            assert_eq!(eq_ignore_ascii_case(a, b), a.eq_ignore_ascii_case(b));
            assert_eq!(contains_str(a, b), a.contains(b));
        }
    }
}

#[test]
fn numbers_are_read_as_the_standard_library_reads_them() {
    let samples = [
        "", "+", "-", "0", "+0", "-0", "7", "+7", "007", "1a", " 1", "1 ", "4294967295",
        "4294967296", "99999999999", "+4294967295", "++1", "٣",
    ];
    for s in samples {
        assert_eq!(parse_number(s), s.parse::<u32>().ok(), "{:?}", s);
    }
    assert_eq!(parse_dotted("4.8.1"), vec![4, 8, 1]);
    assert_eq!(parse_dotted("4.x.1."), vec![4, 1]);
    assert_eq!(parse_dotted(""), Vec::<u32>::new());
}

#[test]
fn versions_are_parsed() {
    let v = parse_version(" vv4.8.1-Beta.2 ");
    assert_eq!(v.numbers, vec![4, 8, 1]);
    assert_eq!(v.pre, Some(("beta".to_string(), 2)));
    let v = parse_version("4.8-RC");
    assert_eq!(v.numbers, vec![4, 8]);
    assert_eq!(v.pre, Some(("rc".to_string(), 0)));
    let v = parse_version("1-a.b.c");
    assert_eq!(v.pre, Some(("a".to_string(), 0)));
    let v = parse_version("1.2.3");
    assert_eq!(v.pre, None);
}

#[test]
fn the_tag_of_a_pre_release_is_compared_without_case() {
    assert!(!compare_versions("4.8.1-BETA.1", "4.8.1-beta.1"));
    assert!(compare_versions("4.8.1-BETA.2", "4.8.1-beta.1"));
    assert!(compare_versions("4.8.1-RC.1", "4.8.1-Beta.9"));
    assert!(!compare_versions("4.8.1-ÄB.1", "4.8.1-äb.1"));
    assert!(compare_versions("4.8.1-äb.2", "4.8.1-ÄB.1"));
}

#[test]
fn the_order_of_versions() {
    // Asymmetric and transitive on a chain.
    let chain = ["3.9", "4.8.1-alpha", "4.8.1-beta.1", "4.8.1-beta.2", "4.8.1", "4.8.2-a", "5"];
    for i in 0..chain.len() {
        for j in 0..chain.len() {
            assert_eq!(compare_versions(chain[i], chain[j]), i > j, "{} {}", chain[i], chain[j]);
        }
    }
    // Trailing zeros, a leading v and outer white space do not count.
    for same in ["4.8", "4.8.0", "v4.8", "vv4.8.0.0", "  4.8\n"] {
        assert!(!compare_versions(same, "4.8"));
        assert!(!compare_versions("4.8", same));
        assert!(compare_versions("4.8.1", same));
    }
}
