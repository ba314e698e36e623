use hecto::segment::graphemes;
use hecto::text::{decimal_string, find_first, find_last, matches_at, truncate};

fn chars(text: &str) -> Vec<char> {
    text.chars().collect()
}

#[test]
fn graphemes_are_the_clusters_in_order() {
    assert_eq!(
        graphemes("a\u{310}e\u{301}o\u{308}\u{332}"),
        vec!["a\u{310}", "e\u{301}", "o\u{308}\u{332}"]
    );
    assert_eq!(
        graphemes("a\r\nb\u{1f1f7}\u{1f1fa}\u{1f1f8}\u{1f1f9}"),
        vec!["a", "\r\n", "b", "\u{1f1f7}\u{1f1fa}", "\u{1f1f8}\u{1f1f9}"]
    );
    assert!(graphemes("").is_empty());
}

#[test]
fn graphemes_joined_give_the_text() {
    for text in ["", "abc", "a\u{310}e\u{301}", "\u{301}a", "\t\r\n\n", "\u{1100}\u{1100}\u{1161}"] {
        let parts = graphemes(text);
        assert!(parts.iter().all(|part| !part.is_empty()));
        assert_eq!(parts.concat(), text);
    }
}

#[test]
fn decimal_string_writes_numbers_without_leading_zeros() {
    assert_eq!(decimal_string(0), "0");
    assert_eq!(decimal_string(7), "7");
    assert_eq!(decimal_string(10), "10");
    assert_eq!(decimal_string(120), "120");
    assert_eq!(decimal_string(9876543210), "9876543210");
    assert_eq!(decimal_string(usize::MAX), usize::MAX.to_string());
}

#[test]
fn truncate_counts_characters() {
    assert_eq!(truncate("h\u{e9}llo", 2), "h\u{e9}");
    assert_eq!(truncate("abc", 3), "abc");
    assert_eq!(truncate("abc", 10), "abc");
    assert_eq!(truncate("abc", 0), "");
}

#[test]
fn matches_at_compares_in_place() {
    assert!(matches_at(&chars("abcabc"), &chars("bc"), 1));
    assert!(matches_at(&chars("abcabc"), &chars("bc"), 4));
    assert!(!matches_at(&chars("abcabc"), &chars("bc"), 2));
    assert!(!matches_at(&chars("abcabc"), &chars("bc"), 5));
    assert!(!matches_at(&chars("abcabc"), &chars("bc"), usize::MAX));
    assert!(matches_at(&chars("abc"), &chars(""), 3));
    assert!(!matches_at(&chars("abc"), &chars(""), 4));
    assert!(!matches_at(&chars("ab"), &chars("abc"), 0));
}

#[test]
fn find_first_and_find_last_give_the_outer_occurrences() {
    assert_eq!(find_first(&chars("abcabc"), &chars("bc")), Some(1));
    assert_eq!(find_last(&chars("abcabc"), &chars("bc")), Some(4));
    assert_eq!(find_first(&chars("abcabc"), &chars("x")), None);
    assert_eq!(find_last(&chars("abcabc"), &chars("x")), None);
    assert_eq!(find_first(&chars("aaa"), &chars("aa")), Some(0));
    assert_eq!(find_last(&chars("aaa"), &chars("aa")), Some(1));
    assert_eq!(find_first(&chars("ab"), &chars("abc")), None);
    assert_eq!(find_first(&chars("abc"), &chars("")), Some(0));
    assert_eq!(find_last(&chars("abc"), &chars("")), Some(3));
    assert_eq!(find_first(&chars(""), &chars("")), Some(0));
}
