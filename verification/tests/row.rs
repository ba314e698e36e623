use hecto::editor::SearchDirection;
use hecto::row::Row;

const RESET: &str = "\x1b[39m";
const NUMBER: &str = "\x1b[38;2;220;163;163m";
const MATCH: &str = "\x1b[38;2;38;139;210m";
const PLAIN: &str = "\x1b[38;2;255;255;255m";

fn text_of(row: &Row) -> String {
    String::from_utf8(row.as_bytes().to_vec()).unwrap()
}

#[test]
fn insert_row() {
    let mut row_test = Row::from("this is test");

    let len = row_test.len();
    row_test.insert(3, 'w');
    assert_eq!(len + 1, row_test.len());
}

#[test]
fn delete_row() {
    let mut row_test = Row::from("this is test");
    let mut row_test1 = Row::from("this is test");
    row_test.delete(3);
    row_test1.delete(3);
    assert_eq!(text_of(&row_test), "thi is test");
    assert_eq!(text_of(&row_test1), "thi is test");
    assert_eq!(row_test1.len(), 11);
}

#[test]
fn from_counts_grapheme_clusters() {
    assert_eq!(Row::from("this is test").len(), 12);
    assert_eq!(Row::from("").len(), 0);
    assert_eq!(Row::from("a\u{310}e\u{301}o\u{308}\u{332}").len(), 3);
    assert_eq!(Row::from("a\r\nb").len(), 3);
    assert_eq!(Row::from("e\u{301}x").len(), 2);
}

#[test]
fn default_row_is_empty() {
    let row = Row::default();
    assert_eq!(row.len(), 0);
    assert!(row.is_empty());
    assert_eq!(text_of(&row), "");
}

#[test]
fn is_empty_looks_at_the_text() {
    assert!(Row::from("").is_empty());
    assert!(!Row::from("a").is_empty());
}

#[test]
fn as_bytes_is_the_text_in_utf8() {
    assert_eq!(Row::from("h\u{e9}").as_bytes(), &[0x68, 0xc3, 0xa9]);
}

#[test]
fn insert_goes_before_the_grapheme() {
    let mut row = Row::from("this is test");
    row.insert(3, 'w');
    assert_eq!(text_of(&row), "thiws is test");
    assert_eq!(row.len(), 13);
}

#[test]
fn insert_at_the_start() {
    let mut row = Row::from("bc");
    row.insert(0, 'a');
    assert_eq!(text_of(&row), "abc");
    assert_eq!(row.len(), 3);
}

#[test]
fn insert_at_or_beyond_the_length_appends() {
    let mut row = Row::from("ab");
    row.insert(2, 'c');
    assert_eq!(text_of(&row), "abc");
    assert_eq!(row.len(), 3);
    row.insert(100, 'd');
    assert_eq!(text_of(&row), "abcd");
    assert_eq!(row.len(), 4);
}

#[test]
fn insert_counts_clusters_not_characters() {
    let mut row = Row::from("a\u{310}e\u{301}");
    row.insert(1, 'x');
    assert_eq!(text_of(&row), "a\u{310}xe\u{301}");
    assert_eq!(row.len(), 3);
}

#[test]
fn delete_takes_one_grapheme_out() {
    let mut row = Row::from("a\u{310}e\u{301}x");
    row.delete(1);
    assert_eq!(text_of(&row), "a\u{310}x");
    assert_eq!(row.len(), 2);
}

#[test]
fn delete_at_or_beyond_the_length_does_nothing() {
    let mut row = Row::from("abc");
    row.delete(3);
    assert_eq!(text_of(&row), "abc");
    assert_eq!(row.len(), 3);
    row.delete(4);
    assert_eq!(text_of(&row), "abc");
    assert_eq!(row.len(), 3);
    row.delete(usize::MAX);
    assert_eq!(text_of(&row), "abc");
    assert_eq!(row.len(), 3);
}

#[test]
fn insert_then_delete_restores_the_row() {
    for at in 0..=3 {
        let mut row = Row::from("abc");
        row.insert(at, 'x');
        row.delete(at);
        assert_eq!(text_of(&row), "abc");
        assert_eq!(row.len(), 3);
    }
}

#[test]
fn insert_of_a_combining_mark_is_counted_as_a_grapheme() {
    let mut row = Row::from("ex");
    row.insert(1, '\u{301}');
    assert_eq!(text_of(&row), "e\u{301}x");
    assert_eq!(row.len(), 3);
    row.delete(1);
    assert_eq!(text_of(&row), "e\u{301}");
    assert_eq!(row.len(), 1);
}

#[test]
fn append_joins_texts_and_adds_lengths() {
    let mut row = Row::from("abc");
    let other = Row::from("de");
    row.append(&other);
    assert_eq!(text_of(&row), "abcde");
    assert_eq!(row.len(), 5);
    assert_eq!(text_of(&other), "de");
}

#[test]
fn split_cuts_before_the_grapheme() {
    let mut row = Row::from("a\u{310}bc");
    let tail = row.split(1);
    assert_eq!(text_of(&row), "a\u{310}");
    assert_eq!(row.len(), 1);
    assert_eq!(text_of(&tail), "bc");
    assert_eq!(tail.len(), 2);
}

#[test]
fn split_at_the_ends() {
    let mut row = Row::from("abc");
    let tail = row.split(0);
    assert_eq!(text_of(&row), "");
    assert_eq!(row.len(), 0);
    assert_eq!(text_of(&tail), "abc");
    assert_eq!(tail.len(), 3);

    let mut row = Row::from("abc");
    let tail = row.split(3);
    assert_eq!(text_of(&row), "abc");
    assert_eq!(row.len(), 3);
    assert_eq!(text_of(&tail), "");
    assert_eq!(tail.len(), 0);

    let mut row = Row::from("abc");
    let tail = row.split(10);
    assert_eq!(text_of(&row), "abc");
    assert_eq!(row.len(), 3);
    assert_eq!(tail.len(), 0);
}

#[test]
fn split_then_append_restores_the_row() {
    for at in 0..=5 {
        let mut row = Row::from("a\u{310}e\u{301}xyz");
        let tail = row.split(at);
        row.append(&tail);
        assert_eq!(text_of(&row), "a\u{310}e\u{301}xyz");
        assert_eq!(row.len(), 5);
    }
}

#[test]
fn render_shows_a_tab_as_one_space() {
    let row = Row::from("a\tb");
    assert_eq!(row.render(0, 3), format!("a b{}", RESET));
}

#[test]
fn render_of_a_plain_row_is_its_text_and_one_reset() {
    let mut row = Row::from("x\ty e\u{301}!");
    row.hightlight(None);
    let shown = row.render(0, row.len());
    assert_eq!(shown, "x y e\u{301}!\x1b[39m");
    assert_eq!(shown.matches('\x1b').count(), 1);
}

#[test]
fn render_clamps_its_bounds() {
    let row = Row::from("abc");
    assert_eq!(row.render(1, 100), format!("bc{}", RESET));
    assert_eq!(row.render(5, 2), RESET);
    assert_eq!(row.render(2, 1), RESET);
    assert_eq!(row.render(0, 0), RESET);
    assert_eq!(row.render(usize::MAX, usize::MAX), RESET);
    assert_eq!(row.render(0, 2), format!("ab{}", RESET));
}

#[test]
fn render_of_an_empty_row_is_the_reset() {
    assert_eq!(Row::default().render(0, 10), RESET);
}

#[test]
fn render_colours_a_number() {
    let mut row = Row::from("a1");
    row.hightlight(None);
    assert_eq!(row.render(0, 2), format!("a{}1{}", NUMBER, RESET));
}

#[test]
fn render_sets_a_colour_where_the_class_changes() {
    let mut row = Row::from("12ab3");
    row.hightlight(None);
    assert_eq!(
        row.render(0, 5),
        format!("{}12{}ab{}3{}", NUMBER, PLAIN, NUMBER, RESET)
    );
    assert_eq!(row.render(2, 4), format!("ab{}", RESET));
    assert_eq!(row.render(1, 3), format!("{}2{}a{}", NUMBER, PLAIN, RESET));
}

#[test]
fn render_before_highlighting_shows_no_colour() {
    let row = Row::from("123");
    assert_eq!(row.render(0, 3), format!("123{}", RESET));
}

#[test]
fn hightlight_marks_a_match() {
    let mut row = Row::from("abc");
    row.hightlight(Some("bc"));
    assert_eq!(row.render(0, 3), format!("a{}bc{}", MATCH, RESET));
}

#[test]
fn hightlight_marks_matches_that_do_not_overlap() {
    let mut row = Row::from("aaaa");
    row.hightlight(Some("aa"));
    assert_eq!(row.render(0, 4), format!("{}aaaa{}", MATCH, RESET));

    let mut row = Row::from("aaa");
    row.hightlight(Some("aa"));
    assert_eq!(row.render(0, 3), format!("{}aa{}a{}", MATCH, PLAIN, RESET));
}

#[test]
fn hightlight_prefers_a_match_to_a_number() {
    let mut row = Row::from("x12y12");
    row.hightlight(Some("12"));
    assert_eq!(
        row.render(0, 6),
        format!("x{}12{}y{}12{}", MATCH, PLAIN, MATCH, RESET)
    );
}

#[test]
fn hightlight_without_a_word_takes_the_matches_away() {
    let mut row = Row::from("a1b");
    row.hightlight(Some("b"));
    assert_eq!(
        row.render(0, 3),
        format!("a{}1{}b{}", NUMBER, MATCH, RESET)
    );
    row.hightlight(None);
    assert_eq!(
        row.render(0, 3),
        format!("a{}1{}b{}", NUMBER, PLAIN, RESET)
    );
}

#[test]
fn hightlight_with_an_empty_word_marks_nothing() {
    let mut row = Row::from("ab");
    row.hightlight(Some(""));
    assert_eq!(row.render(0, 2), format!("ab{}", RESET));
}

#[test]
fn hightlight_leaves_text_and_length() {
    let mut row = Row::from("a1");
    row.hightlight(Some("a"));
    assert_eq!(text_of(&row), "a1");
    assert_eq!(row.len(), 2);
}

#[test]
fn hightlight_gives_one_class_to_each_cluster() {
    let mut row = Row::from("1\u{301}a");
    row.hightlight(None);
    assert_eq!(
        row.render(0, 2),
        format!("{}1\u{301}{}a{}", NUMBER, PLAIN, RESET)
    );
}

#[test]
fn find_forward_gives_the_first_match() {
    let row = Row::from("this is test");
    assert_eq!(row.find("is", 0, SearchDirection::Forward), Some(2));
    assert_eq!(row.find("is", 2, SearchDirection::Forward), Some(2));
    assert_eq!(row.find("is", 3, SearchDirection::Forward), Some(5));
    assert_eq!(row.find("is", 6, SearchDirection::Forward), None);
}

#[test]
fn find_backward_gives_the_last_match_before() {
    let row = Row::from("this is test");
    assert_eq!(row.find("is", 12, SearchDirection::Backward), Some(5));
    assert_eq!(row.find("is", 7, SearchDirection::Backward), Some(5));
    assert_eq!(row.find("is", 6, SearchDirection::Backward), Some(2));
    assert_eq!(row.find("is", 3, SearchDirection::Backward), None);
    assert_eq!(row.find("is", 0, SearchDirection::Backward), None);
}

#[test]
fn find_gives_nothing_for_an_empty_query() {
    let row = Row::from("abc");
    assert_eq!(row.find("", 0, SearchDirection::Forward), None);
    assert_eq!(row.find("", 3, SearchDirection::Backward), None);
}

#[test]
fn find_gives_nothing_beyond_the_length() {
    let row = Row::from("abc");
    assert_eq!(row.find("a", 4, SearchDirection::Forward), None);
    assert_eq!(row.find("a", 4, SearchDirection::Backward), None);
    assert_eq!(row.find("c", 3, SearchDirection::Forward), None);
    assert_eq!(row.find("c", 3, SearchDirection::Backward), Some(2));
}

#[test]
fn find_gives_nothing_without_a_match() {
    let row = Row::from("abc");
    assert_eq!(row.find("zz", 0, SearchDirection::Forward), None);
    assert_eq!(row.find("abcd", 0, SearchDirection::Forward), None);
    assert_eq!(row.find("zz", 3, SearchDirection::Backward), None);
}

#[test]
fn find_answers_in_graphemes() {
    let row = Row::from("a\u{310}e\u{301}x");
    assert_eq!(row.find("x", 0, SearchDirection::Forward), Some(2));
    assert_eq!(row.find("e\u{301}", 0, SearchDirection::Forward), Some(1));
    assert_eq!(row.find("x", 3, SearchDirection::Backward), Some(2));
}

#[test]
fn find_gives_nothing_for_a_match_inside_a_grapheme() {
    let row = Row::from("e\u{301}x");
    assert_eq!(row.find("\u{301}", 0, SearchDirection::Forward), None);
    assert_eq!(row.find("\u{301}x", 0, SearchDirection::Forward), None);
}

#[test]
fn find_backward_meets_find_forward() {
    let row = Row::from("this is test");
    let found = row.find("is", 3, SearchDirection::Forward);
    assert_eq!(found, Some(5));
    assert_eq!(row.find("is", 5 + 2, SearchDirection::Backward), found);

    let row = Row::from("e\u{301}x");
    assert_eq!(row.find("e", 0, SearchDirection::Forward), Some(0));
    assert_eq!(row.find("e", 1, SearchDirection::Backward), Some(0));
}

#[test]
fn find_backward_misses_what_ends_inside_a_shared_cluster() {
    let row = Row::from("\u{1100}\u{1100}");
    assert_eq!(row.len(), 1);
    assert_eq!(row.find("\u{1100}", 0, SearchDirection::Forward), Some(0));
    assert_eq!(row.find("\u{1100}", 1, SearchDirection::Backward), None);
}
