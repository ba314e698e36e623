use hecto::editor::SearchDirection;
use hecto::hightlighting::{classes, render_parts, Type};
use hecto::search::{find_in, match_starts_in};
use hecto::segment::{join, join_with, join_without};

fn parts_of(parts: &[&str]) -> Vec<String> {
    parts.iter().map(|part| part.to_string()).collect()
}

#[test]
fn join_takes_the_pieces_in_range() {
    let parts = parts_of(&["a", "bc", "d"]);
    assert_eq!(join(&parts, 0, 3), "abcd");
    assert_eq!(join(&parts, 1, 2), "bc");
    assert_eq!(join(&parts, 1, 9), "bcd");
    assert_eq!(join(&parts, 2, 1), "");
    assert_eq!(join(&parts, 7, 9), "");
}

#[test]
fn join_with_puts_the_character_before_the_piece() {
    let parts = parts_of(&["a", "bc", "d"]);
    assert_eq!(join_with(&parts, 0, 'x'), "xabcd");
    assert_eq!(join_with(&parts, 1, 'x'), "axbcd");
    assert_eq!(join_with(&parts, 3, 'x'), "abcdx");
    assert_eq!(join_with(&parts, 9, 'x'), "abcdx");
}

#[test]
fn join_without_leaves_one_piece_out() {
    let parts = parts_of(&["a", "bc", "d"]);
    assert_eq!(join_without(&parts, 0), "bcd");
    assert_eq!(join_without(&parts, 1), "ad");
    assert_eq!(join_without(&parts, 2), "abc");
    assert_eq!(join_without(&parts, 3), "abcd");
}

#[test]
fn find_in_answers_with_the_piece_that_starts_at_the_match() {
    let parts = parts_of(&["a", "bc", "d", "bc"]);
    assert_eq!(find_in(&parts, 4, "bc", 0, SearchDirection::Forward), Some(1));
    assert_eq!(find_in(&parts, 4, "bc", 2, SearchDirection::Forward), Some(3));
    assert_eq!(find_in(&parts, 4, "bc", 4, SearchDirection::Backward), Some(3));
    assert_eq!(find_in(&parts, 4, "bc", 3, SearchDirection::Backward), Some(1));
    assert_eq!(find_in(&parts, 4, "c", 0, SearchDirection::Forward), None);
    assert_eq!(find_in(&parts, 4, "cd", 0, SearchDirection::Forward), None);
    assert_eq!(find_in(&parts, 4, "ab", 0, SearchDirection::Forward), Some(0));
    assert_eq!(find_in(&parts, 4, "d", 0, SearchDirection::Forward), Some(2));
}

#[test]
fn find_in_looks_no_further_than_the_length() {
    let parts = parts_of(&["a", "b", "c"]);
    assert_eq!(find_in(&parts, 2, "c", 0, SearchDirection::Forward), None);
    assert_eq!(find_in(&parts, 2, "b", 0, SearchDirection::Forward), Some(1));
    assert_eq!(find_in(&parts, 2, "b", 3, SearchDirection::Forward), None);
    assert_eq!(find_in(&parts, 2, "b", 3, SearchDirection::Backward), None);
    assert_eq!(find_in(&parts, 5, "c", 4, SearchDirection::Forward), None);
    assert_eq!(find_in(&parts, 5, "c", 4, SearchDirection::Backward), Some(2));
    assert_eq!(find_in(&parts, 3, "", 0, SearchDirection::Forward), None);
}

#[test]
fn match_starts_in_steps_over_each_match() {
    let parts = parts_of(&["a", "a", "a", "a", "a"]);
    assert_eq!(match_starts_in(&parts, 5, "aa", 2), vec![0, 2]);
    assert_eq!(match_starts_in(&parts, 5, "a", 1), vec![0, 1, 2, 3, 4]);
    assert_eq!(match_starts_in(&parts, 5, "a", 3), vec![0, 3]);
    assert_eq!(match_starts_in(&parts, 5, "a", 0), vec![0]);
    assert_eq!(match_starts_in(&parts, 5, "a", usize::MAX), vec![0]);
    assert_eq!(match_starts_in(&parts, 5, "b", 1), Vec::<usize>::new());
    assert_eq!(match_starts_in(&parts, 5, "", 0), Vec::<usize>::new());
}

#[test]
fn classes_marks_matches_numbers_and_the_rest() {
    let parts = parts_of(&["a", "1", "b", "2", "c"]);
    assert_eq!(
        classes(&parts, &vec![], 0),
        vec![Type::Plain, Type::Number, Type::Plain, Type::Number, Type::Plain]
    );
    assert_eq!(
        classes(&parts, &vec![1], 2),
        vec![Type::Plain, Type::Match, Type::Match, Type::Number, Type::Plain]
    );
    assert_eq!(
        classes(&parts, &vec![3], 5),
        vec![Type::Plain, Type::Number, Type::Plain, Type::Match, Type::Match]
    );
    assert_eq!(
        classes(&parts, &vec![0, 1], 2),
        vec![Type::Match, Type::Match, Type::Plain, Type::Number, Type::Plain]
    );
    assert_eq!(
        classes(&parts, &vec![1], 0),
        vec![Type::Plain, Type::Number, Type::Plain, Type::Number, Type::Plain]
    );
    assert_eq!(classes(&parts_of(&["", "9x"]), &vec![], 0), vec![Type::Plain, Type::Number]);
}

#[test]
fn render_parts_sets_colours_between_classes() {
    let parts = parts_of(&["a", "\t", "1", "b"]);
    let tags = vec![Type::Plain, Type::Match, Type::Number];
    assert_eq!(
        render_parts(&parts, &tags, 0, 4),
        "a\x1b[38;2;38;139;210m \x1b[38;2;220;163;163m1\x1b[38;2;255;255;255mb\x1b[39m"
    );
    assert_eq!(render_parts(&parts, &tags, 3, 9), "b\x1b[39m");
    assert_eq!(render_parts(&parts, &tags, 9, 3), "\x1b[39m");
    assert_eq!(render_parts(&parts, &vec![], 0, 4), "a 1b\x1b[39m");
}

#[test]
fn colours_are_those_of_the_classes() {
    let color = Type::Number.to_color();
    assert_eq!((color.red, color.green, color.blue), (220, 163, 163));
    let color = Type::Match.to_color();
    assert_eq!((color.red, color.green, color.blue), (38, 139, 210));
    let color = Type::Plain.to_color();
    assert_eq!((color.red, color.green, color.blue), (255, 255, 255));
}
