use faber::input_helpers::{delete_char_before, delete_char_range, insert_at, split_at_char, word_start_before};

#[test]
fn insert_at_start() {
    assert_eq!(insert_at("world", 0, "hello "), "hello world");
}

#[test]
fn insert_at_end() {
    assert_eq!(insert_at("hello", 5, " world"), "hello world");
}

#[test]
fn insert_at_middle() {
    assert_eq!(insert_at("helo", 3, "l"), "hello");
}

#[test]
fn insert_at_clamped_to_len() {
    assert_eq!(insert_at("hi", 99, "!"), "hi!");
}

#[test]
fn insert_at_multibyte() {
    assert_eq!(insert_at("caf", 3, "é"), "café");
}

#[test]
fn delete_char_before_normal() {
    assert_eq!(delete_char_before("hello", 5), "hell");
}

#[test]
fn delete_char_before_at_zero_is_noop() {
    assert_eq!(delete_char_before("hello", 0), "hello");
}

#[test]
fn delete_char_before_multibyte() {
    assert_eq!(delete_char_before("café", 4), "caf");
}

#[test]
fn split_at_char_start() {
    assert_eq!(split_at_char("hello", 0), ("".to_string(), "hello".to_string()));
}

#[test]
fn split_at_char_end() {
    assert_eq!(split_at_char("hello", 5), ("hello".to_string(), "".to_string()));
}

#[test]
fn split_at_char_middle() {
    assert_eq!(split_at_char("hello", 3), ("hel".to_string(), "lo".to_string()));
}

#[test]
fn split_at_char_clamped() {
    assert_eq!(split_at_char("hi", 99), ("hi".to_string(), "".to_string()));
}

#[test]
fn split_at_char_multibyte() {
    assert_eq!(split_at_char("café", 3), ("caf".to_string(), "é".to_string()));
}

#[test]
fn word_start_before_mid_word() {
    // "hello world" cursor at end (11) → start of "world" = 6
    assert_eq!(word_start_before("hello world", 11), 6);
}

#[test]
fn word_start_before_at_zero_is_zero() {
    assert_eq!(word_start_before("hello", 0), 0);
}

#[test]
fn word_start_before_skips_trailing_spaces_then_word() {
    // cursor after "hello   " (8) → skips spaces → skips "hello" → 0
    assert_eq!(word_start_before("hello   ", 8), 0);
}

#[test]
fn word_start_before_leading_spaces_stops_at_word_boundary() {
    // "  hello" cursor at 7 → skips "hello" → lands at 2 (before spaces end)
    assert_eq!(word_start_before("  hello", 7), 2);
}

#[test]
fn delete_char_range_basic() {
    assert_eq!(delete_char_range("hello world", 5, 11), "hello");
}

#[test]
fn delete_char_range_empty_range_is_noop() {
    assert_eq!(delete_char_range("hello", 2, 2), "hello");
}

#[test]
fn delete_char_range_clamped_to_len() {
    assert_eq!(delete_char_range("hi", 0, 99), "");
}

#[test]
fn delete_char_range_multibyte() {
    // "café bar" → delete chars 0..4 ("café") → " bar"
    assert_eq!(delete_char_range("café bar", 0, 4), " bar");
}

#[test]
fn deleting_what_was_inserted_restores() {
    let s = insert_at("naïve", 2, "xyz");
    assert_eq!(s, "naxyzïve");
    assert_eq!(delete_char_range(&s, 2, 5), "naïve");
    assert_eq!(delete_char_before(&insert_at("ab", 1, "é"), 2), "ab");
}

#[test]
fn backspace_deletes_a_range_of_one() {
    assert_eq!(delete_char_before("größe", 3), delete_char_range("größe", 2, 3));
    assert_eq!(delete_char_before("größe", 3), "grße");
}

#[test]
fn split_parts_make_the_whole() {
    for i in 0..7 {
        let (a, b) = split_at_char("größe", i);
        assert_eq!(format!("{a}{b}"), "größe");
    }
}

#[test]
fn word_start_stands_behind_a_space_of_any_kind() {
    assert_eq!(word_start_before("a\u{3000}bc", 4), 2);
    assert_eq!(word_start_before("tab\there", 8), 4);
    assert_eq!(word_start_before("x", 40), 0);
}
