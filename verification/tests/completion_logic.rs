use faber::completion_logic::{
    compute_word_prefix, fuzzy_filter, resolve_empty_filter, should_refilter_locally, subsequence_match,
    EmptyFilterAction, ParsedCompletion,
};
use ropey::Rope;

fn make_items(labels: &[&str]) -> Vec<ParsedCompletion> {
    labels
        .iter()
        .map(|&l| ParsedCompletion {
            label: l.to_owned(),
            kind: None,
            detail: None,
            sort_text: None,
            filter_text: None,
            insert_text: None,
            text_edit: None,
            additional_text_edits: vec![],
            is_snippet: false,
            documentation: None,
            data: None,
        })
        .collect()
}

fn labels_for(items: &[ParsedCompletion], query: &str) -> Vec<String> {
    fuzzy_filter(items, query).iter().map(|m| items[m.item_ix].label.clone()).collect()
}

#[test]
fn word_prefix_identifier() {
    let rope = Rope::from_str("let foo = bar");
    // caret at end of "bar" (char offset 13)
    let (start, q) = compute_word_prefix(&rope, 13).unwrap();
    assert_eq!(q, "bar");
    assert_eq!(start, 10);
}

#[test]
fn word_prefix_after_dot() {
    let rope = Rope::from_str("foo.");
    // caret right after '.' — no word prefix
    assert!(compute_word_prefix(&rope, 4).is_none());
}

#[test]
fn word_prefix_partial() {
    let rope = Rope::from_str("std::io::Wr");
    let (start, q) = compute_word_prefix(&rope, 11).unwrap();
    assert_eq!(q, "Wr");
    assert_eq!(start, 9);
}

#[test]
fn fuzzy_filter_exact_match_first() {
    // Exact match must outrank word-start and higher-score subsequence hits.
    let items = make_items(&["print", "println", "eprintln"]);
    let matches = fuzzy_filter(&items, "print");
    let labels: Vec<&str> = matches.iter().map(|m| items[m.item_ix].label.as_str()).collect();
    // "print" (exact) must come before "println" (word-start prefix).
    assert_eq!(labels[0], "print");
}

#[test]
fn fuzzy_filter_word_start_first() {
    let items = make_items(&["println", "eprintln", "print"]);
    let matches = fuzzy_filter(&items, "print");
    // "println" and "print" start with "print" → ranked before "eprintln"
    let labels: Vec<&str> = matches.iter().map(|m| items[m.item_ix].label.as_str()).collect();
    assert!(
        labels.iter().position(|&l| l == "println").unwrap() < labels.iter().position(|&l| l == "eprintln").unwrap()
    );
    assert!(
        labels.iter().position(|&l| l == "print").unwrap() < labels.iter().position(|&l| l == "eprintln").unwrap()
    );
}

#[test]
fn fuzzy_filter_subsequence() {
    // "println" matches "pln" as a subsequence
    let items = make_items(&["println", "eprintln", "xfoo"]);
    let matches = fuzzy_filter(&items, "pln");
    let labels: Vec<&str> = matches.iter().map(|m| items[m.item_ix].label.as_str()).collect();
    assert!(labels.contains(&"println"));
    assert!(labels.contains(&"eprintln"));
    assert!(!labels.contains(&"xfoo"));
}

#[test]
fn fuzzy_filter_smart_case_sensitive() {
    let items = make_items(&["FooBar", "foobar", "Foo"]);
    // Uppercase query → case-sensitive
    let matches = fuzzy_filter(&items, "Foo");
    let labels: Vec<&str> = matches.iter().map(|m| items[m.item_ix].label.as_str()).collect();
    // "foobar" should not match (case-sensitive)
    assert!(!labels.contains(&"foobar"));
    assert!(labels.contains(&"FooBar"));
    assert!(labels.contains(&"Foo"));
}

#[test]
fn fuzzy_filter_case_insensitive() {
    let items = make_items(&["FooBar", "foobar", "Foo"]);
    // Lowercase query → case-insensitive
    let matches = fuzzy_filter(&items, "foo");
    assert_eq!(matches.len(), 3);
}

#[test]
fn fuzzy_filter_empty_query_returns_all() {
    let items = make_items(&["a", "b", "c"]);
    assert_eq!(fuzzy_filter(&items, "").len(), 3);
}

#[test]
fn fuzzy_filter_positions_non_empty() {
    let items = make_items(&["println"]);
    let matches = fuzzy_filter(&items, "prl");
    assert!(!matches[0].positions.is_empty());
    // 'p' at 0, 'r' at 2 (p-r-i-n-t-l-n: p=0,r=2), 'l' at 5
    assert_eq!(matches[0].positions[0], 0);
}

#[test]
fn fuzzy_filter_no_match_returns_empty() {
    let items = make_items(&["abc"]);
    assert!(fuzzy_filter(&items, "xyz").is_empty());
}

#[test]
fn refilter_locally_when_prefix_extension() {
    assert!(should_refilter_locally(false, "pri", "prin", true));
}

#[test]
fn refilter_remotely_when_incomplete() {
    assert!(!should_refilter_locally(true, "pri", "prin", true));
}

#[test]
fn refilter_remotely_when_anchor_moved() {
    assert!(!should_refilter_locally(false, "pri", "prin", false));
}

#[test]
fn refilter_remotely_when_not_prefix() {
    // "pra" is not a prefix extension of "pri"
    assert!(!should_refilter_locally(false, "pri", "pra", true));
}

#[test]
fn empty_filter_incomplete_advanced_query_rerequests() {
    assert_eq!(resolve_empty_filter(true, "p", "pr"), EmptyFilterAction::Rerequest);
}

#[test]
fn empty_filter_incomplete_same_query_dismisses() {
    assert_eq!(resolve_empty_filter(true, "pr", "pr"), EmptyFilterAction::Dismiss);
}

#[test]
fn empty_filter_complete_rerequests_when_query_advanced() {
    // Even for isIncomplete=false, a stale bounded list that has no local match
    // for the 2nd character should trigger a re-request rather than dismissal.
    assert_eq!(resolve_empty_filter(false, "p", "pr"), EmptyFilterAction::Rerequest);
}

#[test]
fn empty_filter_complete_dismisses_when_query_unchanged() {
    assert_eq!(resolve_empty_filter(false, "pr", "pr"), EmptyFilterAction::Dismiss);
}

#[test]
fn word_prefix_at_the_start_of_the_text() {
    let rope = Rope::from_str("_x1 ");
    assert!(compute_word_prefix(&rope, 0).is_none());
    assert_eq!(compute_word_prefix(&rope, 3), Some((0, "_x1".to_string())));
    assert!(compute_word_prefix(&rope, 4).is_none());
    // Letters beyond ASCII are part of a word.
    let umlaut = Rope::from_str("größe");
    assert_eq!(compute_word_prefix(&umlaut, 5), Some((0, "größe".to_string())));
}

#[test]
fn scores_of_neighbours_and_starts() {
    let items = make_items(&["println"]);
    let all = fuzzy_filter(&items, "prin");
    let gap = fuzzy_filter(&items, "prn");
    assert_eq!(all[0].positions, vec![0, 1, 2, 3]);
    assert_eq!(gap[0].positions, vec![0, 1, 3]);
    assert!(all[0].score > gap[0].score);
    assert!(all[0].word_start && gap[0].word_start);
    let late = fuzzy_filter(&items, "ln");
    assert!(!late[0].word_start);
    assert_eq!(late[0].positions, vec![5, 6]);
}

#[test]
fn words_start_at_separators_and_humps() {
    let score = |label: &str, query: &str| fuzzy_filter(&make_items(&[label]), query)[0].score;
    // The start of the text is a prefix, and no boundary besides.
    assert_eq!(score("A", "A"), 100);
    assert_eq!(score("a", "a"), 105);
    assert_eq!(score("a_B", "B"), 10);
    assert_eq!(score("a-B", "B"), 10);
    assert_eq!(score("a.B", "B"), 10);
    assert_eq!(score("aB", "B"), 10);
    // Neither a slash, nor a colon or a space, separates words; nor do two capitals.
    assert_eq!(score("a/B", "B"), 0);
    assert_eq!(score("a:B", "B"), 0);
    assert_eq!(score("a B", "B"), 0);
    assert_eq!(score("AB", "B"), 0);
    assert_eq!(score("a_b", "b"), 15);
    assert_eq!(score("aBc", "Bc"), 30);
}

#[test]
fn a_match_with_case_is_one_without() {
    assert_eq!(subsequence_match("a", "a", true), Some((100, true, vec![0])));
    assert_eq!(subsequence_match("a/b", "b", true), Some((0, false, vec![2])));
    assert_eq!(subsequence_match("xfooFooBar", "FB", true), Some((20, false, vec![4, 7])));
    assert_eq!(subsequence_match("xfooFooBar", "FB", false), Some((15, false, vec![1, 7])));
    assert!(subsequence_match("ab", "ba", false).is_none() && subsequence_match("ab", "", true).is_none());
    let items = make_items(&["xFooBar", "xfooFooBar"]);
    for (strict, loose) in [("FB", "fb"), ("FoB", "fob"), ("Bar", "bar")] {
        for m in fuzzy_filter(&items, strict) {
            let all = fuzzy_filter(&items, loose);
            let same = all.iter().find(|l| l.item_ix == m.item_ix).unwrap();
            assert!(same.positions.iter().zip(&m.positions).all(|(a, b)| a <= b));
        }
    }
}

#[test]
fn every_item_is_listed_at_most_once() {
    let items = make_items(&["aa", "ba", "ab", "aa", "c"]);
    let mut ix: Vec<usize> = fuzzy_filter(&items, "a").iter().map(|m| m.item_ix).collect();
    ix.sort();
    assert_eq!(ix, vec![0, 1, 2, 3]);
}

#[test]
fn a_longer_query_lists_no_more_items() {
    let items = make_items(&["println", "print", "eprintln", "panic"]);
    for (short, long) in [("p", "pr"), ("pr", "prn"), ("prn", "prnl"), ("", "z")] {
        let wide = labels_for(&items, short);
        assert!(labels_for(&items, long).iter().all(|l| wide.contains(l)));
    }
}

#[test]
fn filter_text_and_sort_text_take_precedence() {
    let mut items = make_items(&["zebra", "apple"]);
    items[0].filter_text = Some("fruit".to_string());
    items[1].filter_text = Some("fruit".to_string());
    // Equally good: the sort text decides.
    items[0].sort_text = Some("1".to_string());
    items[1].sort_text = Some("2".to_string());
    assert_eq!(labels_for(&items, "fru"), vec!["zebra", "apple"]);
    assert!(labels_for(&items, "zeb").is_empty());
}

#[test]
fn smart_case_beyond_ascii() {
    let items = make_items(&["Öl", "öl"]);
    assert_eq!(labels_for(&items, "ö").len(), 2);
    assert_eq!(labels_for(&items, "Ö"), vec!["Öl"]);
}

#[test]
fn the_same_query_is_no_prefix_of_a_shorter_one() {
    assert!(should_refilter_locally(false, "pri", "pri", true));
    assert!(!should_refilter_locally(false, "pri", "pr", true));
    assert!(should_refilter_locally(false, "", "x", true));
}
