use faber::document::Document;
use faber::search::{replace_matches, FindQuery, InputFocus, Match, MatchInfo, SearchState};
use faber::text_input::CaretMove;
use ropey::Rope;

fn found(places: &[(usize, usize)]) -> Vec<Match> {
    places.iter().map(|&(start, end)| Match { start, end }).collect()
}

#[test]
fn a_search_bar_opens_and_closes() {
    let mut s = SearchState::new();
    assert_eq!(s.open_search(), InputFocus::Search);
    s.query.insert("x");
    s.toggle_case();
    s.toggle_whole_word();
    s.toggle_regex();
    assert!(s.case_sensitive && s.whole_word && s.regex);
    assert_eq!(s.toggle_replace(), InputFocus::Replace);
    assert_eq!(s.toggle_replace(), InputFocus::Search);
    // Opening it again closes it.
    assert_eq!(s.open_search(), InputFocus::Editor);
    assert!(!s.show_search && !s.case_sensitive);
    assert_eq!(s.query.text, "");
}

#[test]
fn what_a_search_bar_looks_for() {
    let mut s = SearchState::new();
    assert!(s.find_query().is_none());
    s.open_replace();
    s.query.insert("x+");
    s.toggle_regex();
    let q = s.find_query().unwrap();
    assert_eq!((q.text.as_str(), q.case_sensitive, q.whole_word, q.regex), ("x+", false, false, true));
    let w = FindQuery::of_word("größe".to_string());
    assert_eq!((w.text.as_str(), w.case_sensitive, w.whole_word, w.regex), ("größe", true, true, false));
}

#[test]
fn going_from_match_to_match() {
    let mut s = SearchState::new();
    s.open_search();
    s.query.insert("a");
    assert_eq!(s.match_info(), MatchInfo::NoMatches);
    assert!(s.do_find_next().is_none());
    s.update_matches(found(&[(0, 1), (4, 5), (8, 9)]));
    assert_eq!(s.match_info(), MatchInfo::Current { number: 1, total: 3 });
    assert_eq!(s.do_find_next().unwrap().head, 5);
    assert_eq!(s.match_info().label("none"), "2/3");
    s.do_find_next();
    s.do_find_next();
    assert_eq!(s.match_idx, 0);
    s.do_find_prev();
    assert_eq!(s.match_idx, 2);
    s.update_matches(found(&[(0, 1)]));
    assert_eq!(s.match_idx, 0);
    s.close_search();
    s.update_matches(found(&[(0, 1)]));
    assert!(s.matches.is_empty());
    assert_eq!(s.match_info().label("none"), "");
}

#[test]
fn what_the_search_bar_shows() {
    let mut s = SearchState::new();
    s.open_replace();
    s.query.insert("ab");
    s.on_input_move(InputFocus::Search, CaretMove::Left);
    s.on_input_move(InputFocus::Editor, CaretMove::Start);
    let v = s.bar(InputFocus::Search, true);
    assert_eq!((v.query.caret_byte, v.query.caret_shown), (1, true));
    assert!(v.replace.unwrap().placeholder);
    assert_eq!(v.info.label("none"), "none");
    s.on_input_move(InputFocus::Replace, CaretMove::End);
    assert!(!s.bar(InputFocus::Replace, true).replace.unwrap().placeholder);
}

#[test]
fn every_match_is_replaced_at_once() {
    let mut d = Document { rope: Rope::from_str("größe, größe"), path: String::new(), dirty: false };
    let inverse = replace_matches(&mut d, &found(&[(2, 4), (9, 11)]), "oss").unwrap();
    assert_eq!(d.rope.to_string(), "grosse, grosse");
    assert!(d.dirty);
    d.apply(&inverse);
    assert_eq!(d.rope.to_string(), "größe, größe");
    assert!(replace_matches(&mut d, &[], "x").is_none());
}
