use faber::buffer_view::ColorRole;
use faber::keys::KeyPress;
use faber::project_search_view::{
    ActiveInput, ProjectSearchInfo, ProjectSearchView, SearchBody, SearchKey, SearchOption, TipKind,
};
use faber::search::Match;
use faber::search_results::{
    build_preview_spans, hit_matches, is_in_order, ordered_matches, replace_in_text, FileSearchResult, ResultRow,
    RowView, SearchHit,
};
use faber::text_input::CaretMove;

fn hit(line: usize, line_start_char: usize, preview: &str, ranges: &[(usize, usize)]) -> SearchHit {
    SearchHit {
        line,
        col: ranges.first().map_or(0, |r| r.0),
        line_start_char,
        preview: preview.to_string(),
        ranges: ranges.iter().map(|&(start, end)| Match { start, end }).collect(),
    }
}

fn results() -> Vec<FileSearchResult> {
    vec![
        FileSearchResult {
            path: "/p/src/a.rs".to_string(),
            hits: vec![hit(5, 40, "let foo = foo;", &[(4, 7), (10, 13)]), hit(6, 55, "foo", &[(0, 3)])],
        },
        FileSearchResult { path: "/p/b.rs".to_string(), hits: vec![hit(0, 0, "foo", &[(0, 3)])] },
    ]
}

fn searched() -> ProjectSearchView {
    let mut v = ProjectSearchView::new("foo".to_string());
    let g = v.schedule_search(true).unwrap();
    assert!(v.apply_results(g, results(), false));
    v
}

fn key(name: &str, typed: Option<&str>) -> KeyPress {
    KeyPress {
        key: name.to_string(),
        key_char: typed.map(|t| t.to_string()),
        shift: false,
        control: false,
        alt: false,
        platform: false,
    }
}

#[test]
fn a_search_runs_its_course() {
    let mut v = ProjectSearchView::new(String::new());
    assert_eq!(v.body_state(), SearchBody::Tips);
    assert_eq!(v.match_info(), ProjectSearchInfo::Blank);
    assert!(v.schedule_search(true).is_none());
    v.set_query("foo".to_string());
    assert!(v.schedule_search(false).is_none());
    let g = v.schedule_search(true).unwrap();
    assert_eq!((v.body_state(), v.match_info()), (SearchBody::Searching, ProjectSearchInfo::Searching));
    assert!(!v.apply_results(g + 1, results(), false));
    assert!(v.apply_results(g, results(), false));
    assert_eq!(v.match_info(), ProjectSearchInfo::Counts { matches: 3, files: 2 });
    assert_eq!(v.match_info().label("s", "n", "l"), "3/2");
    assert_eq!(v.body_state(), SearchBody::Results);
    let g = v.schedule_search(true).unwrap();
    v.apply_results(g, vec![], false);
    assert_eq!((v.body_state(), v.match_info()), (SearchBody::NoResults, ProjectSearchInfo::NoResults));
    assert_eq!(v.match_info().label("s", "n", "l"), "n");
    let g = v.schedule_search(true).unwrap();
    v.apply_results(g, results(), true);
    assert_eq!(v.match_info(), ProjectSearchInfo::LimitReached { matches: 3 });
    assert_eq!(v.match_info().label("s", "n", "l"), "l");
}

#[test]
fn rows_of_results_and_their_context() {
    let mut v = searched();
    let f = 0;
    assert_eq!(
        v.list.rows,
        vec![
            ResultRow::FileHeader { file_idx: f },
            ResultRow::ExpandAbove { file_idx: f },
            ResultRow::Hit { file_idx: f, hit_idx: 0 },
            ResultRow::Hit { file_idx: f, hit_idx: 1 },
            ResultRow::ExpandBelow { file_idx: f },
            ResultRow::FileHeader { file_idx: 1 },
            ResultRow::Hit { file_idx: 1, hit_idx: 0 },
            ResultRow::ExpandBelow { file_idx: 1 },
        ]
    );
    v.active_row = Some(2);
    assert_eq!(v.context_target(), Some(0));
    assert!(v.list.needs_content(0));
    v.expand_context_for_active(Some("0\n1\n2\n3\n4\n5\n6\n7\n8\n"));
    assert!(!v.list.needs_content(0));
    assert_eq!(
        v.list.rows[1..9],
        [
            ResultRow::ExpandAbove { file_idx: f },
            ResultRow::ContextLine { file_idx: f, line_number: 2 },
            ResultRow::ContextLine { file_idx: f, line_number: 3 },
            ResultRow::ContextLine { file_idx: f, line_number: 4 },
            ResultRow::Hit { file_idx: f, hit_idx: 0 },
            ResultRow::Hit { file_idx: f, hit_idx: 1 },
            ResultRow::ContextLine { file_idx: f, line_number: 7 },
            ResultRow::ContextLine { file_idx: f, line_number: 8 },
        ]
    );
    v.list.expand_context(0, true, false);
    assert_eq!(v.list.rows[1], ResultRow::ContextLine { file_idx: f, line_number: 0 });
    v.list.context_above.insert(&v.list.results[0].path, usize::MAX - 2);
    assert!(!v.list.has_room(0) && !v.list.try_expand_context(0, false, true));
    assert!(!v.try_expand_context_for_active(None));
    v.list.context_above.clear();
    assert!(v.list.try_expand_context(0, true, false));
    assert!(v.try_expand_context_for_active(None));
    assert_eq!(v.list.context_above.get(&v.list.results[0].path), Some(&6));
    v.active_row = None;
    assert_eq!(v.context_target(), Some(0));
    assert_eq!(ProjectSearchView::new(String::new()).context_target(), None);
}

#[test]
fn what_a_search_looks_for() {
    let mut v = ProjectSearchView::new("foo".to_string());
    v.inputs.included.insert("*.rs");
    v.inputs.excluded.insert("target");
    v.toggle(SearchOption::Word, false);
    let open = ["/p/a.rs".to_string(), String::new()];
    let q = v.project_query(&open);
    assert_eq!((q.find.text.as_str(), q.find.whole_word, q.find.regex), ("foo", true, false));
    assert_eq!((q.included.as_str(), q.excluded.as_str(), q.include_ignored), ("*.rs", "target", false));
    assert!(q.scope.is_none());
    v.toggle(SearchOption::OpenFiles, false);
    assert_eq!(v.project_query(&open).scope, Some(vec!["/p/a.rs".to_string()]));
}

#[test]
fn folding_results() {
    let mut v = searched();
    assert!(!v.list.all_collapsed());
    let before = v.list.rows.clone();
    v.list.toggle_file_collapsed(0);
    assert_eq!(v.list.rows[1], ResultRow::FileHeader { file_idx: 1 });
    v.list.toggle_file_collapsed(0);
    assert_eq!(v.list.rows, before);
    v.list.collapse_all_results();
    assert!(v.list.all_collapsed());
    assert_eq!(v.list.rows.len(), 2);
    assert!(v.toolbar(None, true).unfolds);
    v.list.expand_all_results();
    assert_eq!(v.list.rows, before);
    assert!(!ProjectSearchView::new(String::new()).list.all_collapsed());
}

#[test]
fn rows_as_they_are_shown() {
    let mut v = searched();
    match v.list.result_row(v.list.rows[0], Some("/p")) {
        RowView::Header { name, rel_path, hits, collapsed, line, col } => {
            assert_eq!((name.as_str(), rel_path.as_str()), ("a.rs", "src/a.rs"));
            assert_eq!((hits, collapsed, line, col), (2, false, 5, 4));
        }
        _ => panic!("header"),
    }
    match v.list.result_row(v.list.rows[0], None) {
        RowView::Header { rel_path, .. } => assert_eq!(rel_path, "/p/src/a.rs"),
        _ => panic!("header"),
    }
    match v.list.result_row(v.list.rows[2], None) {
        RowView::Hit { number, spans, line, col } => {
            assert_eq!((number.as_str(), line, col), ("6", 5, 4));
            let shown: Vec<(&str, bool)> = spans.iter().map(|s| (s.text.as_str(), s.matched)).collect();
            assert_eq!(shown, vec![("let ", false), ("foo", true), (" = ", false), ("foo", true), (";", false)]);
        }
        _ => panic!("hit"),
    }
    assert!(matches!(v.list.result_row(v.list.rows[1], None), RowView::MoreAbove));
    assert!(matches!(v.list.result_row(v.list.rows[4], None), RowView::MoreBelow));
    v.list.load_file_content(0, Some("a\nb\nc\nd\n  e\nf\ng\n"));
    v.list.expand_context(0, true, false);
    match v.list.result_row(ResultRow::ContextLine { file_idx: 0, line_number: 4 }, None) {
        RowView::Context { number, text, line } => assert_eq!((number.as_str(), text.as_str(), line), ("5", "  e", 4)),
        _ => panic!("context"),
    }
    match v.list.result_row(ResultRow::ContextLine { file_idx: 0, line_number: 99 }, None) {
        RowView::Context { text, .. } => assert_eq!(text, ""),
        _ => panic!("context"),
    }
}

#[test]
fn previews_beyond_the_line_are_cut() {
    let spans = build_preview_spans("abc", &[Match { start: 1, end: 99 }]);
    let shown: Vec<(&str, bool)> = spans.iter().map(|s| (s.text.as_str(), s.matched)).collect();
    assert_eq!(shown, vec![("a", false), ("bc", true)]);
    assert_eq!(build_preview_spans("abc", &[]).len(), 1);
    assert!(build_preview_spans("", &[Match { start: 0, end: 2 }]).is_empty());
}

#[test]
fn keys_in_the_inputs() {
    let mut v = ProjectSearchView::new(String::new());
    assert_eq!(v.on_key_down(None, &key("a", Some("a")), false), SearchKey::Nothing);
    assert_eq!(v.on_key_down(Some(ActiveInput::Query), &key("a", Some("a")), true), SearchKey::Search);
    assert_eq!((v.inputs.query.text.as_str(), v.search_generation), ("A", 1));
    assert_eq!(v.on_key_down(Some(ActiveInput::Replace), &key("b", Some("b")), false), SearchKey::Edited);
    assert_eq!(v.search_generation, 1);
    assert_eq!(v.on_key_down(Some(ActiveInput::Query), &key("escape", None), false), SearchKey::Leave);
    assert_eq!(v.on_key_down(Some(ActiveInput::Query), &key("enter", None), false), SearchKey::Search);
    assert_eq!(v.on_key_down(Some(ActiveInput::Include), &key("enter", None), false), SearchKey::Nothing);
    let mut k = key("enter", None);
    k.shift = true;
    assert_eq!(v.on_key_down(Some(ActiveInput::Exclude), &k, false), SearchKey::ExpandContext);
    let tab = key("tab", None);
    let focus = |input| SearchKey::Focus { input };
    assert_eq!(v.on_key_down(Some(ActiveInput::Query), &tab, false), focus(ActiveInput::Query));
    v.toggle_filters();
    assert_eq!(v.on_key_down(Some(ActiveInput::Query), &tab, false), focus(ActiveInput::Include));
    assert_eq!(v.on_key_down(Some(ActiveInput::Include), &tab, false), focus(ActiveInput::Exclude));
    assert_eq!(v.on_key_down(Some(ActiveInput::Exclude), &tab, false), focus(ActiveInput::Query));
    assert_eq!(v.on_key_down(Some(ActiveInput::Replace), &tab, false), focus(ActiveInput::Query));
}

#[test]
fn deleting_in_the_inputs() {
    let mut v = ProjectSearchView::new("one two".to_string());
    let mut k = key("backspace", None);
    k.alt = true;
    assert_eq!(v.on_key_down(Some(ActiveInput::Query), &k, false), SearchKey::Search);
    assert_eq!(v.inputs.query.text, "one ");
    k.alt = false;
    k.platform = true;
    v.on_ps_move(None, CaretMove::Left);
    assert_eq!(v.on_key_down(Some(ActiveInput::Query), &k, false), SearchKey::Search);
    assert_eq!(v.inputs.query.text, " ");
    assert_eq!(v.on_key_down(Some(ActiveInput::Query), &k, false), SearchKey::Nothing);
    v.on_ps_move(Some(ActiveInput::Query), CaretMove::End);
    assert!(v.on_ps_backspace(None));
    assert!(!v.on_ps_backspace(Some(ActiveInput::Include)));
    assert_eq!(v.inputs.query.text, "");
}

#[test]
fn options_start_a_search() {
    let mut v = ProjectSearchView::new(String::new());
    assert!(!v.toggle(SearchOption::Case, true));
    assert!(v.options.case_sensitive);
    assert!(v.toggle(SearchOption::Regex, false));
    v.set_query("x".to_string());
    assert!(v.toggle(SearchOption::Word, true));
    v.toggle(SearchOption::Ignored, false);
    assert!(v.options.regex && v.options.whole_word && v.options.include_ignored);
    let open = vec!["/a".to_string(), String::new(), "/b".to_string()];
    assert!(v.scope_paths(&open).is_none());
    v.toggle(SearchOption::OpenFiles, false);
    assert_eq!(v.scope_paths(&open).unwrap(), vec!["/a", "/b"]);
    assert!(v.toggle_replace());
    assert!(!v.toggle_replace());
    let t = v.toolbar(Some(ActiveInput::Query), true);
    assert!(t.replace.is_none() && t.filters.is_none() && t.query.caret_shown && !t.has_results);
}

#[test]
fn replacing_in_files() {
    let mut v = searched();
    assert!(!v.can_replace_all());
    v.inputs.replace.insert("x");
    assert!(v.can_replace_all());
    assert_eq!(v.replace_one_target(), None);
    v.active_row = Some(3);
    assert_eq!(v.replace_one_target(), Some((0, 1)));
    v.active_row = Some(5);
    assert_eq!(v.replace_one_target(), Some((1, 0)));
    v.active_row = Some(4);
    assert_eq!(v.replace_one_target(), None);
    let content = "foo\nlet foo = foo;\n";
    v.list.results[0].hits = vec![hit(1, 4, "let foo = foo;", &[(4, 7), (10, 13)]), hit(0, 0, "foo", &[(0, 3)])];
    assert_eq!(v.list.replaced_file(0, None, content, "x").unwrap(), "x\nlet x = x;\n");
    assert_eq!(v.list.replaced_file(0, Some(0), content, "größe").unwrap(), "foo\nlet größe = größe;\n");
    // The file has changed since: nothing is replaced.
    assert!(v.list.replaced_file(0, None, "short", "x").is_none());
}

#[test]
fn what_was_found_before_replacing_is_dropped() {
    let mut v = searched();
    let before = v.schedule_search(true).unwrap();
    v.replaced();
    let after = v.schedule_search(true).unwrap();
    assert_eq!(after, before + 1);
    assert!(!v.apply_results(before, results(), false));
    assert!(v.apply_results(after, vec![], false));
}

#[test]
fn matches_are_put_in_order() {
    let hits = [hit(3, 30, "", &[(0, 1)]), hit(0, 0, "", &[(5, 6), (2, 3)])];
    let starts: Vec<usize> = ordered_matches(&hits).iter().map(|m| m.start).collect();
    assert_eq!(starts, vec![2, 5, 30]);
    assert_eq!(hit_matches(&hits[1]).len(), 2);
    assert!(!is_in_order(&hit_matches(&hits[1]), 100));
    assert!(is_in_order(&ordered_matches(&hits), 31) && !is_in_order(&ordered_matches(&hits), 30));
    assert!(!is_in_order(&[Match { start: 3, end: 2 }], 9));
    assert_eq!(replace_in_text("abc", &[Match { start: 1, end: 2 }], ""), "ac");
}

#[test]
fn tips_switch_what_they_are_about() {
    let mut v = ProjectSearchView::new(String::new());
    assert_eq!(v.follow_tip(TipKind::Word), SearchKey::Edited);
    assert!(v.options.whole_word && v.search_generation == 0);
    let tips = v.tips();
    let kinds: Vec<TipKind> = tips.iter().map(|t| t.kind).collect();
    assert_eq!(kinds, vec![TipKind::Case, TipKind::Word, TipKind::Regex, TipKind::Filters, TipKind::Replace]);
    assert!(tips[1].active && !tips[0].active);
    assert_eq!((tips[1].color, tips[1].background), (ColorRole::TextOnAccent, ColorRole::Accent));
    assert_eq!((tips[0].color, tips[0].background), (ColorRole::TextSubtle, ColorRole::BgSunken));
    assert_eq!(v.follow_tip(TipKind::Replace), SearchKey::Focus { input: ActiveInput::Replace });
    assert!(v.replace_open);
    assert_eq!(v.follow_tip(TipKind::Replace), SearchKey::Edited);
    assert_eq!(v.follow_tip(TipKind::Filters), SearchKey::Edited);
    assert!(v.filters_open && !v.replace_open);
    let mut v = ProjectSearchView::new("foo".to_string());
    assert_eq!(v.follow_tip(TipKind::Regex), SearchKey::Search);
    assert!(v.options.regex && v.search_generation == 1);
}
