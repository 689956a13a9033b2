use faber::blink::Blink;
use faber::buffer_view::{ColorRole, DiagnosticEntry, Severity};
use faber::cycle::{next_ix, prev_ix, step};
use faber::keys::{swap_case, KeyPress};
use faber::language_picker::{Language, LanguagePickerView};
use faber::locations::Location;
use faber::pane::{title_from, Pane, Tab, TabKind, TabLabels};
use faber::panels::diagnostics_panel::{DiagnosticsPanel, FileProblems};
use faber::panels::references_panel::{group_by_file, line_preview, ReferencesPanel};
use faber::panels::results_list::{
    counts_shown, file_header, header_row, line_label, severity_badge, split_path, FileCounts, Row,
};
use faber::path_map::PathMap;
use faber::paths::{is_one_file, same_parts, same_path};
use faber::text_input::{CaretMove, TextInput};
use std::path::PathBuf;

fn labels() -> TabLabels {
    TabLabels {
        untitled: "untitled".to_string(),
        settings: "Settings".to_string(),
        search: "Search".to_string(),
        problems: "Problems".to_string(),
    }
}

fn ids(p: &Pane) -> Vec<usize> {
    p.tabs.iter().map(|t| t.id).collect()
}

fn three() -> Pane {
    let mut p = Pane::new();
    p.push_editor_tab("/p/a.rs".to_string());
    p.push_settings_tab();
    p.push_editor_tab("/p/b.rs".to_string());
    p
}

#[test]
fn tabs_are_added_and_found() {
    let mut p = Pane::new();
    assert!(p.is_empty() && p.active_tab().is_none());
    let a = p.push_editor_tab("/p/a.rs".to_string());
    let s = p.push_project_search_tab();
    assert_eq!(p.tab_count(), 2);
    assert_eq!(p.active_tab().unwrap().id, s);
    assert_eq!(p.find_editor_by_path("/p/a.rs"), Some(0));
    assert_eq!(p.find_editor_by_path("/p//a.rs"), Some(0));
    assert_eq!(p.find_editor_by_path("/p/b.rs"), None);
    assert_eq!(p.find_kind(TabKind::ProjectSearch), Some(1));
    assert_eq!(p.find_kind(TabKind::Problems), None);
    assert_eq!(p.tab_by_id(a).unwrap().0, 0);
    assert!(p.tab_by_id(99).is_none() && p.tab_at(7).is_none());
    let problems = p.push_problems_tab();
    assert_eq!(p.tab_at(2).unwrap().id, problems);
    let moved = p.push_tab_raw(Tab { id: 5, kind: TabKind::Settings, path: None });
    assert_eq!(p.active_tab().unwrap().id, moved);
}

#[test]
fn closing_undoes_opening() {
    let mut p = three();
    let before = ids(&p);
    p.push_problems_tab();
    let gone = p.remove_tab(3).unwrap();
    assert_eq!(gone.kind, TabKind::Problems);
    assert_eq!(ids(&p), before);
    assert!(p.remove_tab(3).is_none());
}

#[test]
fn closing_another_tab_keeps_the_active_one() {
    let mut p = three();
    p.set_active(Some(2));
    let active = p.active_tab().unwrap().id;
    p.remove_tab(0);
    assert_eq!(p.active_tab().unwrap().id, active);
    p.remove_tab(1);
    p.remove_tab(0);
    assert!(p.active.is_none() && p.is_empty());
}

#[test]
fn moving_a_tab_there_and_back() {
    let mut p = three();
    let before = ids(&p);
    p.set_active(Some(0));
    let active = p.active_tab().unwrap().id;
    p.reorder_tab(0, 2);
    assert_eq!(ids(&p), vec![before[1], before[2], before[0]]);
    assert_eq!(p.active_tab().unwrap().id, active);
    p.reorder_tab(2, 0);
    assert_eq!(ids(&p), before);
}

#[test]
fn titles_of_tabs() {
    let p = three();
    assert_eq!(p.tabs[0].title(true, &labels()), ("a.rs".to_string(), true));
    assert_eq!(p.tabs[1].title(false, &labels()), ("Settings".to_string(), false));
    assert_eq!(title_from(TabKind::Editor, None, false, &labels()), ("untitled".to_string(), false));
    assert_eq!(title_from(TabKind::Problems, None, true, &labels()).0, "Problems");
}

#[test]
fn a_restarted_caret_does_not_heed_old_timers() {
    let mut b = Blink::new();
    let first = b.reset_blink();
    assert!(b.tick(first));
    assert!(!b.on);
    let second = b.reset_blink();
    assert!(b.on);
    assert!(!b.tick(first));
    assert!(b.on);
    assert!(b.tick(second));
}

#[test]
fn walking_round_a_list() {
    assert_eq!((next_ix(3, 2), prev_ix(3, 0)), (0, 2));
    for i in 0..3 {
        assert_eq!(prev_ix(3, next_ix(3, i)), i);
        assert_eq!(step(3, i, true), next_ix(3, i));
        assert_eq!(step(3, i, false), prev_ix(3, i));
    }
    assert_eq!(step(3, 7, true), 2);
}

#[test]
fn caps_lock_swaps_ascii_letters_only() {
    assert_eq!(swap_case("aBcß1"), "AbCß1");
    assert_eq!(swap_case(&swap_case("Hello, Wörld")), "Hello, Wörld");
}

#[test]
fn keys_that_type() {
    let mut k = KeyPress {
        key: "a".to_string(),
        key_char: Some("ä".to_string()),
        shift: false,
        control: false,
        alt: true,
        platform: false,
    };
    assert_eq!(k.typed_text(), Some("ä"));
    assert!(k.is("a") && !k.is("b"));
    k.control = true;
    assert_eq!(k.typed_text(), None);
    k.control = false;
    k.key_char = Some("\u{7f}".to_string());
    assert_eq!(k.typed_text(), None);
}

#[test]
fn an_input_and_its_caret() {
    let mut i = TextInput::filled("größe".to_string());
    assert_eq!(i.cursor, 5);
    i.move_caret(CaretMove::Left);
    i.move_caret(CaretMove::Left);
    i.insert("xy");
    assert_eq!((i.text.as_str(), i.cursor), ("gröxyße", 5));
    let v = i.shown(true, true);
    assert_eq!((v.text.as_str(), v.caret_byte, v.caret_shown, v.placeholder), ("gröxyße", 6, true, false));
    assert!(i.backspace() && i.backspace());
    i.move_caret(CaretMove::Start);
    assert!(!i.backspace() && !i.delete_word() && !i.delete_to_start());
    i.move_caret(CaretMove::End);
    i.move_caret(CaretMove::Right);
    assert_eq!(i.cursor, 5);
    assert!(i.delete_word());
    assert!(i.shown(false, true).placeholder);
}

#[test]
fn the_language_picker() {
    let languages = vec![
        Language { id: "c".to_string(), name: "C".to_string() },
        Language { id: "rust".to_string(), name: "Rust".to_string() },
        Language { id: "toml".to_string(), name: "TOML".to_string() },
    ];
    let mut p = LanguagePickerView::new(languages, Some("rust".to_string()));
    assert_eq!(p.picked().unwrap().id, "rust");
    p.select_next();
    p.select_next();
    assert_eq!(p.picked().unwrap().id, "c");
    p.select_prev();
    assert_eq!(p.picked().unwrap().id, "toml");
    let rows = p.rows();
    assert!(rows[1].current && !rows[1].selected && rows[2].selected);
    assert_eq!(rows[0].name, "C");
    assert!(LanguagePickerView::new(vec![], None).picked().is_none());
}

// ── Panels ────────────────────────────────────────────────────────────────────

#[test]
fn paths_are_split_at_the_last_slash() {
    assert_eq!(split_path("src/a/b.rs"), ("b.rs".to_string(), "src/a/".to_string()));
    assert_eq!(split_path("b.rs"), ("b.rs".to_string(), "".to_string()));
    for p in ["", "/", "a/", "x/y/z", "größe/ß"] {
        let (name, dir) = split_path(p);
        assert_eq!(format!("{dir}{name}"), p);
    }
}

#[test]
fn file_headers_show_paths_within_the_project() {
    match file_header(&PathBuf::from("/p/src/a.rs"), Some("/p"), FileCounts::Refs(2)) {
        Row::FileHeader { filename, dir, counts } => {
            assert_eq!((filename.as_str(), dir.as_str()), ("a.rs", "src/"));
            assert_eq!(counts, FileCounts::Refs(2));
        }
        _ => panic!("header"),
    }
    match header_row("/p/src/a.rs", None, FileCounts::Refs(1)) {
        Row::FileHeader { filename, dir, .. } => assert_eq!((filename.as_str(), dir.as_str()), ("a.rs", "/p/src/")),
        _ => panic!("header"),
    }
}

#[test]
fn counts_and_badges() {
    let refs: Vec<String> = counts_shown(FileCounts::Refs(3)).into_iter().map(|c| c.0).collect();
    assert_eq!(refs, vec!["3"]);
    let both = counts_shown(FileCounts::Problems { errors: 2, warnings: 1 });
    assert_eq!(both.len(), 2);
    assert_eq!((both[0].0.as_str(), both[0].1), ("2E", ColorRole::Error));
    assert_eq!((both[1].0.as_str(), both[1].1), ("1W", ColorRole::Warning));
    assert_eq!(counts_shown(FileCounts::Problems { errors: 0, warnings: 0 }).len(), 0);
    assert_eq!(severity_badge(Severity::Error).1, ColorRole::Error);
    assert_eq!(line_label(41), ":42");
}

#[test]
fn references_are_grouped_by_file_in_order() {
    let at = |p: &str, line: usize| Location { path: p.into(), line, character: 1 };
    let groups = group_by_file(&[at("/b", 3), at("/a", 1), at("/b", 0)]);
    let seen: Vec<(&str, usize)> = groups.iter().map(|g| (g.path.to_str().unwrap(), g.entries.len())).collect();
    assert_eq!(seen, vec![("/b", 2), ("/a", 1)]);
    assert_eq!(groups[0].entries, vec![(3, 1), (0, 1)]);
    let mut p = ReferencesPanel::new();
    p.populate(&groups, &[Some("zero\n  one\ntwo\n  three  \n".to_string()), None], Some("/"));
    assert_eq!(p.rows.len(), 5);
    assert!(matches!(&p.rows[1], Row::RefEntry { line: 3, preview, .. } if preview == "three"));
    assert!(matches!(&p.rows[4], Row::RefEntry { line: 1, preview, .. } if preview.is_empty()));
}

#[test]
fn previews_of_lines() {
    assert_eq!(line_preview(Some("a\n  b  \n"), 1), "b");
    assert_eq!(line_preview(Some("a"), 7), "");
    assert_eq!(line_preview(None, 0), "");
}

fn problem(line: u32, severity: Severity) -> DiagnosticEntry {
    DiagnosticEntry {
        lsp_line: line,
        start_char: 0,
        end_char: 1,
        severity,
        deprecated: false,
        unnecessary: false,
        message: "msg".to_string(),
        source: "rustc".to_string(),
    }
}

#[test]
fn the_problems_of_files() {
    let mut p = DiagnosticsPanel::new();
    assert!(p.is_stale(0));
    let files = vec![
        FileProblems { path: "/p/a.rs".into(), entries: vec![problem(4, Severity::Warning), problem(1, Severity::Error)] },
        FileProblems { path: "/p/b.rs".into(), entries: vec![] },
    ];
    p.rebuild_rows(&files, 7, Some("/p"));
    assert!(!p.is_stale(7) && p.is_stale(8));
    assert_eq!((p.total_errors, p.total_warnings), (1, 1));
    assert!(matches!(&p.rows[0], Row::FileHeader { filename, .. } if filename == "a.rs"));
    p.clear();
    assert!(p.rows.is_empty());
    p.set_store();
    assert!(p.is_stale(7));
}

#[test]
fn a_map_by_path() {
    let mut m: PathMap<u32> = PathMap::new();
    m.insert("a", 1);
    m.insert("b", 2);
    m.insert("a", 3);
    assert_eq!(m.get("a"), Some(&3));
    assert!(m.contains_key("b") && !m.contains_key("c"));
    m.remove("a");
    m.remove("c");
    assert_eq!(m.get("a"), None);
    m.clear();
    assert!(!m.contains_key("b"));
}

#[test]
fn a_path_is_one_key_however_it_is_written() {
    let mut m: PathMap<u32> = PathMap::new();
    m.insert("/p/a.rs", 1);
    assert_eq!(m.get("/p//a.rs"), Some(&1));
    m.insert("/p/./a.rs/", 2);
    assert_eq!(m.get("/p/a.rs"), Some(&2));
    assert!(!m.contains_key("p/a.rs") && !m.contains_key("/p/b/../a.rs"));
    m.remove("/p//a.rs");
    assert!(!m.contains_key("/p/a.rs"));
}

#[test]
fn the_same_file_under_two_paths() {
    assert!(same_path("/p//a.rs", "/p/a.rs"));
    assert!(same_path("/p/src/", "/p/src"));
    assert!(!same_path("/p/a.rs", "p/a.rs"));
    assert!(!same_path("/p/a.rs", "/p/A.rs"));
    assert!(!same_path("/p/a.rs", "/p/a.rs/b"));
    let a = [b"p".to_vec(), b"a.rs".to_vec()];
    let b = [b"p".to_vec(), b"b.rs".to_vec()];
    assert!(same_parts(&a, &a) && !same_parts(&a, &a[..1]) && !same_parts(&a, &b));
    assert!(is_one_file(&PathBuf::from("/p/./a.rs"), &PathBuf::from("/p/a.rs")));
    let at = |p: &str, line: usize| Location { path: p.into(), line, character: 0 };
    let groups = group_by_file(&[at("/p/a.rs", 3), at("/p//a.rs", 1), at("/p/b.rs", 0)]);
    let seen: Vec<(&str, usize)> = groups.iter().map(|g| (g.path.to_str().unwrap(), g.entries.len())).collect();
    assert_eq!(seen, vec![("/p/a.rs", 2), ("/p/b.rs", 1)]);
}
