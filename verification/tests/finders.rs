use faber::buffer_view::ColorRole;
use faber::file_finder::{row_text, span_color, FileFinderView, FinderList, FinderRow, PreviewPosition};
use faber::file_preview::{load_file, FilePreview, LoadedFile, PreviewContent, PREVIEW_MAX_BYTES, PREVIEW_MAX_LINES};
use faber::keys::KeyPress;
use faber::matched_text::matched_spans;
use faber::symbol_finder::{SymbolFinderView, SymbolList, SymbolMatch};
use faber::text_input::FinderKey;

fn row(path: &str) -> FinderRow {
    let name_off = path.rfind('/').map_or(0, |i| i + 1);
    FinderRow { rel_path: path.to_string(), name_off, from_history: false, is_ignored: false, positions: vec![] }
}

fn typed(c: &str) -> KeyPress {
    KeyPress {
        key: c.to_string(),
        key_char: Some(c.to_string()),
        shift: false,
        control: false,
        alt: false,
        platform: false,
    }
}

#[test]
fn only_the_latest_search_is_listed() {
    let mut f = FileFinderView::new(false);
    assert_eq!(f.on_key_down(&typed("a")), FinderKey::Typed);
    let first = f.schedule_filter(true, true).unwrap();
    let second = f.schedule_filter(true, true).unwrap();
    assert_ne!(first, second);
    assert!(!f.apply_rows(first, vec![row("x")]));
    assert!(f.rows.is_empty());
    assert_eq!(f.list_state(true), FinderList::Indexing);
    assert!(f.apply_rows(second, vec![row("a.rs"), row("src/b.rs")]));
    assert_eq!(f.list_state(true), FinderList::Rows);
    assert_eq!(f.list_state(false), FinderList::OpenFolder);
    assert_eq!(f.finder_query().text, "a");
}

#[test]
fn the_selection_goes_round() {
    let mut f = FileFinderView::new(false);
    assert!(!f.move_selection(true));
    f.apply_rows(0, vec![row("a"), row("b"), row("c")]);
    assert!(f.move_selection(false));
    assert_eq!(f.selected, 2);
    f.move_selection(true);
    assert_eq!(f.selected, 0);
    assert!(f.set_selection(1) && !f.set_selection(1));
    // Fewer rows take the selection along.
    f.set_selection(2);
    f.apply_rows(0, vec![row("a"), row("b")]);
    assert_eq!(f.selected, 1);
}

#[test]
fn confirming_gives_the_file() {
    let mut f = FileFinderView::new(false);
    f.apply_rows(0, vec![row("src/a.rs")]);
    let (rel, full) = f.confirm(0, Some("/p")).unwrap();
    assert_eq!((full.as_str(), rel.as_str()), ("/p/src/a.rs", "src/a.rs"));
    assert!(f.confirm(1, Some("/p")).is_none());
    assert!(f.confirm(0, None).is_none());
}

#[test]
fn the_query_of_a_finder() {
    let mut f = FileFinderView::new(false);
    for c in ["a", "b", " ", "c"] {
        f.on_key_down(&typed(c));
    }
    assert!(f.on_backspace());
    let mut k = typed("backspace");
    k.key_char = None;
    k.alt = true;
    assert_eq!(f.on_key_down(&k), FinderKey::Deleted);
    assert_eq!(f.query.text, "");
    assert_eq!(f.on_key_down(&k), FinderKey::Nothing);
    assert!(!f.on_backspace());
    assert_eq!(f.list_state(true), FinderList::NoHistory);
}

#[test]
fn the_list_of_extensions() {
    let mut f = FileFinderView::new(false);
    assert_eq!(f.mask_label("All"), "All");
    f.toggle_mask_list();
    assert!(!f.on_dismiss());
    assert!(f.on_dismiss());
    f.set_mask(Some("rs".to_string()));
    assert!(!f.mask_open);
    let items = f.mask_items("All", &[("rs".to_string(), 4), ("md".to_string(), 1)]);
    assert_eq!(items.len(), 3);
    assert!(!items[0].active && items[1].active && !items[2].active);
    assert_eq!(items[1].count, Some(4));
    assert_eq!(items[0].count, None);
}

#[test]
fn toggles_of_the_finder() {
    let mut f = FileFinderView::new(false);
    f.toggle_case();
    f.toggle_word();
    f.toggle_regex();
    let q = f.finder_query();
    assert!(q.case_sensitive && q.whole_word && q.regex && q.mask.is_none());
    assert!(f.toggle_ignored());
    assert!(!f.toggle_ignored());
    let small = f.modal_size(PreviewPosition::Right);
    assert_eq!(small.width, small.from_width);
    assert!(f.toggle_preview());
    let large = f.modal_size(PreviewPosition::Right);
    assert!(large.width > small.width);
    assert_eq!(large.from_width, small.width);
    assert!(!f.enable_preview());
}

#[test]
fn previews_are_loaded_once() {
    let mut f = FileFinderView::new(true);
    f.apply_rows(0, vec![row("a.txt"), row("b.txt")]);
    let load = f.schedule_preview(Some("/p")).unwrap();
    assert_eq!(load.path, "/p/a.txt");
    assert!(matches!(f.preview.content, PreviewContent::Loading));
    f.set_selection(1);
    let later = f.schedule_preview(Some("/p")).unwrap();
    assert!(!f.apply_preview(load, LoadedFile::Binary));
    assert!(f.apply_preview(later, LoadedFile::Text("x\ny".to_string())));
    assert!(matches!(&f.preview.content, PreviewContent::Doc { lines } if lines.len() == 2));
    assert!(f.schedule_preview(Some("/p")).is_none());
    assert!(f.schedule_preview(Some("/p//")).is_none());
    assert!(f.schedule_preview(None).is_none());
}

#[test]
fn files_that_cannot_be_previewed() {
    assert!(matches!(load_file(None, None), LoadedFile::Unreadable));
    assert!(matches!(load_file(Some(PREVIEW_MAX_BYTES + 1), None), LoadedFile::TooLarge));
    assert!(matches!(load_file(Some(3), None), LoadedFile::Unreadable));
    assert!(matches!(load_file(Some(2), Some(vec![b'a', 0])), LoadedFile::Binary));
    assert!(matches!(load_file(Some(1), Some(vec![0xff])), LoadedFile::Binary));
    assert!(matches!(load_file(Some(2), Some("ö".as_bytes().to_vec())), LoadedFile::Text(t) if t == "ö"));
}

#[test]
fn long_files_are_previewed_in_part() {
    let mut p = FilePreview::new();
    p.set_loaded("/a".to_string(), LoadedFile::Text("x\n".repeat(PREVIEW_MAX_LINES + 5)));
    assert!(matches!(&p.content, PreviewContent::Doc { lines } if lines.len() == PREVIEW_MAX_LINES));
    p.set_loaded("/b".to_string(), LoadedFile::Binary);
    assert!(matches!(p.content, PreviewContent::Binary));
    assert_eq!(p.path.unwrap(), "/b");
}

#[test]
fn rows_with_matched_characters() {
    let mut r = row("src/größe.rs");
    r.positions = vec![0, 4, 5];
    let t = row_text(&r);
    let name: Vec<(&str, bool)> = t.name.iter().map(|s| (s.text.as_str(), s.matched)).collect();
    assert_eq!(name, vec![("gr", true), ("öße.rs", false)]);
    let dir = t.dir.unwrap();
    assert_eq!((dir[0].text.as_str(), dir[0].matched), ("s", true));
    assert_eq!((dir[1].text.as_str(), dir[1].matched), ("rc", false));
    assert_eq!(span_color(&dir[0], ColorRole::Text), ColorRole::Accent);
    assert_eq!(span_color(&dir[1], ColorRole::Text), ColorRole::Text);
    assert!(row_text(&row("a.rs")).dir.is_none());
}

#[test]
fn matched_characters_stand_in_spans() {
    let spans = matched_spans("abcd", &[11, 12], 10);
    let shown: Vec<(usize, usize, bool)> = spans.iter().map(|s| (s.from, s.to, s.matched)).collect();
    assert_eq!(shown, vec![(0, 1, false), (1, 3, true), (3, 4, false)]);
    assert!(matched_spans("", &[0], 0).is_empty());
}

#[test]
fn the_finder_of_symbols() {
    let mut f = SymbolFinderView::new();
    assert_eq!(f.list_state(false, false), SymbolList::OpenFolder);
    assert_eq!(f.list_state(true, false), SymbolList::Indexing);
    assert_eq!(f.on_key_down(&typed("m")), FinderKey::Typed);
    let g = f.schedule_filter(true).unwrap();
    let found = vec![
        SymbolMatch { name: "main".to_string(), rel_path: "src/main.rs".to_string(), source_line: 9, positions: vec![0] },
        SymbolMatch { name: "mod".to_string(), rel_path: "a.rs".to_string(), source_line: 0, positions: vec![] },
    ];
    assert!(f.apply_matches(g, found));
    assert_eq!(f.rows[0].path_and_line, "src/main.rs:10");
    assert_eq!(f.list_state(true, true), SymbolList::Rows);
    assert_eq!(f.confirm(Some("/p")), Some(("/p/src/main.rs".to_string(), 9)));
    assert!(f.move_selection(false));
    assert_eq!(f.confirm(Some("/p")), Some(("/p/a.rs".to_string(), 0)));
    assert!(f.hover_row(0) && !f.hover_row(0));
    assert!(f.confirm(None).is_none());
    assert!(f.on_backspace());
    assert!(!f.apply_matches(g + 1, vec![]));
}

#[test]
fn the_list_and_the_preview_share_the_finder() {
    assert!(FileFinderView::new(false).split(PreviewPosition::Left).is_none());
    let f = FileFinderView::new(true);
    let left = f.split(PreviewPosition::Left).unwrap();
    assert!(left.preview_first && !left.stacked);
    assert_eq!((left.list_min, left.list_max), (180, 876));
    let right = f.split(PreviewPosition::Right).unwrap();
    assert!(!right.preview_first && !right.stacked);
    let bottom = f.split(PreviewPosition::Bottom).unwrap();
    assert!(!bottom.preview_first && bottom.stacked);
    assert_eq!((bottom.list_min, bottom.list_max), (100, 460));
}
