use faber::buffer_view::{ColorRole, Severity};
use faber::markdown::{Outline, OutlineItem};
use faber::sidebar::{heading_rows, Chevron, RowClick, SidebarItemKind, SidebarState, TreeRow};
use faber::sidebar_logic::{rollup_worst_severity, FilePath};
use faber::symbol_overlay::{key_of, outline_for_path, symbol_key};

fn p(s: &str) -> FilePath {
    FilePath {
        absolute: s.starts_with('/'),
        parts: s.split('/').filter(|x| !x.is_empty()).map(|x| x.to_string()).collect(),
    }
}

fn make_item(name: &str) -> OutlineItem {
    OutlineItem {
        depth: 0,
        name: name.to_string(),
        context: None,
        source_line: 0,
        end_line: 0,
        block_ix: None,
    }
}

#[test]
fn empty_input_returns_empty_map() {
    assert!(rollup_worst_severity(&[]).is_empty());
}

#[test]
fn single_file_maps_file_and_ancestors() {
    let map = rollup_worst_severity(&[(p("/src/main.rs"), Severity::Error)]);
    assert_eq!(map.get(&p("/src/main.rs")), Some(Severity::Error));
    assert_eq!(map.get(&p("/src")), Some(Severity::Error));
    assert_eq!(map.get(&p("/")), Some(Severity::Error));
}

#[test]
fn warning_only_stays_warning() {
    let map = rollup_worst_severity(&[(p("/src/lib.rs"), Severity::Warning)]);
    assert_eq!(map.get(&p("/src/lib.rs")), Some(Severity::Warning));
    assert_eq!(map.get(&p("/src")), Some(Severity::Warning));
}

#[test]
fn siblings_under_dir_take_worst() {
    let files = [(p("/src/a.rs"), Severity::Warning), (p("/src/b.rs"), Severity::Error)];
    let map = rollup_worst_severity(&files);
    assert_eq!(map.get(&p("/src/a.rs")), Some(Severity::Warning));
    assert_eq!(map.get(&p("/src/b.rs")), Some(Severity::Error));
    // dir takes the worst of its children
    assert_eq!(map.get(&p("/src")), Some(Severity::Error));
}

#[test]
fn nested_dirs_propagate_to_root() {
    let files = [(p("/root/a/b/c.rs"), Severity::Error), (p("/root/a/d.rs"), Severity::Warning)];
    let map = rollup_worst_severity(&files);
    assert_eq!(map.get(&p("/root/a/b")), Some(Severity::Error));
    assert_eq!(map.get(&p("/root/a")), Some(Severity::Error));
    assert_eq!(map.get(&p("/root")), Some(Severity::Error));
}

#[test]
fn info_and_hint_not_surfaced_above_warning() {
    let files = [(p("/src/a.rs"), Severity::Information), (p("/src/b.rs"), Severity::Warning)];
    let map = rollup_worst_severity(&files);
    assert_eq!(map.get(&p("/src")), Some(Severity::Warning));
}

#[test]
fn folders_without_problems_are_not_in_the_map() {
    let files = [(p("/src/a.rs"), Severity::Hint), (p("lib/b.rs"), Severity::Error)];
    let map = rollup_worst_severity(&files);
    assert_eq!(map.get(&p("/other")), None);
    assert_eq!(map.get(&p("/src")), Some(Severity::Hint));
    assert_eq!(map.get(&p("lib")), Some(Severity::Error));
    assert_eq!(map.get(&p("/lib")), None);
}

#[test]
fn gravity_never_falls_towards_the_root() {
    let files = [
        (p("/a/b/c.rs"), Severity::Hint),
        (p("/a/d.rs"), Severity::Warning),
        (p("/e.rs"), Severity::Information),
    ];
    let map = rollup_worst_severity(&files);
    assert_eq!(map.get(&p("/a/b")), Some(Severity::Hint));
    assert_eq!(map.get(&p("/a")), Some(Severity::Warning));
    assert_eq!(map.get(&p("/")), Some(Severity::Warning));
}

/// Items of the index are returned when no open document is given.
#[test]
fn store_path_returns_persisted_items() {
    let project = "/tmp/project";
    assert_eq!(symbol_key("/tmp/project/src/lib.rs", project), "src/lib.rs");
    let items = vec![make_item("greet"), make_item("Config")];
    let result = outline_for_path::<String>(None, Ok(Some(items))).unwrap();

    let names: Vec<&str> = result.iter().map(|i| i.name.as_str()).collect();
    assert!(names.contains(&"greet"), "expected greet; got {names:?}");
    assert!(names.contains(&"Config"), "expected Config; got {names:?}");
}

/// A path outside the project root yields an empty result (not an error).
#[test]
fn path_outside_root_returns_empty() {
    assert_eq!(symbol_key("/tmp/unrelated.rs", "/tmp/project"), "");
    let result = outline_for_path::<String>(None, Ok(None)).unwrap();
    assert!(result.is_empty(), "outside-root path must return empty vec");
}

#[test]
fn the_open_document_comes_before_the_index() {
    let open = vec![make_item("open")];
    let result = outline_for_path::<String>(Some(open), Err("broken".to_string())).unwrap();
    assert_eq!(result[0].name, "open");
    assert_eq!(outline_for_path::<String>(None, Err("broken".to_string())).unwrap_err(), "broken");
}

#[test]
fn index_keys_have_slashes() {
    assert_eq!(key_of(Some("src\\a\\b.rs".to_string())), "src/a/b.rs");
    assert_eq!(key_of(None), "");
}

#[test]
fn the_sidebar_starts_closed() {
    let s = SidebarState::default();
    assert!(!s.open);
    assert_eq!(s.active, SidebarItemKind::Explorer);
}

#[test]
fn rows_of_the_tree() {
    let folder = TreeRow {
        path: "/p/src".to_string(),
        name: "src".to_string(),
        is_dir: true,
        expanded: true,
        depth: 1,
    };
    let v = folder.view_row(Some("/p/src/a.rs"), true);
    assert_eq!(v.chevron, Some(Chevron::ExpandMore));
    assert_eq!(v.click, RowClick::ToggleFolder);
    assert_eq!(v.guides, 1);
    assert_eq!(v.color, ColorRole::TextSubtle);
    assert!(v.medium_weight && !v.dot && !v.active);
    let file = TreeRow {
        path: "/p/src/a.rs".to_string(),
        name: "a.rs".to_string(),
        is_dir: false,
        expanded: false,
        depth: 2,
    };
    let v = file.view_row(Some("/p/src/a.rs"), false);
    assert_eq!((v.chevron, v.guides, v.click), (None, 0, RowClick::OpenFile));
    assert!(v.active && v.dot);
    assert_eq!(v.color, ColorRole::Text);
    assert_eq!(file.view_row(None, true).color, ColorRole::TextMuted);
    assert!(file.view_row(Some("/p//src/a.rs"), false).active);
}

#[test]
fn headings_are_listed_in_markdown_only() {
    let mut outline = Outline { items: vec![make_item("top"), make_item("below")] };
    outline.items[1].depth = 1;
    outline.items[1].source_line = 7;
    assert!(heading_rows(false, &outline).is_empty());
    let rows = heading_rows(true, &outline);
    assert_eq!(rows[0].color, ColorRole::Text);
    assert_eq!(rows[1].color, ColorRole::TextMuted);
    assert_eq!((rows[1].name.as_str(), rows[1].line), ("below", 7));
}
