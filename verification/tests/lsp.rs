use faber::buffer_view::ColorRole;
use faber::completion_logic::{CompletionEdit, LspPosition, ParsedCompletion};
use faber::completion_menu::{
    completion_rows, do_show_completions, kind_info, on_answer, overlay_shown, schedule_completion_on_input,
    schedule_completion_resolve, set_doc_text, take_accepted, visible_rows, Answer, CompletionMenu, InputStep, Resolve,
};
use faber::document::{Document, Selection};
use faber::editing::EditBuffer;
use faber::json::Json;
use faber::locations::{
    completion_params, definition_targets, jump_kind, keep_located, parse_definition_locations, position_params,
    problem_path, problem_path_from, references_params, resolve_params, uri_to_path, Jump, Location,
};
use ropey::Rope;
use std::path::PathBuf;

fn item(label: &str) -> ParsedCompletion {
    ParsedCompletion {
        label: label.to_string(),
        kind: None,
        detail: None,
        sort_text: None,
        filter_text: None,
        insert_text: None,
        text_edit: None,
        additional_text_edits: vec![],
        is_snippet: false,
        documentation: None,
        data: None,
    }
}

fn text(s: &str) -> Json {
    Json::Text(s.to_string())
}

fn object(members: Vec<(&str, Json)>) -> Json {
    Json::Object(members.into_iter().map(|(k, v)| (k.to_string(), v)).collect())
}

fn position(line: u64, character: u64) -> Json {
    object(vec![("line", Json::Unsigned(line)), ("character", Json::Unsigned(character))])
}

fn range(line: u64, character: u64) -> Json {
    object(vec![("start", position(line, character)), ("end", position(line, character + 1))])
}

// ── Locations ─────────────────────────────────────────────────────────────────

#[test]
fn locations_and_links_lead_to_files() {
    let one = object(vec![("uri", text("file:///p/a%20b.rs")), ("range", range(3, 4))]);
    let found = parse_definition_locations(&one);
    assert_eq!(found.len(), 1);
    assert_eq!((found[0].path.to_str().unwrap(), found[0].line, found[0].character), ("/p/a b.rs", 3, 4));
    let link = object(vec![
        ("targetUri", text("file:///p/c.rs")),
        ("targetRange", range(1, 0)),
        ("targetSelectionRange", range(2, 7)),
    ]);
    let list = Json::List(vec![link, object(vec![("uri", text("https://web")), ("range", range(0, 0))]), Json::Null]);
    let found = parse_definition_locations(&list);
    assert_eq!(found.len(), 1);
    assert_eq!((found[0].path.to_str().unwrap(), found[0].line, found[0].character), ("/p/c.rs", 2, 7));
    assert!(parse_definition_locations(&Json::Null).is_empty());
    assert_eq!(definition_targets(&list).len(), 2);
}

#[test]
fn targets_without_a_file_are_dropped() {
    let list = Json::List(vec![
        object(vec![("uri", text("u1")), ("range", range(1, 2))]),
        object(vec![("uri", text("u2")), ("range", range(3, 4))]),
    ]);
    let targets = definition_targets(&list);
    let kept = keep_located(&targets, &[None, Some(PathBuf::from("/x"))]);
    assert_eq!(kept.len(), 1);
    assert_eq!((kept[0].path.to_str().unwrap(), kept[0].line), ("/x", 3));
}

#[test]
fn jumps_within_and_out_of_a_file() {
    let there = Location { path: PathBuf::from("/a"), line: 0, character: 0 };
    assert_eq!(jump_kind("/a", &there), Jump::Here);
    assert_eq!(jump_kind("/b", &there), Jump::OtherFile);
    assert_eq!(jump_kind("//a/", &there), Jump::Here);
}

#[test]
fn files_that_uris_name() {
    assert_eq!(uri_to_path("file:///p/a%20b.rs").unwrap().to_str(), Some("/p/a b.rs"));
    // A path need not be text: its bytes stay as they are.
    let path = uri_to_path("file:///p/a%FF.rs").unwrap();
    assert_eq!(path.as_os_str().as_encoded_bytes(), b"/p/a\xFF.rs");
    let item = object(vec![("uri", text("file:///p/a%FF.rs")), ("range", range(3, 4))]);
    assert_eq!(parse_definition_locations(&item)[0].path, path);
    assert_eq!(problem_path("file:///p/a%FF.rs").unwrap(), path);
    let there = Location { path, line: 0, character: 0 };
    assert_eq!(jump_kind("/p/a\u{FFFD}.rs", &there), Jump::OtherFile);
    assert!(uri_to_path("https://example.org/a").is_none());
    assert!(uri_to_path("no uri").is_none());
}

#[test]
fn problems_of_a_document_without_a_file() {
    assert_eq!(problem_path("file:///p/a%20b.rs").unwrap().to_str(), Some("/p/a b.rs"));
    assert_eq!(problem_path("untitled:Untitled-1").unwrap().to_str(), Some("Untitled-1"));
    assert_eq!(problem_path("https://example.org/x/y.rs").unwrap().to_str(), Some("/x/y.rs"));
    assert!(problem_path("no uri").is_none());
    assert_eq!(problem_path_from(Some(PathBuf::from("/f")), "/own").to_str(), Some("/f"));
    assert_eq!(problem_path_from(None, "/own").to_str(), Some("/own"));
}

#[test]
fn parameters_of_requests() {
    let pos = LspPosition { line: 2, character: 5 };
    let p = position_params("file:///a", pos);
    assert_eq!(p.get("textDocument").unwrap().get("uri").unwrap().as_text(), Some("file:///a"));
    assert_eq!(p.get("position").unwrap().get("line").unwrap().as_u64(), Some(2));
    assert_eq!(p.get("position").unwrap().get("character").unwrap().as_u64(), Some(5));
    let r = references_params("file:///a", pos);
    assert!(matches!(r.get("context").unwrap().get("includeDeclaration"), Some(Json::Bool(_))));
    let c = completion_params("file:///a", pos, Some("."));
    assert_eq!(c.get("context").unwrap().get("triggerKind").unwrap().as_u64(), Some(2));
    assert_eq!(c.get("context").unwrap().get("triggerCharacter").unwrap().as_text(), Some("."));
    let c = completion_params("file:///a", pos, None);
    assert_eq!(c.get("context").unwrap().get("triggerKind").unwrap().as_u64(), Some(1));
    let r = resolve_params(&item("abc"));
    assert_eq!(r.get("label").unwrap().as_text(), Some("abc"));
    assert!(p.get("nothing").is_none() && Json::Null.get("x").is_none());
    assert_eq!(Json::Negative(-1).as_u64(), None);
}

// ── The completion menu ───────────────────────────────────────────────────────

fn answered(rope: &Rope, head: usize, labels: &[&str], incomplete: bool) -> (Option<CompletionMenu>, Answer) {
    let mut menu = None;
    let items = labels.iter().map(|l| item(l)).collect();
    let a = on_answer(&mut menu, rope, head, 0, "pr".to_string(), items, incomplete);
    (menu, a)
}

#[test]
fn an_answer_opens_the_menu() {
    let rope = Rope::from_str("pr");
    let (menu, a) = answered(&rope, 2, &["print", "zebra", "private"], false);
    assert!(matches!(a, Answer::Shown { .. }));
    let mut m = menu.unwrap();
    assert_eq!(m.filtered, vec![0, 2]);
    assert_eq!(m.selected_item().unwrap().label, "print");
    m.select_next();
    assert_eq!(m.selected_item().unwrap().label, "private");
    m.select_next();
    assert_eq!(m.selected_ix, 0);
    m.select_prev();
    assert_eq!(m.selected_ix, 1);
    m.select_first();
    m.select_last();
    assert_eq!(m.selected_ix, 1);
    m.select(0);
    let rows = completion_rows(&m);
    assert!(rows[0].selected && !rows[1].selected);
    assert_eq!(rows[1].label, "private");
}

#[test]
fn stale_and_empty_answers() {
    // The caret has left the word.
    let rope = Rope::from_str("x pr");
    let mut menu = None;
    let a = on_answer(&mut menu, &rope, 1, 2, "pr".to_string(), vec![item("print")], false);
    assert!(matches!(a, Answer::Stale) && menu.is_none());
    // An answer without matches keeps what is listed.
    let (mut menu, _) = answered(&Rope::from_str("pr"), 2, &["print"], true);
    let a = on_answer(&mut menu, &Rope::from_str("pr"), 2, 0, "pr".to_string(), vec![item("zebra")], true);
    assert!(matches!(a, Answer::Kept));
    assert!(!menu.unwrap().is_incomplete);
    // Nothing matches, but more was typed since: ask again.
    let rope = Rope::from_str("pri");
    let (_, a) = answered(&rope, 3, &["zebra"], false);
    assert!(matches!(a, Answer::Rerequest { query } if query == "pri"));
    let rope = Rope::from_str("pr");
    let (menu, a) = answered(&rope, 2, &["zebra"], false);
    assert!(matches!(a, Answer::Dismissed) && menu.is_none());
}

#[test]
fn typing_asks_for_completions() {
    let triggers = vec![".".to_string()];
    let rope = Rope::from_str("foo.");
    let mut menu = None;
    let step = schedule_completion_on_input(&mut menu, &rope, 4, ".", &triggers);
    assert!(matches!(step, InputStep::Request { word_start: 4, trigger_char: Some(c), .. } if c == "."));
    let rope = Rope::from_str("ab");
    let step = schedule_completion_on_input(&mut menu, &rope, 2, "b", &triggers);
    assert!(matches!(step, InputStep::Request { word_start: 0, query, trigger_char: None } if query == "ab"));
    let rope = Rope::from_str("a ");
    assert!(matches!(schedule_completion_on_input(&mut menu, &rope, 2, " ", &triggers), InputStep::Nothing));
    assert_eq!(do_show_completions(&rope, 2), (2, String::new()));
    assert_eq!(do_show_completions(&rope, 1), (0, "a".to_string()));
}

#[test]
fn accepting_a_completion() {
    let rope = Rope::from_str("let pr");
    let mut menu = Some(CompletionMenu::requested(4, "pr".to_string()));
    let mut choice = item("println");
    choice.insert_text = Some("println!()".to_string());
    let a = on_answer(&mut menu, &rope, 6, 4, "pr".to_string(), vec![choice], false);
    assert!(matches!(a, Answer::Shown { .. }));
    let accepted = take_accepted(&mut menu).unwrap();
    assert!(menu.is_none());
    assert_eq!(accepted.text, "println!()");
    assert_eq!(accepted.range(6, None, None), (4, 6));
    let mut buf = EditBuffer {
        doc: Document { rope, path: String::new(), dirty: false },
        sel: Selection { anchor: 6, head: 6, goal_col: 6 },
    };
    let inverse = accepted.insert(&mut buf, None, None, &accepted.text);
    assert_eq!(buf.doc.rope.to_string(), "let println!()");
    assert_eq!(inverse.text, "pr");
    assert!(take_accepted(&mut menu).is_none());
}

#[test]
fn an_edit_of_the_server_takes_precedence() {
    let mut menu = Some(CompletionMenu::requested(0, "a".to_string()));
    let mut choice = item("abc");
    choice.text_edit = Some(CompletionEdit {
        start: LspPosition { line: 0, character: 0 },
        end: LspPosition { line: 0, character: 1 },
        new_text: "xyz".to_string(),
    });
    let rope = Rope::from_str("a");
    on_answer(&mut menu, &rope, 1, 0, "a".to_string(), vec![choice], false);
    let accepted = take_accepted(&mut menu).unwrap();
    assert_eq!(accepted.text, "xyz");
    assert_eq!(accepted.edit.unwrap().1.character, 1);
}

#[test]
fn documentation_of_the_selected_item() {
    let rope = Rope::from_str("a");
    let mut documented = item("ab");
    documented.documentation = Some("docs".to_string());
    let mut menu = Some(CompletionMenu::requested(0, "a".to_string()));
    on_answer(&mut menu, &rope, 1, 0, "a".to_string(), vec![documented, item("ac")], false);
    assert!(matches!(schedule_completion_resolve(&menu), Resolve::Show { doc } if doc == "docs"));
    menu.as_mut().unwrap().select_next();
    assert!(!matches!(schedule_completion_resolve(&menu), Resolve::Show { .. }));
    set_doc_text(&mut menu, Some("late".to_string()));
    assert_eq!(menu.as_ref().unwrap().doc_text.as_deref(), Some("late"));
    assert!(matches!(schedule_completion_resolve(&None), Resolve::Nothing));
}

#[test]
fn the_overlay_of_the_menu() {
    let rope = Rope::from_str("one\npr");
    let mut menu = Some(CompletionMenu::requested(4, "pr".to_string()));
    assert!(!overlay_shown(&menu, &rope, 0, 10));
    on_answer(&mut menu, &rope, 6, 4, "pr".to_string(), vec![item("print")], false);
    assert!(overlay_shown(&menu, &rope, 0, 10));
    assert!(!overlay_shown(&menu, &rope, 2, 10));
    assert!(!overlay_shown(&None, &rope, 0, 10));
    assert!(visible_rows(100, 3) == 3 && visible_rows(2, 30) >= 1);
    assert_ne!(kind_info(Some(3)).1, kind_info(Some(6)).1);
    assert_eq!(kind_info(None).0, kind_info(Some(1000)).0);
    assert_eq!(kind_info(Some(3)).0, ColorRole::Syntax(faber::markdown::SyntaxToken::Function));
}
