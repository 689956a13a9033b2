use faber::buffer_view::ColorRole;
use faber::completion_logic::ParsedCompletion;
use faber::completion_menu::{take_accepted, CompletionMenu, InputStep};
use faber::document::{Document, Selection};
use faber::editor_frame::{ModifierStep, PreviewIcon, TRAILING_BLANK_LINES};
use faber::editor_keys::KeyOutcome;
use faber::editor_view::{EditorEvent, EditorView, EnterAction, MouseStep, MoveStep, SelectMode};
use faber::hover_popover::HoverSelection;
use faber::hover_state::{HoverAnswer, HoverState, HoverStep, HoveredLink, LinkState, LinkStep};
use faber::keys::KeyPress;
use faber::locations::Location;
use faber::markdown::{
    Block, BlockKind, HighlightSpan, InlineRun, InlineStyle, MarkdownDoc, Outline, OutlineItem, SyntaxToken,
};
use faber::search::{InputFocus, Match};
use ropey::Rope;

fn view(text: &str, markdown: bool) -> EditorView {
    EditorView::from_doc(
        Document { rope: Rope::from_str(text), path: "/p/src/a.rs".to_string(), dirty: false },
        Outline { items: vec![] },
        markdown,
    )
}

fn select(v: &mut EditorView, anchor: usize, head: usize) {
    v.buf.sel = Selection { anchor, head, goal_col: 0 };
}

fn text(v: &EditorView) -> String {
    v.buf.doc.rope.to_string()
}

fn key(name: &str, typed: Option<&str>) -> KeyPress {
    KeyPress {
        key: name.to_string(),
        key_char: typed.map(|t| t.to_string()),
        shift: false,
        control: false,
        alt: false,
        platform: false,
    }
}

fn item(label: &str) -> ParsedCompletion {
    ParsedCompletion {
        label: label.to_string(),
        kind: None,
        detail: None,
        sort_text: None,
        filter_text: None,
        insert_text: None,
        text_edit: None,
        additional_text_edits: vec![],
        is_snippet: false,
        documentation: None,
        data: None,
    }
}

fn menu(word_start: usize, query: &str, labels: &[&str]) -> CompletionMenu {
    CompletionMenu {
        items: labels.iter().map(|l| item(l)).collect(),
        filtered: (0..labels.len()).collect(),
        selected_ix: 0,
        word_start,
        query: query.to_string(),
        initial_query: query.to_string(),
        is_incomplete: false,
        doc_text: None,
    }
}

fn paragraph(s: &str) -> MarkdownDoc {
    MarkdownDoc {
        blocks: vec![Block {
            kind: BlockKind::Paragraph {
                inlines: vec![InlineRun::Text {
                    text: s.to_string(),
                    style: InlineStyle { bold: false, italic: false, code: false, strike: false },
                    link: None,
                }],
            },
            first_line: 0,
            end_line: 1,
        }],
    }
}

// ── Edits ─────────────────────────────────────────────────────────────────────

#[test]
fn an_edit_brings_everything_up_to_date() {
    let mut v = view("one\ntwo", false);
    v.word_occ = vec![Match { start: 0, end: 3 }];
    v.word_occ_key = Some("one".to_string());
    select(&mut v, 3, 3);
    let inverse = v.insert_text("\nand");
    assert_eq!(text(&v), "one\nand\ntwo");
    assert_eq!(v.lines.line_cache, vec!["one", "and", "two"]);
    assert_eq!(v.lines.line_starts, vec![0, 4, 8]);
    assert!(v.word_occ.is_empty() && v.word_occ_key.is_none());
    v.buf.doc.apply(&inverse);
    v.restore_caret(99);
    assert_eq!(text(&v), "one\ntwo");
    assert_eq!(v.buf.sel.head, 7);
    assert_eq!(v.after_edit(), EditorEvent::Edited);
}

#[test]
fn the_menu_follows_the_caret() {
    let mut v = view("pri", false);
    select(&mut v, 3, 3);
    v.completion = Some(menu(0, "pri", &["print", "println", "private"]));
    v.insert_text("n");
    assert_eq!(v.completion.as_ref().unwrap().query, "prin");
    assert_eq!(v.completion.as_ref().unwrap().filtered, vec![0, 1]);
    v.do_backspace();
    assert_eq!(v.completion.as_ref().unwrap().filtered.len(), 3);
    assert!(v.dismiss_completion());
    assert!(!v.dismiss_completion());
}

#[test]
fn backspace_asks_for_completions_again() {
    let mut v = view("foo.b", false);
    select(&mut v, 5, 5);
    v.completion_suppress_once = true;
    let (inverse, step) = v.on_backspace();
    assert_eq!(inverse.unwrap().text, "b");
    assert!(matches!(step, InputStep::Nothing));
    assert!(!v.completion_suppress_once);
    let (_, step) = v.on_backspace();
    assert_eq!(text(&v), "foo");
    assert!(matches!(step, InputStep::Request { word_start: 0, query, trigger_char: None } if query == "foo"));
}

#[test]
fn copying_and_cutting() {
    let mut v = view("hello world", false);
    assert!(v.on_copy().is_none());
    assert!(v.on_cut().is_none());
    select(&mut v, 11, 6);
    assert_eq!(v.on_copy().unwrap(), "world");
    let (cut, _) = v.on_cut().unwrap();
    assert_eq!(cut, "world");
    assert_eq!(text(&v), "hello ");
}

#[test]
fn what_is_selected_in_the_popover_is_copied_first() {
    let mut v = view("hello world", false);
    select(&mut v, 0, 5);
    v.hover.show_hover(1);
    assert_eq!(v.hover.on_hover_answer(1, Some((paragraph("some docs"), None)), (0, 5)), HoverAnswer::Shown);
    assert_eq!(v.on_copy().unwrap(), "hello");
    v.hover.selection = Some(HoverSelection { start: (0, 0), end: (0, 4) });
    assert_eq!(v.on_copy().unwrap(), "some");
}

#[test]
fn pasting_a_link_over_a_label() {
    let mut v = view("see docs", true);
    select(&mut v, 4, 8);
    v.on_paste("https://a.b", true);
    assert_eq!(text(&v), "see [docs](https://a.b)");
    let mut v = view("see docs", false);
    select(&mut v, 4, 8);
    v.on_paste("https://a.b", true);
    assert_eq!(text(&v), "see https://a.b");
}

#[test]
fn enter_in_lists() {
    let mut v = view("- one", true);
    select(&mut v, 5, 5);
    v.on_enter(EnterAction::ContinueList { insert: "\n- ".to_string() });
    assert_eq!(text(&v), "- one\n- ");
    v.on_enter(EnterAction::ExitList { start: 0, end: 2 });
    assert_eq!(text(&v), "- one\n\n");
    let mut v = view("x", false);
    select(&mut v, 1, 1);
    v.on_enter(EnterAction::ContinueList { insert: "\n- ".to_string() });
    assert_eq!(text(&v), "x\n");
    assert_eq!(view("ab\ncd", false).enter_context(), ("ab\n".to_string(), 0));
}

#[test]
fn wrapping_and_checking() {
    let mut v = view("- [ ] task", true);
    assert!(v.wrap_selection("****").is_none());
    select(&mut v, 6, 10);
    v.wrap_selection("**task**");
    assert_eq!(text(&v), "- [ ] **task**");
    v.on_toggle_checkbox(2, 5, "[x]");
    assert_eq!(text(&v), "- [x] **task**");
}

#[test]
fn replacing_matches() {
    let mut v = view("a b a b a", false);
    v.search.open_replace();
    v.search.query.insert("a");
    v.search.replace.insert("xx");
    let found: Vec<Match> = [0, 4, 8].iter().map(|&i| Match { start: i, end: i + 1 }).collect();
    v.search.update_matches(found);
    v.do_replace_one();
    assert_eq!(text(&v), "xx b a b a");
    v.search.update_matches(vec![Match { start: 5, end: 6 }, Match { start: 9, end: 10 }]);
    v.do_replace_all();
    assert_eq!(text(&v), "xx b xx b xx");
}

#[test]
fn replacing_everything_keeps_the_place_among_the_matches() {
    let mut v = view("a b a b a", false);
    v.search.open_replace();
    v.search.query.insert("a");
    v.search.replace.insert("aa");
    v.search.update_matches([0, 4, 8].iter().map(|&i| Match { start: i, end: i + 1 }).collect());
    v.search.do_find_prev();
    assert_eq!(v.search.match_idx, 2);
    v.do_replace_all();
    assert_eq!(text(&v), "aa b aa b aa");
    assert!(v.search.matches.is_empty() && v.search.match_idx == 2);
    let found: Vec<Match> = [0, 5, 10].iter().map(|&i| Match { start: i, end: i + 1 }).collect();
    v.search.update_matches(found);
    assert_eq!(v.search.match_info().label("none"), "3/3");
}

#[test]
fn a_new_editor_shows_nothing_but_its_text() {
    let v = view("a", false);
    assert!(!v.overlay.open && v.overlay.input.text.is_empty());
    assert!(v.overlay.hover.is_none() && v.overlay.highlight.is_none());
    assert!(v.links.link.is_none() && v.links.trigger.is_none() && !v.links.pending && !v.links.cmd_held);
    assert_eq!((v.mouse.anchor_start, v.mouse.anchor_end), (0, 0));
}

// ── The mouse ─────────────────────────────────────────────────────────────────

#[test]
fn clicks_select_characters_words_and_lines() {
    let mut v = view("hello world\nnext", false);
    let none = Selection { anchor: 0, head: 0, goal_col: 0 };
    assert!(matches!(v.on_mouse_down(Some(3), 1, false, false, none), MouseStep::Selected));
    v.on_mouse_drag(7, none);
    assert_eq!((v.buf.sel.anchor, v.buf.sel.head), (3, 7));
    v.on_mouse_up();
    assert!(!v.mouse.active);
    let word = Selection { anchor: 6, head: 11, goal_col: 0 };
    v.on_mouse_down(Some(8), 2, false, false, word);
    assert_eq!(v.mouse.mode, SelectMode::Word);
    assert_eq!((v.buf.sel.anchor, v.buf.sel.head), (6, 11));
    v.on_mouse_drag(2, Selection { anchor: 0, head: 5, goal_col: 0 });
    assert_eq!((v.buf.sel.anchor, v.buf.sel.head), (11, 0));
    assert!(matches!(v.on_mouse_down(None, 1, false, false, none), MouseStep::Nothing));
}

#[test]
fn a_click_with_the_platform_key_goes_to_the_definition() {
    let mut v = view("foo bar", false);
    let none = Selection { anchor: 0, head: 0, goal_col: 0 };
    assert!(matches!(v.on_mouse_down(Some(1), 1, false, true, none), MouseStep::AskDefinition));
    v.links.link = Some(HoveredLink {
        symbol_range: (0, 3),
        locations: vec![Location { path: "/p/b.rs".into(), line: 4, character: 2 }],
    });
    let step = v.on_mouse_down(Some(1), 1, false, true, none);
    assert!(matches!(step, MouseStep::Goto { location } if location.line == 4));
}

#[test]
fn going_to_a_location() {
    let mut v = view("one\ntwo\nthree", false);
    assert!(!v.goto_location(&Location { path: "/other".into(), line: 1, character: 0 }));
    assert!(v.goto_location(&Location { path: "/p/src//a.rs".into(), line: 2, character: 3 }));
    assert_eq!(v.buf.sel.head, 11);
    assert_eq!(v.flash_line, Some(2));
    assert_eq!(v.follow_caret(), Some(2));
    assert_eq!(v.follow_caret(), None);
    v.goto_location(&Location { path: "/p/src/a.rs".into(), line: 9, character: 0 });
    assert_eq!(v.buf.sel.head, 12);
    assert_eq!(v.cursor_line(), 2);
}

#[test]
fn a_selection_beyond_the_text_is_brought_back() {
    let mut v = view("abc", false);
    select(&mut v, 99, 2);
    v.clamp_sel();
    assert_eq!((v.buf.sel.anchor, v.buf.sel.head), (3, 2));
}

// ── Keys ──────────────────────────────────────────────────────────────────────

#[test]
fn typing_goes_where_the_keyboard_is() {
    let mut v = view("", false);
    let r = v.on_key_down(&key("a", Some("a")), InputFocus::Editor, false);
    assert!(matches!(r, KeyOutcome::Typed { schedule: true, .. }));
    let r = v.on_key_down(&key("b", Some("b")), InputFocus::Editor, true);
    assert!(matches!(r, KeyOutcome::Typed { text, .. } if text == "B"));
    assert_eq!(text(&v), "aB");
    v.search.open_search();
    let r = v.on_key_down(&key("x", Some("x")), InputFocus::Search, false);
    assert!(matches!(r, KeyOutcome::SearchEdited));
    assert_eq!(v.search.query.text, "x");
    v.search.open_replace();
    let r = v.on_key_down(&key("y", Some("y")), InputFocus::Replace, false);
    assert!(matches!(r, KeyOutcome::ReplaceEdited));
    assert_eq!(v.search.replace.text, "y");
    let r = v.on_key_down(&key("tab", Some("\t")), InputFocus::Editor, false);
    assert!(matches!(r, KeyOutcome::Nothing));
}

#[test]
fn the_platform_key_deletes() {
    let mut v = view("one\ntwo three\nfour", false);
    select(&mut v, 8, 8);
    let mut k = key("backspace", None);
    k.platform = true;
    assert!(matches!(v.on_key_down(&k, InputFocus::Editor, false), KeyOutcome::Edited { inverse: Some(_) }));
    assert_eq!(text(&v), "one\nthree\nfour");
    k.key = "k".to_string();
    k.shift = true;
    v.on_key_down(&k, InputFocus::Editor, false);
    assert_eq!(text(&v), "one\nfour");
    v.search.open_search();
    v.search.query.insert("abc def");
    k.key = "backspace".to_string();
    k.shift = false;
    k.platform = false;
    k.alt = true;
    v.on_key_down(&k, InputFocus::Search, false);
    assert_eq!(v.search.query.text, "abc ");
}

#[test]
fn escape_closes_the_popover_and_the_outline() {
    let mut v = view("x", true);
    v.hover.show_hover(0);
    v.hover.on_hover_answer(0, Some((paragraph("doc"), None)), (0, 1));
    assert!(matches!(v.on_key_down(&key("escape", None), InputFocus::Editor, false), KeyOutcome::HoverDismissed));
    v.overlay.toggle();
    let r = v.on_key_down(&key("escape", None), InputFocus::Outline, false);
    assert!(matches!(r, KeyOutcome::OutlineClosed { scroll_to: None }));
    assert!(!v.overlay.open);
}

#[test]
fn enter_in_the_outline_goes_to_the_first_match() {
    let mut v = view("# A\n\n## Beta\n", true);
    for (name, line) in [("A", 0), ("Beta", 2)] {
        v.outline.items.push(OutlineItem {
            depth: 0,
            name: name.to_string(),
            context: None,
            source_line: line,
            end_line: line,
            block_ix: None,
        });
    }
    v.overlay.toggle();
    v.on_key_down(&key("b", Some("b")), InputFocus::Outline, false);
    assert_eq!(v.overlay.input.text, "b");
    let r = v.on_key_down(&key("enter", None), InputFocus::Outline, false);
    assert!(matches!(r, KeyOutcome::OutlineClosed { scroll_to: Some(2) }));
}

// ── What is shown ─────────────────────────────────────────────────────────────

#[test]
fn the_key_context() {
    let mut v = view("x", true);
    assert_eq!(v.key_context(), "Editor markdown");
    v.completion = Some(menu(0, "x", &["xy"]));
    assert_eq!(v.key_context(), "Editor markdown showing_completions");
    v.markdown = false;
    assert_eq!(v.key_context(), "Editor showing_completions");
    v.completion = None;
    assert_eq!(v.key_context(), "Editor");
    v.overlay.toggle();
    assert_eq!(v.key_context(), "OutlineOverlay");
}

#[test]
fn beside_a_preview_there_are_no_popovers() {
    let mut v = view("x", true);
    v.completion = Some(menu(0, "x", &["xy"]));
    v.hover.show_hover(0);
    v.hover.on_hover_answer(0, Some((paragraph("doc"), None)), (0, 1));
    let p = v.frame_parts();
    assert!(p.hover && p.completion && !p.split && !p.search_bar && !p.outline);
    assert_eq!(v.on_toggle_preview(), Some(Some(0)));
    let p = v.frame_parts();
    assert!(!p.hover && !p.completion && p.split);
    assert_eq!(v.on_toggle_preview(), Some(None));
    assert_eq!(view("x", false).on_toggle_preview(), None);
}

#[test]
fn the_header_names_the_document_and_its_headings() {
    let mut v = view("x", false);
    let h = v.header(Some("/p"), "untitled", 0);
    assert_eq!(h.path_label, "src/a.rs");
    assert_eq!(h.path_color, ColorRole::TextSubtle);
    assert!(h.preview.is_none() && h.crumbs.is_empty() && !h.can_open_outline);
    assert_eq!(v.header(Some("/q"), "untitled", 0).path_label, "a.rs");
    assert_eq!(v.header(None, "untitled", 0).path_label, "a.rs");
    v.buf.doc.path = String::new();
    assert_eq!(v.header(None, "untitled", 0).path_label, "untitled");
    v.markdown = true;
    v.outline.items.push(OutlineItem {
        depth: 0,
        name: "main".to_string(),
        context: Some("fn".to_string()),
        source_line: 3,
        end_line: 5,
        block_ix: None,
    });
    let h = v.header(None, "untitled", 4);
    assert_eq!(h.crumbs[0].name, "main");
    assert_eq!(h.crumbs[0].color, ColorRole::Syntax(SyntaxToken::Function));
    assert_eq!(h.path_color, ColorRole::Text);
    assert_eq!(h.preview, Some((PreviewIcon::Visibility, ColorRole::TextSubtle)));
    assert!(v.header(None, "untitled", 2).crumbs.is_empty());
}

#[test]
fn the_uri_of_a_document() {
    let mut v = view("x", false);
    assert_eq!(v.document_uri().unwrap(), "file:///p/src/a.rs");
    v.buf.doc.path = "relative.rs".to_string();
    assert!(v.document_uri().is_none());
}

#[test]
fn the_word_at_the_caret() {
    let mut v = view("let größe = 1; // größe", false);
    select(&mut v, 5, 5);
    let comment = HighlightSpan { start_byte_col: 17, end_byte_col: u32::MAX, token: SyntaxToken::Comment };
    assert_eq!(v.active_word((4, 9), true, &[comment]), Some((4, 9)));
    assert_eq!(v.active_word((4, 4), true, &[]), None);
    assert_eq!(v.active_word((4, 9), false, &[]), None);
    let query = v.update_word_occ(Some((4, 9))).unwrap();
    assert_eq!(query.text, "größe");
    assert!(query.case_sensitive && query.whole_word && !query.regex);
    v.set_word_occ("größe".to_string(), vec![Match { start: 4, end: 9 }]);
    assert!(v.update_word_occ(Some((4, 9))).is_none());
    assert_eq!(v.update_word_occ(Some((0, 3))).unwrap().text, "let");
    assert!(v.update_word_occ(None).is_none());
    assert!(v.word_occ.is_empty());
    // Within the comment no word is marked.
    select(&mut v, 20, 20);
    assert_eq!(v.active_word((18, 23), true, &[comment]), None);
    assert_eq!(v.shown_brackets(Some((1, 2))), Some((1, 2)));
    select(&mut v, 1, 3);
    assert_eq!(v.active_word((0, 3), true, &[]), None);
    assert_eq!(v.shown_brackets(Some((1, 2))), None);
    assert_eq!(v.row_count(), 1 + TRAILING_BLANK_LINES);
}

// ── Popover and links ─────────────────────────────────────────────────────────

#[test]
fn the_popover_comes_and_goes() {
    let mut h = HoverState::new();
    assert_eq!(h.hover_at(Some(3), false), HoverStep::ArmShow);
    assert_eq!(h.on_hover_answer(9, Some((paragraph("x"), None)), (8, 12)), HoverAnswer::Stale);
    assert_eq!(h.on_hover_answer(3, Some((paragraph("x"), Some((2, 6)))), (3, 5)), HoverAnswer::Shown);
    assert_eq!(h.symbol_range, Some((2, 6)));
    // Over the symbol it stays; elsewhere it is about to go.
    assert_eq!(h.hover_at(Some(5), false), HoverStep::Nothing);
    assert_eq!(h.hover_at(None, false), HoverStep::ArmHide);
    assert!(h.dismiss_hover());
    assert!(h.content.is_none());
    assert!(!h.dismiss_hover());
}

#[test]
fn nothing_to_say_shows_no_popover() {
    let mut h = HoverState::new();
    h.show_hover(3);
    assert_eq!(h.on_hover_answer(3, None, (3, 5)), HoverAnswer::Dismissed);
    assert!(h.content.is_none());
}

#[test]
fn links_are_asked_for_once() {
    let mut l = LinkState::new();
    assert_eq!(l.update_hovered_link(Some(1), true, false, (0, 3), "foo"), LinkStep::Request { offset: 1 });
    l.requested(1);
    assert_eq!(l.update_hovered_link(Some(1), true, false, (0, 3), "foo"), LinkStep::Nothing);
    let there = Location { path: "/b".into(), line: 2, character: 0 };
    assert!(l.on_link_answer(1, vec![there], None, (0, 3)));
    assert_eq!(l.known_definition(2).unwrap().unwrap().line, 2);
    assert!(l.known_definition(3).is_none());
    assert!(!l.link_preview_active());
    assert_eq!(l.on_modifiers_changed(true, true), ModifierStep::LookAgain);
    assert!(l.link_preview_active());
    assert_eq!(l.on_modifiers_changed(true, true), ModifierStep::Nothing);
    assert_eq!(l.on_modifiers_changed(false, true), ModifierStep::Cleared);
    assert!(l.link.is_none());
    assert_eq!(l.update_hovered_link(Some(1), true, false, (0, 1), "("), LinkStep::Cleared);
    assert_eq!(l.update_hovered_link(None, true, false, (0, 3), "foo"), LinkStep::Cleared);
}

#[test]
fn a_click_in_the_popover_opens_a_link() {
    let mut md = paragraph("see here");
    md.blocks[0].kind = BlockKind::Paragraph {
        inlines: vec![InlineRun::Text {
            text: "see here".to_string(),
            style: InlineStyle { bold: false, italic: false, code: false, strike: false },
            link: Some("https://a.example".to_string()),
        }],
    };
    let mut h = HoverState::new();
    h.show_hover(3);
    assert_eq!(h.on_hover_answer(3, Some((md, None)), (3, 5)), HoverAnswer::Shown);
    assert!(h.asks_for_distance(None));
    assert!(!h.asks_for_distance(Some(3)));
    h.press(Some((0, 1)), Some((0, 0)));
    assert!(h.selection_locked());
    assert!(!h.asks_for_distance(None));
    assert_eq!(h.release(Some((0, 0))), Some("https://a.example".to_string()));
    assert!(h.selection.is_none() && h.pressed_link.is_none() && !h.selecting);
    // Released elsewhere, or on a link that there is not, nothing opens.
    h.press(Some((0, 1)), Some((0, 0)));
    assert_eq!(h.release(None), None);
    h.press(Some((0, 1)), Some((0, 7)));
    assert_eq!(h.release(Some((0, 7))), None);
}

#[test]
fn a_drag_in_the_popover_selects() {
    let mut h = HoverState::new();
    h.show_hover(3);
    h.on_hover_answer(3, Some((paragraph("see here"), None)), (3, 5));
    h.drag_to((0, 2));
    assert!(h.selection.is_none());
    h.press(Some((0, 0)), None);
    h.drag_to((0, 3));
    assert_eq!(h.release(None), None);
    assert_eq!(h.selected(), Some("see".to_string()));
    // The selection keeps the popover open.
    assert!(h.selection_locked());
    assert_eq!(h.hover_at(None, false), HoverStep::Nothing);
    h.press(Some((0, 4)), None);
    h.release_outside();
    assert!(h.selection.is_none() && !h.selecting);
    assert_eq!(h.selected(), None);
    assert_eq!(h.hover_at(None, false), HoverStep::ArmHide);
    assert!(h.hiding_pending);
    h.stay();
    assert!(!h.hiding_pending);
}

#[test]
fn an_accepted_completion_replaces_the_word() {
    let mut v = view("let pr", false);
    select(&mut v, 6, 6);
    v.completion = Some(menu(4, "pr", &["println"]));
    let accepted = take_accepted(&mut v.completion).unwrap();
    let inverse = v.accept_completion(&accepted, None, None, &accepted.text);
    assert_eq!(text(&v), "let println");
    assert_eq!(v.buf.sel.head, 11);
    assert!(v.completion_suppress_once);
    assert_eq!(v.lines.line_cache, vec!["let println"]);
    v.buf.doc.apply(&inverse);
    v.rebuild_line_cache();
    assert_eq!(v.lines.line_cache, vec!["let pr"]);
    assert!(!v.is_markdown());
    assert!(view("# a", true).is_markdown());
}

#[test]
fn a_move_of_the_mouse_goes_to_what_holds_it() {
    let mut v = view("let a", false);
    assert_eq!(v.on_mouse_move(true, false, false), MoveStep::Hover);
    assert!(v.links.cmd_held);
    assert_eq!(v.on_mouse_move(false, true, false), MoveStep::Nothing);
    assert!(!v.links.cmd_held);
    v.mouse.active = true;
    assert_eq!(v.on_mouse_move(false, true, false), MoveStep::Select);
    v.hover.selecting = true;
    assert_eq!(v.on_mouse_move(false, true, false), MoveStep::SelectInPopover);
    assert_eq!(v.on_mouse_move(false, true, true), MoveStep::ScrollPopover);
}
