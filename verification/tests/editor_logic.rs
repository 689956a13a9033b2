use faber::editor_logic::{breadcrumb_stack, context_to_token, split_at_hard_breaks};
use faber::markdown::{InlineRun, InlineStyle, Outline, OutlineItem, SyntaxToken};

fn make_item(name: &str, depth: u32, line: usize) -> OutlineItem {
    OutlineItem {
        depth,
        name: name.to_string(),
        context: None,
        source_line: line,
        end_line: line,
        block_ix: None,
    }
}

fn text_run(s: &str) -> InlineRun {
    InlineRun::Text {
        text: s.to_string(),
        style: InlineStyle { bold: false, italic: false, code: false, strike: false },
        link: None,
    }
}

// ── breadcrumb_stack ───────────────────────────────────────────────────────

#[test]
fn breadcrumb_empty_outline() {
    let outline = Outline { items: vec![] };
    assert!(breadcrumb_stack(&outline, 10).is_empty());
}

#[test]
fn breadcrumb_single_item() {
    let outline = Outline { items: vec![make_item("main", 1, 0)] };
    let stack = breadcrumb_stack(&outline, 5);
    assert_eq!(stack.len(), 1);
    assert_eq!(stack[0].name, "main");
}

#[test]
fn breadcrumb_item_after_top_line_excluded() {
    let outline = Outline { items: vec![make_item("foo", 1, 10)] };
    assert!(breadcrumb_stack(&outline, 5).is_empty());
}

#[test]
fn breadcrumb_nesting_outermost_to_innermost() {
    let outline = Outline {
        items: vec![make_item("mod foo", 1, 0), make_item("fn bar", 2, 5), make_item("fn baz", 2, 20)],
    };
    let stack = breadcrumb_stack(&outline, 10);
    assert_eq!(stack.len(), 2);
    assert_eq!(stack[0].name, "mod foo");
    assert_eq!(stack[1].name, "fn bar");
}

#[test]
fn breadcrumb_sibling_replaces_sibling_at_same_depth() {
    let outline = Outline { items: vec![make_item("fn foo", 1, 0), make_item("fn bar", 1, 5)] };
    let stack = breadcrumb_stack(&outline, 10);
    assert_eq!(stack.len(), 1);
    assert_eq!(stack[0].name, "fn bar");
}

#[test]
fn breadcrumb_exact_line_match_included() {
    let outline = Outline { items: vec![make_item("fn exact", 1, 5)] };
    let stack = breadcrumb_stack(&outline, 5);
    assert_eq!(stack.len(), 1);
}

#[test]
fn breadcrumb_gets_deeper_and_ends_with_the_last_heading() {
    let outline = Outline {
        items: vec![
            make_item("a", 1, 0),
            make_item("b", 3, 1),
            make_item("c", 2, 2),
            make_item("d", 4, 3),
            make_item("e", 2, 9),
        ],
    };
    let stack = breadcrumb_stack(&outline, 5);
    let names: Vec<&str> = stack.iter().map(|i| i.name.as_str()).collect();
    assert_eq!(names, vec!["a", "c", "d"]);
    assert!(stack.windows(2).all(|w| w[0].depth < w[1].depth));
}

// ── context_to_token ──────────────────────────────────────────────────────

#[test]
fn context_to_token_known_keywords() {
    assert_eq!(context_to_token(Some("fn")), Some(SyntaxToken::Function));
    assert_eq!(context_to_token(Some("struct")), Some(SyntaxToken::Type));
    assert_eq!(context_to_token(Some("enum")), Some(SyntaxToken::Type));
    assert_eq!(context_to_token(Some("trait")), Some(SyntaxToken::Type));
    assert_eq!(context_to_token(Some("type")), Some(SyntaxToken::Type));
    assert_eq!(context_to_token(Some("impl")), Some(SyntaxToken::Type));
    assert_eq!(context_to_token(Some("mod")), Some(SyntaxToken::Namespace));
    assert_eq!(context_to_token(Some("const")), Some(SyntaxToken::Constant));
}

#[test]
fn context_to_token_unknown_returns_none() {
    assert_eq!(context_to_token(Some("let")), None);
    assert_eq!(context_to_token(Some("use")), None);
    assert_eq!(context_to_token(Some("")), None);
}

#[test]
fn context_to_token_none_input_returns_none() {
    assert_eq!(context_to_token(None), None);
}

// ── split_at_hard_breaks ──────────────────────────────────────────────────

#[test]
fn split_empty_input_yields_one_empty_segment() {
    let lines = split_at_hard_breaks(&[]);
    assert_eq!(lines.len(), 1);
    assert!(lines[0].is_empty());
}

#[test]
fn split_no_breaks_yields_one_segment() {
    let inlines = vec![text_run("hello"), text_run(" world")];
    let lines = split_at_hard_breaks(&inlines);
    assert_eq!(lines.len(), 1);
    assert_eq!(lines[0].len(), 2);
}

#[test]
fn split_single_hard_break() {
    let inlines = vec![text_run("a"), InlineRun::HardBreak, text_run("b")];
    let lines = split_at_hard_breaks(&inlines);
    assert_eq!(lines.len(), 2);
    assert_eq!(lines[0].len(), 1);
    assert_eq!(lines[1].len(), 1);
}

#[test]
fn split_two_hard_breaks_three_segments() {
    let inlines = vec![
        text_run("a"),
        InlineRun::HardBreak,
        text_run("b"),
        InlineRun::HardBreak,
        text_run("c"),
    ];
    let lines = split_at_hard_breaks(&inlines);
    assert_eq!(lines.len(), 3);
}

#[test]
fn split_leading_hard_break_first_segment_empty() {
    let inlines = vec![InlineRun::HardBreak, text_run("x")];
    let lines = split_at_hard_breaks(&inlines);
    assert_eq!(lines.len(), 2);
    assert!(lines[0].is_empty());
    assert_eq!(lines[1].len(), 1);
}

#[test]
fn split_lines_hold_everything_but_the_breaks() {
    let inlines = vec![text_run("a"), InlineRun::HardBreak, InlineRun::SoftBreak, text_run("b"), InlineRun::HardBreak];
    let lines = split_at_hard_breaks(&inlines);
    assert_eq!(lines.len(), 3);
    assert!(matches!(lines[1][0], InlineRun::SoftBreak));
    assert!(matches!(&lines[1][1], InlineRun::Text { text, .. } if text == "b"));
    assert!(lines[2].is_empty());
}
