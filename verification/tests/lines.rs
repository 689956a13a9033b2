use faber::buffer_view::{
    build_syntax_spans, build_text_runs, char_col_to_byte_col, token_color, ColorRole, DiagnosticEntry, Severity,
};
use faber::document::Selection;
use faber::line_cache::LineCache;
use faber::line_paint::{editor_line_runs, line_view, HighlightKind, LinePlace};
use faber::markdown::{HighlightSpan, Outline, OutlineItem, SyntaxToken};
use faber::outline_overlay::{
    filter_outline, first_matching_line, highlight_end, outline_body, OutlineBody, OutlineOverlay,
};
use faber::search::{InputFocus, Match};
use faber::text;
use ropey::Rope;

fn span(a: u32, b: u32, token: SyntaxToken) -> HighlightSpan {
    HighlightSpan { start_byte_col: a, end_byte_col: b, token }
}

fn diagnostic(line: u32, a: usize, b: usize, severity: Severity) -> DiagnosticEntry {
    DiagnosticEntry {
        lsp_line: line,
        start_char: a,
        end_char: b,
        severity,
        deprecated: false,
        unnecessary: false,
        message: "m".to_string(),
        source: "s".to_string(),
    }
}

fn heading(depth: u32, name: &str, line: usize, end: usize) -> OutlineItem {
    OutlineItem { depth, name: name.to_string(), context: None, source_line: line, end_line: end, block_ix: None }
}

#[test]
fn runs_follow_the_innermost_span() {
    let line = "fn main() {}";
    let runs = build_text_runs(line, &[span(0, 9, SyntaxToken::Function), span(0, 2, SyntaxToken::Keyword)], &[]);
    let shown: Vec<(usize, ColorRole)> = runs.iter().map(|r| (r.len, r.color)).collect();
    assert_eq!(
        shown,
        vec![
            (2, token_color(SyntaxToken::Keyword)),
            (7, ColorRole::Syntax(SyntaxToken::Function)),
            (3, ColorRole::Text),
        ]
    );
    assert!(build_text_runs("", &[span(0, 2, SyntaxToken::Keyword)], &[]).is_empty());
    assert_eq!(build_text_runs("größe", &[], &[])[0].len, 7);
}

#[test]
fn diagnostics_underline_what_they_touch() {
    let line = "let x = 1;";
    let mut d = diagnostic(0, 4, 5, Severity::Error);
    d.unnecessary = true;
    d.deprecated = true;
    let runs = build_text_runs(line, &[span(4, 5, SyntaxToken::Variable)], &[d]);
    assert_eq!(runs.len(), 3);
    let u = runs[1].underline.unwrap();
    assert!(u.wavy);
    assert_eq!(u.color, ColorRole::Error);
    assert_eq!(runs[1].color, ColorRole::TextMuted);
    assert_eq!(runs[1].strikethrough, Some(ColorRole::TextMuted));
    assert!(runs[0].underline.is_none() && runs[2].underline.is_none());
    assert_eq!(runs.iter().map(|r| r.len).sum::<usize>(), line.len());
}

#[test]
fn a_line_without_syntax_is_marked() {
    let runs = build_text_runs("abc", &[], &[diagnostic(0, 1, 2, Severity::Error)]);
    assert_eq!(runs.len(), 1);
    assert_eq!((runs[0].len, runs[0].color), (3, ColorRole::Text));
    assert_eq!(runs[0].underline.unwrap().color, ColorRole::Error);
    assert!(build_text_runs("abc", &[], &[])[0].underline.is_none());
}

#[test]
fn the_first_diagnostic_underlines() {
    let spans = [span(0, 3, SyntaxToken::Keyword)];
    let ds = [diagnostic(0, 0, 3, Severity::Hint), diagnostic(0, 0, 3, Severity::Warning)];
    let runs = build_text_runs("abc", &spans, &ds);
    assert_eq!(runs[0].underline.unwrap().color, ColorRole::TextMuted);
    // An empty range touches nothing.
    let runs = build_text_runs("abc", &spans, &[diagnostic(0, 2, 2, Severity::Error)]);
    assert!(runs[0].underline.is_none());
}

#[test]
fn lines_in_colored_pieces() {
    let pieces = build_syntax_spans("größe x", &[span(0, 7, SyntaxToken::Type)]);
    let shown: Vec<(&str, ColorRole)> = pieces.iter().map(|p| (p.text.as_str(), p.color)).collect();
    assert_eq!(shown, vec![("größe", ColorRole::Syntax(SyntaxToken::Type)), (" x", ColorRole::Text)]);
    // A cut within a character leaves no text.
    let pieces = build_syntax_spans("ö", &[span(0, 1, SyntaxToken::Type)]);
    assert!(pieces.iter().all(|p| p.text.is_empty()));
}

#[test]
fn columns_in_bytes() {
    assert_eq!(char_col_to_byte_col("größe", 0), 0);
    assert_eq!(char_col_to_byte_col("größe", 3), 4);
    assert_eq!(char_col_to_byte_col("größe", 99), 7);
}

#[test]
fn the_lines_of_a_text() {
    let c = LineCache::build(&Rope::from_str("one\r\nthree\nfour\n"));
    assert_eq!(c.line_cache, vec!["one", "three", "four", ""]);
    assert_eq!(c.line_starts, vec![0, 5, 11, 16]);
    assert_eq!(c.widest_line, 1);
    assert_eq!(c.offset_on_line(2, 1), 12);
    assert_eq!(c.offset_on_line(9, 0), 16);
    let empty = LineCache::build(&Rope::from_str(""));
    assert_eq!(empty.line_cache, vec![""]);
}

#[test]
fn a_line_with_a_selection_and_matches() {
    let place = LinePlace { index: 1, start: 10, next_start: Some(21), doc_len: 30 };
    let sel = Selection { anchor: 12, head: 25, goal_col: 0 };
    let v = line_view("hello world", place, sel, &[Match { start: 16, end: 21 }], 0, &[], None, Some((0, 2)), None, true);
    let rects: Vec<(usize, usize, HighlightKind)> = v.rects.iter().map(|r| (r.start, r.end, r.kind)).collect();
    assert_eq!(rects, vec![(2, 11, HighlightKind::Selection), (6, 11, HighlightKind::ActiveMatch)]);
    assert!(v.sel_stub && v.in_section && !v.is_flash && !v.cursor_on_line);
    assert_eq!(v.caret_byte, None);
}

#[test]
fn a_line_with_the_caret_and_occurrences() {
    let place = LinePlace { index: 0, start: 0, next_start: None, doc_len: 7 };
    let caret = Selection { anchor: 2, head: 2, goal_col: 0 };
    let occ = [Match { start: 0, end: 3 }];
    let v = line_view("fö( fö)", place, caret, &[], 0, &occ, Some((2, 6)), None, Some(0), true);
    assert!(v.cursor_on_line && v.is_flash);
    assert_eq!(v.caret_byte, Some(3));
    assert_eq!(v.rects[0].kind, HighlightKind::Word);
    assert_eq!(v.rects.len(), 3);
}

#[test]
fn links_are_underlined() {
    let runs = editor_line_runs("go there", 0, 0, &[], &[], Some((3, 8)));
    assert_eq!(runs.iter().map(|r| r.len).collect::<Vec<usize>>(), vec![3, 5]);
    assert!(runs[1].underline.is_some() && runs[0].underline.is_none());
    // The problems of other lines do not show.
    let runs = editor_line_runs("go", 1, 10, &[span(0, 2, SyntaxToken::Keyword)], &[diagnostic(0, 0, 2, Severity::Error)], None);
    assert!(runs[0].underline.is_none());
}

#[test]
fn outlines_are_filtered_by_name() {
    let outline = Outline { items: vec![heading(0, "Intro", 0, 0), heading(1, "Öl", 2, 2), heading(0, "Outro", 5, 9)] };
    assert_eq!(filter_outline(&outline, ""), vec![0, 1, 2]);
    assert_eq!(filter_outline(&outline, "TRO"), vec![0, 2]);
    assert_eq!(filter_outline(&outline, "öl"), vec![1]);
    assert_eq!(first_matching_line(&outline, "out"), Some(5));
    assert_eq!(first_matching_line(&outline, "zzz"), None);
    assert!(matches!(outline_body(&outline, "zzz", None), OutlineBody::NoMatches));
    assert!(matches!(outline_body(&Outline { items: vec![] }, "", None), OutlineBody::NoHeadings));
    match outline_body(&outline, "tro", Some(1)) {
        OutlineBody::Rows(rows) => {
            assert_eq!(rows.len(), 2);
            assert!(!rows[0].hovered && rows[1].hovered);
            assert_eq!(rows[1].source_line, 5);
        }
        _ => panic!("rows"),
    }
}

#[test]
fn a_section_ends_where_the_next_begins() {
    let mut outline = Outline {
        items: vec![heading(0, "a", 0, 0), heading(1, "b", 3, 3), heading(0, "c", 7, 9)],
    };
    // A symbol ends with its body.
    assert_eq!(highlight_end(&outline, 2), 10);
    for (i, item) in outline.items.iter_mut().enumerate() {
        item.block_ix = Some(i);
    }
    assert_eq!(highlight_end(&outline, 0), 7);
    assert_eq!(highlight_end(&outline, 1), 7);
    assert_eq!(highlight_end(&outline, 2), usize::MAX);
}

#[test]
fn the_outline_opens_and_closes() {
    let mut o = OutlineOverlay::new();
    assert_eq!(o.toggle(), InputFocus::Outline);
    o.input.insert("x");
    assert!(o.hover_entry(2, 5, 9));
    assert!(!o.hover_entry(2, 5, 9));
    assert_eq!(o.highlight, Some((5, 9)));
    assert_eq!(o.close(), InputFocus::Editor);
    assert!(!o.open && o.hover.is_none() && o.highlight.is_none());
    o.toggle();
    assert_eq!(o.input.text, "");
}

#[test]
fn texts_and_their_lines() {
    assert_eq!(text::lines_of("a\r\nb\n\nc"), vec!["a", "b", "", "c"]);
    assert_eq!(text::lines_of("a\n"), vec!["a"]);
    assert!(text::lines_of("").is_empty());
    assert_eq!(text::parts_without_returns("a\r\nb\n", 9), vec!["a", "b", ""]);
    assert_eq!(text::parts_without_returns("a\nb\nc", 2), vec!["a", "b"]);
    assert_eq!(text::trim("\u{3000} a b\t"), "a b");
    assert!(text::is_blank(" \u{2003}\n") && !text::is_blank(" x"));
    assert!(text::contains_text("größe", "öß") && !text::contains_text("größe", "oß"));
    assert!(text::starts_with("abc", "ab") && !text::starts_with("a", "ab"));
    assert_eq!(text::byte_len("öß"), 4);
    assert_eq!(text::char_at_byte("öß", 3), (2, 4));
    let mut s = String::new();
    text::push_decimal(&mut s, 0);
    text::push_decimal(&mut s, u64::MAX);
    assert_eq!(s, "018446744073709551615");
}
