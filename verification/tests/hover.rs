use faber::buffer_view::{ColorRole, FontRole, TextRun};
use faber::hover_layout::{bucket_of, group_segments, segment_gap, selected_range, table_rows, Bucket};
use faber::hover_popover::{
    ceil_char_boundary, link_at_byte, runs_tile_text, segment_runs, selected_text, style_run_range, HoverSelection,
    Segment, SegmentKind, SegmentLink, TextSize,
};
use faber::hover_segments::{build_segments, code_line_runs};
use faber::markdown::{Block, BlockKind, HighlightSpan, InlineRun, InlineStyle, ListItem, MarkdownDoc, SyntaxToken};

fn run(len: usize) -> TextRun {
    TextRun {
        len,
        font: FontRole { mono: true, bold: false, italic: false },
        color: ColorRole::Text,
        background: None,
        underline: None,
        strikethrough: None,
    }
}

fn marked(r: TextRun) -> TextRun {
    TextRun { background: Some(ColorRole::Selection), ..r }
}

fn new_segment(kind: SegmentKind, text: &str, runs: Vec<TextRun>, links: Vec<SegmentLink>) -> Segment {
    Segment {
        kind,
        text: text.to_string(),
        runs,
        links,
        text_size: TextSize::Body { percent: 100 },
        quote: false,
        indent: 0,
        top_gap: 0,
        table_cell: None,
    }
}

fn plain(s: &str) -> InlineRun {
    InlineRun::Text {
        text: s.to_string(),
        style: InlineStyle { bold: false, italic: false, code: false, strike: false },
        link: None,
    }
}

fn block(kind: BlockKind) -> Block {
    Block { kind, first_line: 0, end_line: 0 }
}

fn paragraph(s: &str) -> Block {
    block(BlockKind::Paragraph { inlines: vec![plain(s)] })
}

#[test]
fn style_range_splits_runs_exactly() {
    let mut runs = vec![run(4), run(6)];
    style_run_range(&mut runs, 2..7, marked);
    let lens: Vec<usize> = runs.iter().map(|r| r.len).collect();
    assert_eq!(lens, vec![2, 2, 3, 3]);
    assert!(runs[1].background.is_some());
    assert!(runs[2].background.is_some());
    assert!(runs[0].background.is_none());
    assert!(runs[3].background.is_none());
    assert_eq!(lens.iter().sum::<usize>(), 10);
}

#[test]
fn style_range_noop_outside() {
    let mut runs = vec![run(5)];
    style_run_range(&mut runs, 5..5, marked);
    assert_eq!(runs.len(), 1);
    assert!(runs[0].background.is_none());
}

#[test]
fn selection_normalizes_and_slices() {
    let sel = HoverSelection { start: (2, 3), end: (0, 1) };
    assert_eq!(sel.normalized(), ((0, 1), (2, 3)));
    assert_eq!(sel.range_in_segment(0, 10), Some(1..10));
    assert_eq!(sel.range_in_segment(1, 4), Some(0..4));
    assert_eq!(sel.range_in_segment(2, 10), Some(0..3));
    assert_eq!(sel.range_in_segment(3, 10), None);
}

#[test]
fn selected_text_joins_segments() {
    let segments = vec![
        new_segment(SegmentKind::Text, "hello world", vec![], vec![]),
        new_segment(SegmentKind::Text, "second", vec![], vec![]),
    ];
    let sel = HoverSelection { start: (0, 6), end: (1, 3) };
    assert_eq!(selected_text(&segments, &sel), "world\nsec");
}

#[test]
fn segments_preserve_block_structure() {
    // # Title / > callout / - item one / - item two / | A | B | over | 1 | 2 |
    let md = MarkdownDoc {
        blocks: vec![
            block(BlockKind::Heading { level: 1, inlines: vec![plain("Title")] }),
            block(BlockKind::Blockquote { children: vec![paragraph("callout")] }),
            block(BlockKind::List {
                ordered: false,
                start: 1,
                items: vec![
                    ListItem { task: None, blocks: vec![paragraph("item one")] },
                    ListItem { task: None, blocks: vec![paragraph("item two")] },
                ],
            }),
            block(BlockKind::Table {
                head: vec![vec![plain("A")], vec![plain("B")]],
                rows: vec![vec![vec![plain("1")], vec![plain("2")]]],
            }),
        ],
    };
    let segs = build_segments(&md);

    let title = segs.iter().find(|s| s.text == "Title").expect("heading");
    assert!(matches!(title.text_size, TextSize::Body { percent } if percent > 100), "headings scale up");
    let quote = segs.iter().find(|s| s.text.contains("callout")).unwrap();
    assert!(quote.quote, "blockquote flag set");
    assert!(segs.iter().any(|s| s.text.starts_with("• item one")), "list bullets present");
    let cells: Vec<_> = segs.iter().filter(|s| s.table_cell.is_some()).collect();
    assert_eq!(cells.len(), 4, "2x2 table cells");
    assert_eq!(cells[0].table_cell, Some((0, 0, 2)));
}

#[test]
fn overlapping_highlight_spans_still_tile_the_line() {
    let line = "pub fn hello_world() {}";
    // Nested/overlapping and unsorted spans, as tree-sitter captures can be.
    let spans = vec![
        HighlightSpan { start_byte_col: 0, end_byte_col: 10, token: SyntaxToken::Keyword },
        HighlightSpan { start_byte_col: 4, end_byte_col: 6, token: SyntaxToken::Function },
        HighlightSpan { start_byte_col: 2, end_byte_col: 20, token: SyntaxToken::Type },
        HighlightSpan { start_byte_col: 15, end_byte_col: u32::MAX, token: SyntaxToken::Punctuation },
    ];
    let runs = code_line_runs(line, &spans);
    assert!(runs_tile_text(&runs, line), "runs must tile the line exactly");
}

#[test]
fn empty_selection_has_no_text() {
    let segments = vec![new_segment(SegmentKind::Text, "abc", vec![], vec![])];
    let sel = HoverSelection { start: (0, 1), end: (0, 1) };
    assert!(sel.is_empty());
    assert_eq!(selected_text(&segments, &sel), "");
}

#[test]
fn the_direction_of_a_selection_does_not_matter() {
    let segments = vec![
        new_segment(SegmentKind::Text, "größe", vec![], vec![]),
        new_segment(SegmentKind::Rule, "", vec![], vec![]),
        new_segment(SegmentKind::Code, "let x;", vec![], vec![]),
    ];
    let there = HoverSelection { start: (0, 4), end: (2, 3) };
    let back = HoverSelection { start: (2, 3), end: (0, 4) };
    assert_eq!(there.normalized(), back.normalized());
    assert_eq!(selected_text(&segments, &there), selected_text(&segments, &back));
    assert!(selected_text(&segments, &there).starts_with("ße"));
    assert!(selected_text(&segments, &there).ends_with("let"));
}

#[test]
fn boundaries_are_found_upwards() {
    // "ö" takes the bytes 2 and 3.
    assert_eq!(ceil_char_boundary("grö", 2), 2);
    assert_eq!(ceil_char_boundary("grö", 3), 4);
    assert_eq!(ceil_char_boundary("grö", 99), 4);
    assert_eq!(ceil_char_boundary("", 0), 0);
}

#[test]
fn runs_tile_only_where_they_end_with_the_text() {
    assert!(runs_tile_text(&[run(2), run(2)], "grö"));
    assert!(!runs_tile_text(&[run(3), run(1)], "grö"));
    assert!(!runs_tile_text(&[run(2)], "grö"));
    assert!(!runs_tile_text(&[run(9)], "grö"));
}

#[test]
fn a_styled_range_keeps_the_length() {
    let mut runs = vec![run(3), run(3), run(3)];
    style_run_range(&mut runs, 1..2, marked);
    assert_eq!(runs.iter().map(|r| r.len).collect::<Vec<usize>>(), vec![1, 1, 1, 3, 3]);
    style_run_range(&mut runs, 0..100, marked);
    assert!(runs.iter().all(|r| r.background.is_some()));
    assert_eq!(runs.iter().map(|r| r.len).sum::<usize>(), 9);
}

#[test]
fn links_are_found_by_the_byte() {
    let seg = new_segment(
        SegmentKind::Text,
        "see here",
        vec![run(8)],
        vec![SegmentLink { start: 4, end: 8, url: "https://a.b".to_string() }],
    );
    assert_eq!(link_at_byte(&seg, 3), None);
    assert_eq!(link_at_byte(&seg, 4), Some(0));
    assert_eq!(link_at_byte(&seg, 7), Some(0));
    assert_eq!(link_at_byte(&seg, 8), None);
}

#[test]
fn a_selected_segment_is_painted_in_pieces() {
    let seg = new_segment(SegmentKind::Text, "hello", vec![run(5)], vec![]);
    let runs = segment_runs(&seg, Some(1..3)).unwrap();
    assert_eq!(runs.iter().map(|r| r.len).collect::<Vec<usize>>(), vec![1, 2, 2]);
    assert_eq!(runs[1].background, Some(ColorRole::Selection));
    // Runs that do not tile a line of code give way to one run.
    let broken = new_segment(SegmentKind::Code, "hello", vec![run(3)], vec![]);
    let runs = segment_runs(&broken, None).unwrap();
    assert_eq!(runs.iter().map(|r| r.len).collect::<Vec<usize>>(), vec![5]);
    let bare = new_segment(SegmentKind::Code, "hello", vec![], vec![]);
    assert!(segment_runs(&bare, None).is_none());
}

#[test]
fn lists_tasks_and_images_become_segments() {
    let md = MarkdownDoc {
        blocks: vec![
            block(BlockKind::List {
                ordered: true,
                start: 3,
                items: vec![
                    ListItem { task: None, blocks: vec![paragraph("three")] },
                    ListItem { task: Some(true), blocks: vec![paragraph("done")] },
                    ListItem { task: Some(false), blocks: vec![] },
                ],
            }),
            block(BlockKind::Paragraph {
                inlines: vec![
                    plain("before"),
                    InlineRun::Image { alt: "alt".to_string(), dest: "https://x/y.png".to_string(), link: None },
                    InlineRun::Text {
                        text: "after".to_string(),
                        style: InlineStyle { bold: false, italic: false, code: false, strike: false },
                        link: Some("https://x".to_string()),
                    },
                ],
            }),
            block(BlockKind::Rule),
            block(BlockKind::CodeBlock { lang: None, text: "a\nb\n".to_string(), highlights: vec![] }),
        ],
    };
    let segs = build_segments(&md);
    let texts: Vec<&str> = segs.iter().map(|s| s.text.as_str()).collect();
    assert_eq!(texts, vec!["3. three", "☑ done", "☐ ", "before", "", "after", "", "a", "b"]);
    assert!(matches!(&segs[4].kind, SegmentKind::Image { url, .. } if url == "https://x/y.png"));
    assert_eq!((segs[5].links[0].start, segs[5].links[0].end), (0, 5));
    assert!(matches!(segs[6].kind, SegmentKind::Rule));
    assert!(segs[7].kind.is_text() && !segs[6].kind.is_text());
    assert!(segs.iter().all(|s| s.runs.is_empty() || runs_tile_text(&s.runs, &s.text)));
}

#[test]
fn segments_are_grouped_by_kind() {
    let mut segments = vec![
        new_segment(SegmentKind::Text, "a", vec![], vec![]),
        new_segment(SegmentKind::Code, "b", vec![], vec![]),
        new_segment(SegmentKind::Code, "c", vec![], vec![]),
        new_segment(SegmentKind::Text, "d", vec![], vec![]),
        new_segment(SegmentKind::Text, "e", vec![], vec![]),
    ];
    segments[3].table_cell = Some((0, 0, 2));
    segments[4].table_cell = Some((0, 1, 2));
    segments[1].top_gap = 6;
    assert_ne!(bucket_of(&segments[0]), bucket_of(&segments[1]));
    let groups = group_segments(&segments);
    let ends: Vec<(usize, usize)> = groups.iter().map(|g| (g.from, g.to)).collect();
    assert_eq!(ends, vec![(0, 1), (1, 3), (3, 5)]);
    assert_eq!(groups[1].bucket, Bucket::Code);
    assert_eq!(table_rows(&segments, groups[2]), vec![vec![3, 4]]);
    // The gap above the first segment of a group is that of the group.
    assert_eq!(segment_gap(&segments, groups[1], 1), 0);
}

#[test]
fn the_selected_part_of_a_segment() {
    let segments = vec![
        new_segment(SegmentKind::Text, "hello", vec![], vec![]),
        new_segment(SegmentKind::Text, "there", vec![], vec![]),
    ];
    let sel = HoverSelection { start: (0, 2), end: (1, 1) };
    assert_eq!(selected_range(&segments, Some(sel), 0), Some((2, 5)));
    assert_eq!(selected_range(&segments, Some(sel), 1), Some((0, 1)));
    assert_eq!(selected_range(&segments, None, 0), None);
}
