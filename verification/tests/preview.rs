use faber::buffer_view::ColorRole;
use faber::markdown::{Block, BlockKind, HighlightSpan, InlineRun, InlineStyle, ListItem, MarkdownDoc, SyntaxToken};
use faber::markdown_preview::{
    inline_line, inline_lines, render_block, styled_line, BlockView, HeadingMargin, InlinePiece, MarkdownPreviewView,
    Marker,
};

fn plain(s: &str) -> InlineRun {
    styled(s, false, None)
}

fn styled(s: &str, code: bool, link: Option<&str>) -> InlineRun {
    InlineRun::Text {
        text: s.to_string(),
        style: InlineStyle { bold: false, italic: false, code, strike: false },
        link: link.map(|l| l.to_string()),
    }
}

fn image(alt: &str, dest: &str) -> InlineRun {
    InlineRun::Image { alt: alt.to_string(), dest: dest.to_string(), link: None }
}

fn block(kind: BlockKind, first_line: usize) -> Block {
    Block { kind, first_line, end_line: first_line + 1 }
}

fn paragraph(s: &str, line: usize) -> Block {
    block(BlockKind::Paragraph { inlines: vec![plain(s)] }, line)
}

#[test]
fn lines_with_links_and_code() {
    let line = styled_line(&[
        plain("größe "),
        InlineRun::SoftBreak,
        styled("web", false, Some("https://a")),
        styled("mail", true, Some("mailto:x")),
        plain(""),
    ]);
    assert_eq!(line.text, "größe  webmail");
    assert_eq!(line.runs.iter().map(|r| r.len).collect::<Vec<usize>>(), vec![8, 1, 3, 4]);
    assert_eq!(line.runs.iter().map(|r| r.len).sum::<usize>(), line.text.len());
    assert_eq!(line.links.len(), 1);
    assert_eq!((line.links[0].start, line.links[0].end, line.links[0].url.as_str()), (7, 10, "https://a"));
    assert_eq!(line.runs[2].color, ColorRole::Accent);
    assert!(line.runs[3].underline.is_some() && line.runs[3].font.mono);
    assert_eq!(line.runs[3].background, Some(ColorRole::BgSunken));
}

#[test]
fn images_divide_a_line() {
    let pieces = inline_line(
        &[plain("a"), image("", "http://x/y.png"), image("pic", "https://x"), plain("b"), image("", "img/z.png")],
        "/docs",
    );
    assert_eq!(pieces.len(), 5);
    assert!(matches!(&pieces[0], InlinePiece::Text { line, part: Some(0) } if line.text == "a"));
    assert!(matches!(&pieces[1], InlinePiece::Label { label } if label == "[image]"));
    assert!(matches!(&pieces[2], InlinePiece::Label { label } if label == "pic"));
    assert!(matches!(&pieces[3], InlinePiece::Text { part: Some(1), .. }));
    assert!(matches!(&pieces[4], InlinePiece::Picture { path } if path == "/docs/img/z.png"));
    let whole = inline_line(&[plain("a"), plain("b")], "/docs");
    assert!(matches!(&whole[0], InlinePiece::Text { line, part: None } if line.text == "ab"));
    assert_eq!(inline_lines(&[plain("a"), InlineRun::HardBreak, plain("b")], "").len(), 2);
}

#[test]
fn headings_are_set_by_their_level() {
    let sizes: Vec<u32> = (1..=6)
        .map(|level| {
            let b = block(BlockKind::Heading { level, inlines: vec![plain("t")] }, 0);
            match render_block(&b, 1, "") {
                BlockView::Heading { percent, margin, ruled, .. } => {
                    assert_eq!(ruled, level <= 2);
                    assert_eq!(margin == HeadingMargin::Wide, level <= 2);
                    percent
                }
                _ => panic!("heading"),
            }
        })
        .collect();
    assert_eq!(sizes, vec![160, 135, 115, 100, 90, 85]);
    let first = render_block(&block(BlockKind::Heading { level: 1, inlines: vec![] }, 0), 0, "");
    assert!(matches!(first, BlockView::Heading { margin: HeadingMargin::Nothing, .. }));
}

#[test]
fn lists_quotes_and_tables() {
    let list = block(
        BlockKind::List {
            ordered: true,
            start: 4,
            items: vec![
                ListItem { task: None, blocks: vec![paragraph("x", 0)] },
                ListItem { task: Some(true), blocks: vec![] },
            ],
        },
        0,
    );
    match render_block(&list, 0, "") {
        BlockView::List { items } => {
            assert!(matches!(&items[0].marker, Marker::Number { label } if label == "4."));
            assert!(matches!(items[1].marker, Marker::Task { done: true }));
            assert!(matches!(items[0].blocks[0], BlockView::Paragraph { .. }));
        }
        _ => panic!("list"),
    }
    let quote = block(BlockKind::Blockquote { children: vec![paragraph("a", 0), block(BlockKind::Rule, 1)] }, 0);
    assert!(matches!(render_block(&quote, 0, ""), BlockView::Quote { children } if children.len() == 2));
    let table = block(
        BlockKind::Table { head: vec![vec![plain("h")]], rows: vec![vec![vec![plain("1")], vec![plain("2")]]] },
        0,
    );
    match render_block(&table, 0, "") {
        BlockView::Table { head, rows } => assert_eq!((head.len(), rows[0].len()), (1, 2)),
        _ => panic!("table"),
    }
    let bullets = block(BlockKind::List { ordered: false, start: 0, items: vec![ListItem { task: None, blocks: vec![] }] }, 0);
    assert!(matches!(render_block(&bullets, 0, ""), BlockView::List { items } if matches!(items[0].marker, Marker::Bullet)));
    let html = block(BlockKind::HtmlBlock { text: "<b>".to_string() }, 0);
    assert!(matches!(render_block(&html, 0, ""), BlockView::Html { source } if source == "<b>"));
}

#[test]
fn code_keeps_its_lines() {
    let code = block(
        BlockKind::CodeBlock {
            lang: Some("rust".to_string()),
            text: "fn a\nb\n".to_string(),
            highlights: vec![vec![HighlightSpan { start_byte_col: 0, end_byte_col: 2, token: SyntaxToken::Keyword }]],
        },
        0,
    );
    match render_block(&code, 0, "") {
        BlockView::Code { lang, code } => {
            assert_eq!(lang.unwrap(), "rust");
            assert_eq!(code[0].runs.iter().map(|r| r.len).collect::<Vec<usize>>(), vec![2, 2]);
            assert_eq!(code[1].text, "b");
            assert!(code[1].runs.is_empty());
        }
        _ => panic!("code"),
    }
}

#[test]
fn the_preview_follows_the_source() {
    let md = MarkdownDoc { blocks: vec![paragraph("a", 2), paragraph("b", 5), paragraph("c", 9)] };
    let mut v = MarkdownPreviewView::new(md, "/docs/readme.md");
    assert_eq!(v.base_dir, "/docs");
    let at: Vec<usize> = [0, 2, 4, 5, 8, 9, 99].iter().map(|&l| v.scroll_to_source_line(l)).collect();
    assert_eq!(at, vec![0, 0, 0, 1, 1, 2, 2]);
    for (ix, block) in v.md.blocks.iter().enumerate() {
        assert_eq!(v.scroll_to_source_line(block.first_line), ix);
        assert_eq!(v.source_line_at_top(ix), block.first_line);
    }
    assert_eq!(v.source_line_at_top(3), 0);
    assert_eq!(v.blocks().len(), 3);
    v.apply_md(MarkdownDoc { blocks: vec![] });
    assert_eq!(v.scroll_to_source_line(5), 0);
    assert!(v.blocks().is_empty());
    assert_eq!(MarkdownPreviewView::new(MarkdownDoc { blocks: vec![] }, "/").base_dir, ".");
}
