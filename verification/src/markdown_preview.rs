//! The preview of a Markdown document: what its blocks show, and how it follows the source.
use vstd::prelude::*;

use crate::buffer_view;
use crate::buffer_view::{ColorRole, FontRole, TextRun, Underline};
use crate::editor_logic;
use crate::editor_logic::split_at_hard_breaks;
use crate::hover_segments;
use crate::hover_segments::{code_line_runs, is_web_address};
use crate::markdown::{copy_text, Block, BlockKind, HighlightSpan, InlineRun, InlineStyle, ListItem, MarkdownDoc};
use crate::paths;
use crate::paths::{path_join, path_parent};
use crate::text;
use crate::text::{byte_len, lines_of, push_char, push_decimal};

verus! {

// ── Lines of text ─────────────────────────────────────────────────────────────

/// A stretch of a line, in characters, that leads to the web.
#[derive(Debug)]
pub struct TextLink {
    pub start: usize,
    pub end: usize,
    pub url: String,
}

/// A line of text with its runs and its links.
#[derive(Debug)]
pub struct StyledLine {
    pub text: String,
    pub runs: Vec<TextRun>,
    pub links: Vec<TextLink>,
}

/// A line of text by its values.
#[verifier::ext_equal]
pub struct LineView {
    pub text: Seq<char>,
    pub runs: Seq<TextRun>,
    pub links: Seq<(int, int, Seq<char>)>,
}

/// Links by their values.
pub open spec fn link_views(links: Seq<TextLink>) -> Seq<(int, int, Seq<char>)> {
    links.map_values(|l: TextLink| (l.start as int, l.end as int, l.url@))
}

impl View for StyledLine {
    type V = LineView;

    open spec fn view(&self) -> LineView {
        LineView { text: self.text@, runs: self.runs@, links: link_views(self.links@) }
    }
}

/// The run of a stretch of text of `len` bytes.
pub open spec fn preview_run(len: int, style: InlineStyle, is_link: bool) -> TextRun {
    TextRun {
        len: len as usize,
        font: FontRole { mono: style.code, bold: style.bold, italic: style.italic },
        color: if is_link { ColorRole::Accent } else { ColorRole::Text },
        background: if style.code { Some(ColorRole::BgSunken) } else { None },
        underline: if is_link { Some(Underline { color: ColorRole::Accent, wavy: false }) } else { None },
        strikethrough: if style.strike { Some(ColorRole::TextMuted) } else { None },
    }
}

/// How plain text is set.
pub open spec fn plain() -> InlineStyle {
    InlineStyle { bold: false, italic: false, code: false, strike: false }
}

/// A line with one more piece of inline text. A soft break is a space; images and hard breaks are
/// no text.
pub open spec fn with_inline(line: LineView, inline: InlineRun) -> LineView {
    match inline {
        InlineRun::Text { text, style, link } => if text@.len() == 0 {
            line
        } else {
            let joined = line.text + text@;
            LineView {
                text: joined,
                runs: line.runs.push(preview_run(text::byte_count(text@), style, link is Some)),
                links: if hover_segments::leads_to_web(link) {
                    line.links.push((line.text.len() as int, joined.len() as int, link->0@))
                } else {
                    line.links
                },
            }
        },
        InlineRun::SoftBreak => LineView {
            text: line.text.push(' '),
            runs: line.runs.push(preview_run(1, plain(), false)),
            links: line.links,
        },
        _ => line,
    }
}

/// The line of the first `n` pieces of inline text.
pub open spec fn styled(inlines: Seq<InlineRun>, n: int) -> LineView
    decreases n,
{
    if n <= 0 {
        LineView { text: Seq::empty(), runs: Seq::empty(), links: Seq::empty() }
    } else {
        with_inline(styled(inlines, n - 1), inlines[n - 1])
    }
}

/// The runs of a line tile its text, and its links lie within it, one behind the other.
pub proof fn line_is_tiled(inlines: Seq<InlineRun>, n: int)
    requires
        0 <= n <= inlines.len(),
        text::byte_count(styled(inlines, n).text) <= usize::MAX,
    ensures
        buffer_view::total_len(styled(inlines, n).runs) == text::byte_count(styled(inlines, n).text),
        forall|k: int|
            0 <= k < styled(inlines, n).links.len() ==> 0 <= (#[trigger] styled(inlines, n).links[k]).0 < styled(inlines, n).links[k].1
                <= styled(inlines, n).text.len(),
        forall|j: int, k: int|
            0 <= j < k < styled(inlines, n).links.len() ==> (#[trigger] styled(inlines, n).links[j]).1 <= (#[trigger] styled(
                inlines,
                n,
            ).links[k]).0,
    decreases n,
{
    if n > 0 {
        let before = styled(inlines, n - 1);
        let after = styled(inlines, n);
        let inline = inlines[n - 1];
        let added = match inline {
            InlineRun::Text { text, .. } => text@,
            InlineRun::SoftBreak => seq![' '],
            _ => Seq::empty(),
        };
        assert(after.text =~= before.text + added);
        text::encoding_of_joined(before.text, added);
        line_is_tiled(inlines, n - 1);
        if inline is SoftBreak {
            text::bytes_of_char(' ');
            space_is_one_byte();
        }
        if after.runs.len() > before.runs.len() {
            hover_segments::total_len_of_push(before.runs, after.runs.last());
        } else {
            assert(vstd::utf8::encode_utf8(Seq::<char>::empty()) =~= Seq::<u8>::empty());
            assert(after.text =~= before.text);
        }
    } else {
        assert(vstd::utf8::encode_utf8(Seq::<char>::empty()) =~= Seq::<u8>::empty());
    }
}

proof fn space_is_one_byte()
    ensures
        text::byte_count(seq![' ']) == 1,
{
    text::bytes_of_first(seq![' ']);
    text::bytes_of_char(' ');
}

/// A line of text.
pub fn styled_line(inlines: &[InlineRun]) -> (line: StyledLine)
    ensures
        line@ == styled(inlines@, inlines@.len() as int),
{
    let mut line: StyledLine = StyledLine { text: String::new(), runs: Vec::new(), links: Vec::new() };
    let mut i: usize = 0;
    assert(line@ =~= styled(inlines@, 0));
    while i < inlines.len()
        invariant
            i <= inlines@.len(),
            line@ == styled(inlines@, i as int),
        decreases inlines@.len() - i,
    {
        push_inline(&mut line, &inlines[i]);
        i = i + 1;
    }
    line
}

/// Adds one more piece of inline text to a line.
fn push_inline(line: &mut StyledLine, inline: &InlineRun)
    ensures
        final(line)@ == with_inline(old(line)@, *inline),
{
    let ghost before = *line;
    match inline {
        InlineRun::Text { text, style, link } => {
            if text.as_str().is_empty() {
                return;
            }
            let start: usize = line.text.as_str().unicode_len();
            line.text.append(text.as_str());
            let end: usize = line.text.as_str().unicode_len();
            if let Some(url) = link {
                if is_web_address(url.as_str()) {
                    line.links.push(TextLink { start, end, url: url.clone() });
                    assert(link_views(line.links@) =~= link_views(before.links@).push((start as int, end as int, url@)));
                }
            }
            line.runs.push(
                TextRun {
                    len: byte_len(text.as_str()),
                    font: FontRole { mono: style.code, bold: style.bold, italic: style.italic },
                    color: if link.is_some() { ColorRole::Accent } else { ColorRole::Text },
                    background: if style.code { Some(ColorRole::BgSunken) } else { None },
                    underline: if link.is_some() { Some(Underline { color: ColorRole::Accent, wavy: false }) } else { None },
                    strikethrough: if style.strike { Some(ColorRole::TextMuted) } else { None },
                },
            );
        },
        InlineRun::SoftBreak => {
            push_char(&mut line.text, ' ');
            line.runs.push(
                TextRun {
                    len: 1,
                    font: FontRole { mono: false, bold: false, italic: false },
                    color: ColorRole::Text,
                    background: None,
                    underline: None,
                    strikethrough: None,
                },
            );
        },
        _ => {},
    }
}

// ── Text and images ───────────────────────────────────────────────────────────

/// A piece of a line.
#[derive(Debug)]
pub enum InlinePiece {
    /// Text. `part` counts the stretches of text of a line that images divide.
    Text { line: StyledLine, part: Option<usize> },
    /// What stands for an image on the web.
    Label { label: String },
    /// An image from a file.
    Picture { path: String },
}

/// A piece of a line by its values.
pub enum PieceView {
    Text { line: LineView, part: Option<usize> },
    Label { label: Seq<char> },
    Picture { path: Seq<char> },
}

impl View for InlinePiece {
    type V = PieceView;

    open spec fn view(&self) -> PieceView {
        match self {
            InlinePiece::Text { line, part } => PieceView::Text { line: line@, part: *part },
            InlinePiece::Label { label } => PieceView::Label { label: label@ },
            InlinePiece::Picture { path } => PieceView::Picture { path: path@ },
        }
    }
}

/// Pieces by their values.
pub open spec fn piece_views(pieces: Seq<InlinePiece>) -> Seq<PieceView> {
    pieces.map_values(|p: InlinePiece| p@)
}

/// The pieces of a line in the making: those that are done, the text behind them, and how many
/// stretches of text are done.
pub struct Pieces {
    pub out: Seq<PieceView>,
    pub pending: Seq<InlineRun>,
    pub parts: int,
}

/// The pieces with the text behind them done.
pub open spec fn text_done(p: Pieces) -> Pieces {
    if p.pending.len() == 0 {
        p
    } else {
        Pieces {
            out: p.out.push(
                PieceView::Text { line: styled(p.pending, p.pending.len() as int), part: Some(p.parts as usize) },
            ),
            pending: Seq::empty(),
            parts: p.parts + 1,
        }
    }
}

/// What an image is shown as: its description where it is on the web, and the image where it is a
/// file below the folder `base`.
pub open spec fn image_piece(alt: Seq<char>, dest: Seq<char>, base: Seq<char>) -> PieceView {
    if hover_segments::web_address(dest) {
        PieceView::Label { label: if alt.len() == 0 { "[image]"@ } else { alt } }
    } else {
        PieceView::Picture { path: paths::joined_path_of(base, dest) }
    }
}

/// The pieces of the first `n` pieces of inline text of a line with images.
pub open spec fn pieces_up_to(inlines: Seq<InlineRun>, base: Seq<char>, n: int) -> Pieces
    decreases n,
{
    if n <= 0 {
        Pieces { out: Seq::empty(), pending: Seq::empty(), parts: 0 }
    } else {
        let p = pieces_up_to(inlines, base, n - 1);
        match inlines[n - 1] {
            InlineRun::Image { alt, dest, .. } => {
                let done = text_done(p);
                Pieces { out: done.out.push(image_piece(alt@, dest@, base)), ..done }
            },
            _ => Pieces { pending: p.pending.push(inlines[n - 1]), ..p },
        }
    }
}

/// Whether there is an image among the first `n` pieces of inline text.
pub open spec fn has_image(inlines: Seq<InlineRun>, n: int) -> bool {
    exists|i: int| 0 <= i < n && (#[trigger] inlines[i]) is Image
}

/// The pieces of a line.
pub open spec fn line_pieces(inlines: Seq<InlineRun>, base: Seq<char>) -> Seq<PieceView> {
    if has_image(inlines, inlines.len() as int) {
        text_done(pieces_up_to(inlines, base, inlines.len() as int)).out
    } else {
        seq![PieceView::Text { line: styled(inlines, inlines.len() as int), part: None }]
    }
}

/// Whether there is an image among pieces of inline text.
fn any_image(inlines: &[InlineRun]) -> (b: bool)
    ensures
        b == has_image(inlines@, inlines@.len() as int),
{
    let mut i: usize = 0;
    while i < inlines.len()
        invariant
            i <= inlines@.len(),
            !has_image(inlines@, i as int),
        decreases inlines@.len() - i,
    {
        if let InlineRun::Image { .. } = &inlines[i] {
            assert(inlines@[i as int] is Image);
            return true;
        }
        i = i + 1;
    }
    false
}

/// Makes the text that is pending a piece.
fn finish_text(out: &mut Vec<InlinePiece>, pending: &mut Vec<InlineRun>, parts: usize) -> (r: usize)
    requires
        old(pending)@.len() > 0 ==> parts < usize::MAX,
    ensures
        ({
            let before = Pieces { out: piece_views(old(out)@), pending: old(pending)@, parts: parts as int };
            (Pieces { out: piece_views(final(out)@), pending: final(pending)@, parts: r as int }) == text_done(before)
        }),
        r == if old(pending)@.len() > 0 { parts + 1 } else { parts as int },
        final(pending)@.len() == 0,
{
    if pending.len() == 0 {
        return parts;
    }
    let ghost before = out@;
    let line: StyledLine = styled_line(pending.as_slice());
    let ghost view = line@;
    out.push(InlinePiece::Text { line, part: Some(parts) });
    assert(piece_views(out@) =~= piece_views(before).push(PieceView::Text { line: view, part: Some(parts) }));
    *pending = Vec::new();
    parts + 1
}

/// The pieces of a line, with images from files below the folder `base`.
pub fn inline_line(inlines: &[InlineRun], base: &str) -> (pieces: Vec<InlinePiece>)
    ensures
        piece_views(pieces@) == line_pieces(inlines@, base@),
{
    let mut out: Vec<InlinePiece> = Vec::new();
    if !any_image(inlines) {
        let line: StyledLine = styled_line(inlines);
        out.push(InlinePiece::Text { line, part: None });
        assert(piece_views(out@) =~= line_pieces(inlines@, base@));
        return out;
    }
    let mut pending: Vec<InlineRun> = Vec::new();
    let mut parts: usize = 0;
    let n: usize = inlines.len();
    let mut i: usize = 0;
    assert(piece_views(out@) =~= Seq::empty());
    while i < n
        invariant
            i <= n,
            n == inlines@.len(),
            parts <= i,
            pending@.len() > 0 ==> parts < i,
            (Pieces { out: piece_views(out@), pending: pending@, parts: parts as int }) == pieces_up_to(
                inlines@,
                base@,
                i as int,
            ),
        decreases n - i,
    {
        match &inlines[i] {
            InlineRun::Image { alt, dest, .. } => {
                parts = finish_text(&mut out, &mut pending, parts);
                let ghost before = out@;
                let piece: InlinePiece = if is_web_address(dest.as_str()) {
                    let label: String = if alt.as_str().is_empty() { "[image]".to_owned() } else { alt.clone() };
                    InlinePiece::Label { label }
                } else {
                    InlinePiece::Picture { path: path_join(base, dest.as_str()) }
                };
                assert(piece@ == image_piece(alt@, dest@, base@));
                out.push(piece);
                assert(piece_views(out@) =~= piece_views(before).push(image_piece(alt@, dest@, base@)));
            },
            other => {
                pending.push(other.clone());
            },
        }
        i = i + 1;
    }
    finish_text(&mut out, &mut pending, parts);
    out
}

/// The lines of inline text by their values.
pub open spec fn lines_shown(inlines: Seq<InlineRun>, base: Seq<char>) -> Seq<Seq<PieceView>> {
    editor_logic::hard_lines(inlines).map_values(|line: Seq<InlineRun>| line_pieces(line, base))
}

/// Whether `lines` is what inline text shows.
pub open spec fn shows_lines(inlines: Seq<InlineRun>, base: Seq<char>, lines: Seq<Vec<InlinePiece>>) -> bool {
    &&& lines.len() == lines_shown(inlines, base).len()
    &&& forall|i: int| 0 <= i < lines.len() ==> piece_views((#[trigger] lines[i])@) == lines_shown(inlines, base)[i]
}

/// The lines of inline text: hard breaks divide them.
pub fn inline_lines(inlines: &[InlineRun], base: &str) -> (lines: Vec<Vec<InlinePiece>>)
    ensures
        shows_lines(inlines@, base@, lines@),
{
    let parts: Vec<Vec<InlineRun>> = split_at_hard_breaks(inlines);
    let mut lines: Vec<Vec<InlinePiece>> = Vec::new();
    let mut i: usize = 0;
    while i < parts.len()
        invariant
            i <= parts@.len(),
            parts@.len() == editor_logic::hard_lines(inlines@).len(),
            forall|k: int| 0 <= k < parts@.len() ==> (#[trigger] parts@[k])@ == editor_logic::hard_lines(inlines@)[k],
            lines@.len() == i,
            forall|k: int| 0 <= k < i ==> piece_views((#[trigger] lines@[k])@) == lines_shown(inlines@, base@)[k],
        decreases parts@.len() - i,
    {
        let line: Vec<InlinePiece> = inline_line(parts[i].as_slice(), base);
        lines.push(line);
        i = i + 1;
    }
    lines
}

// ── Blocks ────────────────────────────────────────────────────────────────────

/// The space above a heading.
#[derive(Debug, Clone, Copy, PartialEq, Eq, Structural)]
pub enum HeadingMargin {
    Nothing,
    Narrow,
    Wide,
}

/// What stands before an item of a list.
#[derive(Debug)]
pub enum Marker {
    /// A box for a task.
    Task { done: bool },
    Number { label: String },
    Bullet,
}

/// A line of code with its runs; a line without syntax has none.
#[derive(Debug)]
pub struct CodeLine {
    pub text: String,
    pub runs: Vec<TextRun>,
}

/// An item of a list.
#[derive(Debug)]
pub struct ItemView {
    pub marker: Marker,
    pub blocks: Vec<BlockView>,
}

/// What a block shows.
#[derive(Debug)]
pub enum BlockView {
    /// `percent` is the size, of that of a heading; `ruled` says whether a line is drawn below.
    Heading { percent: u32, margin: HeadingMargin, ruled: bool, title: Vec<Vec<InlinePiece>> },
    Paragraph { lines: Vec<Vec<InlinePiece>> },
    Code { lang: Option<String>, code: Vec<CodeLine> },
    Quote { children: Vec<BlockView> },
    List { items: Vec<ItemView> },
    /// The lines of each cell.
    Table { head: Vec<Vec<Vec<InlinePiece>>>, rows: Vec<Vec<Vec<Vec<InlinePiece>>>> },
    Rule,
    Html { source: String },
}

/// The size of a heading, as a percentage of the size of headings.
pub open spec fn heading_size(level: u8) -> u32 {
    if level == 1 {
        160
    } else if level == 2 {
        135
    } else if level == 3 {
        115
    } else if level == 4 {
        100
    } else if level == 5 {
        90
    } else {
        85
    }
}

/// The space above a heading that is block `ix`: none above the first block.
pub open spec fn heading_margin(level: u8, ix: int) -> HeadingMargin {
    if ix == 0 {
        HeadingMargin::Nothing
    } else if level <= 2 {
        HeadingMargin::Wide
    } else {
        HeadingMargin::Narrow
    }
}

/// Whether `m` stands before item `i` of a list.
pub open spec fn marks(m: Marker, task: Option<bool>, ordered: bool, start: u64, i: int) -> bool {
    match task {
        Some(d) => m matches Marker::Task { done } && done == d,
        None => if ordered {
            m matches Marker::Number { label } && label@ == text::decimal(hover_segments::item_number(start, i) as nat).push(
                '.',
            )
        } else {
            m is Bullet
        },
    }
}

/// Whether `code` shows a block of code.
pub open spec fn shows_code(source: Seq<char>, highlights: Seq<Vec<HighlightSpan>>, code: Seq<CodeLine>) -> bool {
    let lines = text::lines(source);
    &&& code.len() == lines.len()
    &&& forall|i: int|
        0 <= i < code.len() ==> {
            let spans = hover_segments::line_spans(highlights, i);
            &&& (#[trigger] code[i]).text@ == lines[i]
            &&& code[i].runs@ == if spans.len() == 0 {
                Seq::empty()
            } else {
                hover_segments::code_runs(spans, text::byte_count(lines[i]))
            }
        }
}

/// Whether `views` shows the cells of a row of a table.
pub open spec fn shows_cells(cells: Seq<Vec<InlineRun>>, base: Seq<char>, views: Seq<Vec<Vec<InlinePiece>>>) -> bool {
    &&& views.len() == cells.len()
    &&& forall|i: int| 0 <= i < views.len() ==> shows_lines(cells[i]@, base, (#[trigger] views[i])@)
}

/// Whether `v` shows `block`, which is block `ix` of those around it.
pub open spec fn shows_block(block: Block, ix: int, base: Seq<char>, v: BlockView) -> bool
    decreases block, 0nat,
{
    match block.kind {
        BlockKind::Heading { level, inlines } => v matches BlockView::Heading { percent, margin, ruled, title } && {
            &&& percent == heading_size(level)
            &&& margin == heading_margin(level, ix)
            &&& ruled == (level <= 2)
            &&& shows_lines(inlines@, base, title@)
        },
        BlockKind::Paragraph { inlines } => v matches BlockView::Paragraph { lines } && shows_lines(inlines@, base, lines@),
        BlockKind::CodeBlock { lang, text, highlights } => v matches BlockView::Code { lang: l, code } && {
            &&& paths::text_view(l) == paths::text_view(lang)
            &&& shows_code(text@, highlights@, code@)
        },
        BlockKind::Blockquote { children } => v matches BlockView::Quote { children: vs } && shows_blocks(
            children@,
            base,
            vs@,
        ),
        BlockKind::List { ordered, start, items } => v matches BlockView::List { items: vs } && shows_items(
            ordered,
            start,
            items@,
            base,
            vs@,
        ),
        BlockKind::Table { head, rows } => v matches BlockView::Table { head: h, rows: rs } && {
            &&& shows_cells(head@, base, h@)
            &&& rs@.len() == rows@.len()
            &&& forall|r: int| 0 <= r < rs@.len() ==> shows_cells(rows@[r]@, base, (#[trigger] rs@[r])@)
        },
        BlockKind::Rule => v is Rule,
        BlockKind::HtmlBlock { text } => v matches BlockView::Html { source } && source@ == text@,
    }
}

/// Whether `vs` shows blocks in a row.
pub open spec fn shows_blocks(blocks: Seq<Block>, base: Seq<char>, vs: Seq<BlockView>) -> bool
    decreases blocks, 0nat,
{
    &&& vs.len() == blocks.len()
    &&& forall|i: int| 0 <= i < blocks.len() ==> shows_block(#[trigger] blocks[i], i, base, vs[i])
}

/// Whether `vs` shows the items of a list.
pub open spec fn shows_items(ordered: bool, start: u64, items: Seq<ListItem>, base: Seq<char>, vs: Seq<ItemView>) -> bool
    decreases items, 0nat,
{
    &&& vs.len() == items.len()
    &&& forall|i: int|
        0 <= i < items.len() ==> {
            &&& marks(vs[i].marker, (#[trigger] items[i]).task, ordered, start, i)
            &&& shows_blocks(items[i].blocks@, base, vs[i].blocks@)
        }
}

/// What stands before item `i` of a list.
fn marker_of(task: Option<bool>, ordered: bool, start: u64, i: usize) -> (m: Marker)
    ensures
        marks(m, task, ordered, start, i as int),
{
    match task {
        Some(done) => Marker::Task { done },
        None => {
            if !ordered {
                return Marker::Bullet;
            }
            let mut label: String = String::new();
            push_decimal(&mut label, start.wrapping_add(i as u64));
            push_char(&mut label, '.');
            assert(label@ =~= text::decimal(hover_segments::item_number(start, i as int) as nat).push('.'));
            Marker::Number { label }
        },
    }
}

/// The lines of a block of code.
fn code_view(source: &str, highlights: &Vec<Vec<HighlightSpan>>) -> (code: Vec<CodeLine>)
    ensures
        shows_code(source@, highlights@, code@),
{
    let lines: Vec<String> = lines_of(source);
    let mut code: Vec<CodeLine> = Vec::new();
    let mut i: usize = 0;
    while i < lines.len()
        invariant
            i <= lines@.len(),
            lines@.len() == text::lines(source@).len(),
            forall|k: int| 0 <= k < lines@.len() ==> (#[trigger] lines@[k])@ == text::lines(source@)[k],
            code@.len() == i,
            forall|k: int|
                0 <= k < i ==> {
                    let spans = hover_segments::line_spans(highlights@, k);
                    &&& (#[trigger] code@[k]).text@ == text::lines(source@)[k]
                    &&& code@[k].runs@ == if spans.len() == 0 {
                        Seq::empty()
                    } else {
                        hover_segments::code_runs(spans, text::byte_count(text::lines(source@)[k]))
                    }
                },
        decreases lines@.len() - i,
    {
        let runs: Vec<TextRun> = if i < highlights.len() && highlights[i].len() > 0 {
            code_line_runs(lines[i].as_str(), highlights[i].as_slice())
        } else {
            Vec::new()
        };
        code.push(CodeLine { text: lines[i].clone(), runs });
        i = i + 1;
    }
    code
}

/// The cells of a row of a table.
fn cells_view(cells: &Vec<Vec<InlineRun>>, base: &str) -> (views: Vec<Vec<Vec<InlinePiece>>>)
    ensures
        shows_cells(cells@, base@, views@),
{
    let mut views: Vec<Vec<Vec<InlinePiece>>> = Vec::new();
    let mut i: usize = 0;
    while i < cells.len()
        invariant
            i <= cells@.len(),
            views@.len() == i,
            forall|k: int| 0 <= k < i ==> shows_lines(cells@[k]@, base@, (#[trigger] views@[k])@),
        decreases cells@.len() - i,
    {
        let lines: Vec<Vec<InlinePiece>> = inline_lines(cells[i].as_slice(), base);
        views.push(lines);
        i = i + 1;
    }
    views
}

/// The rows of a table.
fn rows_view(rows: &Vec<Vec<Vec<InlineRun>>>, base: &str) -> (views: Vec<Vec<Vec<Vec<InlinePiece>>>>)
    ensures
        views@.len() == rows@.len(),
        forall|r: int| 0 <= r < views@.len() ==> shows_cells(rows@[r]@, base@, (#[trigger] views@[r])@),
{
    let mut views: Vec<Vec<Vec<Vec<InlinePiece>>>> = Vec::new();
    let mut r: usize = 0;
    while r < rows.len()
        invariant
            r <= rows@.len(),
            views@.len() == r,
            forall|k: int| 0 <= k < r ==> shows_cells(rows@[k]@, base@, (#[trigger] views@[k])@),
        decreases rows@.len() - r,
    {
        let cells: Vec<Vec<Vec<InlinePiece>>> = cells_view(&rows[r], base);
        views.push(cells);
        r = r + 1;
    }
    views
}

/// What a block shows; `ix` says which of the blocks around it it is, and images come from files
/// below the folder `base`.
pub fn render_block(block: &Block, ix: usize, base: &str) -> (v: BlockView)
    ensures
        shows_block(*block, ix as int, base@, v),
    decreases block, 0nat,
{
    match &block.kind {
        BlockKind::Heading { level, inlines } => {
            let l: u8 = *level;
            BlockView::Heading {
                percent: if l == 1 {
                    160
                } else if l == 2 {
                    135
                } else if l == 3 {
                    115
                } else if l == 4 {
                    100
                } else if l == 5 {
                    90
                } else {
                    85
                },
                margin: if ix == 0 {
                    HeadingMargin::Nothing
                } else if l <= 2 {
                    HeadingMargin::Wide
                } else {
                    HeadingMargin::Narrow
                },
                ruled: l <= 2,
                title: inline_lines(inlines.as_slice(), base),
            }
        },
        BlockKind::Paragraph { inlines } => BlockView::Paragraph { lines: inline_lines(inlines.as_slice(), base) },
        BlockKind::CodeBlock { lang, text, highlights } => BlockView::Code {
            lang: copy_text(lang),
            code: code_view(text.as_str(), highlights),
        },
        BlockKind::Blockquote { children } => BlockView::Quote { children: render_blocks(children, base) },
        BlockKind::List { ordered, start, items } => BlockView::List { items: render_items(*ordered, *start, items, base) },
        BlockKind::Table { head, rows } => BlockView::Table { head: cells_view(head, base), rows: rows_view(rows, base) },
        BlockKind::Rule => BlockView::Rule,
        BlockKind::HtmlBlock { text } => BlockView::Html { source: text.clone() },
    }
}

/// What blocks in a row show.
fn render_blocks(blocks: &Vec<Block>, base: &str) -> (vs: Vec<BlockView>)
    ensures
        shows_blocks(blocks@, base@, vs@),
    decreases blocks@, 0nat,
{
    let mut vs: Vec<BlockView> = Vec::new();
    let mut i: usize = 0;
    while i < blocks.len()
        invariant
            i <= blocks@.len(),
            vs@.len() == i,
            forall|k: int| 0 <= k < i ==> shows_block(#[trigger] blocks@[k], k, base@, vs@[k]),
        decreases blocks@.len() - i,
    {
        let v: BlockView = render_block(&blocks[i], i, base);
        vs.push(v);
        i = i + 1;
    }
    vs
}

/// What the items of a list show.
fn render_items(ordered: bool, start: u64, items: &Vec<ListItem>, base: &str) -> (vs: Vec<ItemView>)
    ensures
        shows_items(ordered, start, items@, base@, vs@),
    decreases items@, 0nat,
{
    let mut vs: Vec<ItemView> = Vec::new();
    let mut i: usize = 0;
    while i < items.len()
        invariant
            i <= items@.len(),
            vs@.len() == i,
            forall|k: int|
                0 <= k < i ==> {
                    &&& marks(vs@[k].marker, (#[trigger] items@[k]).task, ordered, start, k)
                    &&& shows_blocks(items@[k].blocks@, base@, vs@[k].blocks@)
                },
        decreases items@.len() - i,
    {
        let marker: Marker = marker_of(items[i].task, ordered, start, i);
        let blocks: Vec<BlockView> = render_blocks(&items[i].blocks, base);
        vs.push(ItemView { marker, blocks });
        i = i + 1;
    }
    vs
}

// ── The preview ───────────────────────────────────────────────────────────────

/// The preview of a Markdown document.
#[derive(Debug)]
pub struct MarkdownPreviewView {
    pub md: MarkdownDoc,
    /// The folder that images are looked for in.
    pub base_dir: String,
}

/// Whether block `ix` is the last of those that start at `line` or before it; the first where
/// none does.
pub open spec fn block_at_line(blocks: Seq<Block>, line: int, ix: int) -> bool {
    &&& 0 <= ix
    &&& ix < blocks.len() || ix == 0
    &&& forall|i: int| 0 < i <= ix && i < blocks.len() ==> (#[trigger] blocks[i]).first_line <= line
    &&& ix > 0 ==> blocks[0].first_line <= line
    &&& blocks.len() > 0 && blocks[0].first_line <= line && ix + 1 < blocks.len() ==> blocks[ix + 1].first_line > line
}

impl MarkdownPreviewView {
    /// The preview of the document at `path`, which was parsed as `md`.
    pub fn new(md: MarkdownDoc, path: &str) -> (v: MarkdownPreviewView)
        ensures
            v.md == md,
            v.base_dir@ == match paths::parent_of(path@) {
                Some(p) => p,
                None => "."@,
            },
    {
        let base_dir: String = match path_parent(path) {
            Some(p) => p,
            None => ".".to_owned(),
        };
        MarkdownPreviewView { md, base_dir }
    }

    /// Shows the document as it was parsed anew.
    pub fn apply_md(&mut self, md: MarkdownDoc)
        ensures
            *final(self) == (MarkdownPreviewView { md, ..*old(self) }),
    {
        self.md = md;
    }

    /// The block to scroll to for a line of the source: the last one that starts there or before
    /// it.
    pub fn scroll_to_source_line(&self, line: usize) -> (ix: usize)
        ensures
            block_at_line(self.md.blocks@, line as int, ix as int),
    {
        let n: usize = self.md.blocks.len();
        let mut k: usize = 0;
        while k < n && self.md.blocks[k].first_line <= line
            invariant
                k <= n,
                n == self.md.blocks@.len(),
                forall|i: int| 0 <= i < k ==> (#[trigger] self.md.blocks@[i]).first_line <= line,
            ensures
                k <= n,
                forall|i: int| 0 <= i < k ==> (#[trigger] self.md.blocks@[i]).first_line <= line,
                k < n ==> self.md.blocks@[k as int].first_line > line,
            decreases n - k,
        {
            k = k + 1;
        }
        if k == 0 { 0 } else { k - 1 }
    }

    /// The line of the source that the first visible block comes from.
    pub fn source_line_at_top(&self, top_block: usize) -> (line: usize)
        ensures
            line == if top_block < self.md.blocks@.len() { self.md.blocks@[top_block as int].first_line } else { 0 },
    {
        if top_block < self.md.blocks.len() { self.md.blocks[top_block].first_line } else { 0 }
    }

    /// What the blocks of the document show.
    pub fn blocks(&self) -> (vs: Vec<BlockView>)
        ensures
            shows_blocks(self.md.blocks@, self.base_dir@, vs@),
    {
        render_blocks(&self.md.blocks, self.base_dir.as_str())
    }
}

/// Where the blocks of a document come in the order of their lines, scrolling the preview to the
/// first line of a block shows a block that starts at that line: the source and the preview stay
/// together.
pub proof fn scrolling_is_faithful(blocks: Seq<Block>, i: int, ix: int)
    requires
        0 <= i < blocks.len(),
        forall|j: int, k: int| 0 <= j < k < blocks.len() ==> (#[trigger] blocks[j]).first_line <= (#[trigger] blocks[k]).first_line,
        block_at_line(blocks, blocks[i].first_line as int, ix),
    ensures
        ix < blocks.len(),
        blocks[ix].first_line == blocks[i].first_line,
{
    if ix < i {
        assert(blocks[0].first_line <= blocks[i].first_line) by {
            if i > 0 {
                assert(blocks[0].first_line <= blocks[i].first_line);
            }
        }
        if ix + 1 < i {
            assert(blocks[ix + 1].first_line <= blocks[i].first_line);
        }
    }
}

} // verus!
