//! Flattening of Markdown into the segments of a hover popover.
use vstd::prelude::*;

use crate::buffer_view;
use crate::buffer_view::{plain_mono_run, token_color, ColorRole, FontRole, TextRun, Underline};
use crate::hover_popover;
use crate::hover_popover::{Segment, SegmentKind, SegmentLink, TextSize};
use crate::markdown::{copy_text, Block, BlockKind, HighlightSpan, InlineRun, ListItem, MarkdownDoc};
use crate::text;
use crate::text::{byte_len, is_blank, lines_of, push_char, push_decimal, starts_with};

verus! {

/// The gap above a block, in pixels.
pub const BLOCK_GAP: u32 = 8;

/// The gap above a block within a quotation.
pub const QUOTE_GAP: u32 = 4;

/// The gap above a heading.
pub const HEADING_GAP: u32 = 12;

/// The gap above an item of a list, and above a block within one.
pub const ITEM_GAP: u32 = 2;

/// How much further a nested list is indented.
pub const LIST_INDENT: u32 = 14;

/// A segment as contracts speak of it.
#[verifier::ext_equal]
pub struct SegmentView {
    pub kind: SegmentKind,
    pub text: Seq<char>,
    pub runs: Seq<TextRun>,
    pub links: Seq<LinkView>,
    pub text_size: TextSize,
    pub quote: bool,
    pub indent: u32,
    pub top_gap: u32,
    pub table_cell: Option<(usize, usize, usize)>,
}

/// A link as contracts speak of it.
pub struct LinkView {
    pub start: int,
    pub end: int,
    pub url: Seq<char>,
}

impl View for SegmentLink {
    type V = LinkView;

    open spec fn view(&self) -> LinkView {
        LinkView { start: self.start as int, end: self.end as int, url: self.url@ }
    }
}

impl View for Segment {
    type V = SegmentView;

    open spec fn view(&self) -> SegmentView {
        SegmentView {
            kind: self.kind,
            text: self.text@,
            runs: self.runs@,
            links: self.links@.map_values(|l: SegmentLink| l@),
            text_size: self.text_size,
            quote: self.quote,
            indent: self.indent,
            top_gap: self.top_gap,
            table_cell: self.table_cell,
        }
    }
}

/// The views of a list of segments.
pub open spec fn views(segments: Seq<Segment>) -> Seq<SegmentView> {
    segments.map_values(|s: Segment| s@)
}

/// Whether the runs of a segment tile its text. Those of a line of code are as long as it
/// together; those of any other text end where characters do, too.
pub open spec fn tiled(s: Segment) -> bool {
    &&& buffer_view::total_len(s.runs@) == text::byte_count(s.text@)
    &&& s.kind is Code || hover_popover::runs_tile(s.runs@, s.text@)
}

/// Whether the runs of every segment tile its text.
pub open spec fn all_tiled(segments: Seq<Segment>) -> bool {
    forall|k: int| 0 <= k < segments.len() ==> tiled(#[trigger] segments[k])
}

/// What a block inherits from those around it.
#[derive(Clone, Copy)]
pub struct SegCx {
    pub quote: bool,
    pub indent: u32,
    /// The size of prose, as a percentage of the size of body text.
    pub percent: u32,
    pub bold: bool,
}

// ── runs of code and prose ────────────────────────────────────────────────────

/// A run of `len` bytes of proportional type.
pub open spec fn ui_run(len: int, bold: bool, italic: bool, color: ColorRole) -> TextRun {
    TextRun {
        len: len as usize,
        font: FontRole { mono: false, bold, italic },
        color,
        background: None,
        underline: None,
        strikethrough: None,
    }
}

/// A run of `len` bytes of proportional type.
fn make_ui_run(len: usize, bold: bool, italic: bool, color: ColorRole) -> (r: TextRun)
    ensures
        r == ui_run(len as int, bold, italic, color),
{
    TextRun {
        len,
        font: FontRole { mono: false, bold, italic },
        color,
        background: None,
        underline: None,
        strikethrough: None,
    }
}

/// The runs that spans give the bytes of a line of `n` bytes up to where the last of them ends,
/// and that place. Each span counts from where those before it end.
pub open spec fn code_prefix(spans: Seq<HighlightSpan>, n: int) -> (Seq<TextRun>, int)
    decreases spans.len(),
{
    if spans.len() == 0 {
        (Seq::empty(), 0)
    } else {
        let (runs, cursor) = code_prefix(spans.drop_last(), n);
        let s = spans.last();
        let end = buffer_view::span_end(s, n);
        let start = buffer_view::at_most(hover_popover::greater(buffer_view::span_start(s, n), cursor), end);
        if end <= cursor {
            (runs, cursor)
        } else {
            let filled = if start > cursor {
                runs.push(buffer_view::plain_mono(start - cursor, ColorRole::Text))
            } else {
                runs
            };
            (filled.push(buffer_view::plain_mono(end - start, ColorRole::Syntax(s.token))), end)
        }
    }
}

/// The runs of a line of code of `n` bytes.
pub open spec fn code_runs(spans: Seq<HighlightSpan>, n: int) -> Seq<TextRun> {
    let (runs, cursor) = code_prefix(spans, n);
    if cursor < n { runs.push(buffer_view::plain_mono(n - cursor, ColorRole::Text)) } else { runs }
}

/// The runs of a line of code. Spans may overlap and come in any order.
pub fn code_line_runs(line: &str, spans: &[HighlightSpan]) -> (runs: Vec<TextRun>)
    ensures
        runs@ == code_runs(spans@, text::byte_count(line@)),
        buffer_view::total_len(runs@) == text::byte_count(line@),
{
    let n: usize = byte_len(line);
    let mut runs: Vec<TextRun> = Vec::new();
    let mut cursor: usize = 0;
    let mut i: usize = 0;
    while i < spans.len()
        invariant
            i <= spans@.len(),
            n == text::byte_count(line@),
            cursor <= n,
            (runs@, cursor as int) == code_prefix(spans@.take(i as int), n as int),
        decreases spans@.len() - i,
    {
        let s: HighlightSpan = spans[i];
        proof {
            assert(spans@.take(i + 1).drop_last() =~= spans@.take(i as int));
            assert(spans@.take(i + 1).last() == s);
        }
        let from: usize = if (s.start_byte_col as usize) < n { s.start_byte_col as usize } else { n };
        let end: usize = if s.end_byte_col == u32::MAX {
            n
        } else if (s.end_byte_col as usize) < n {
            s.end_byte_col as usize
        } else {
            n
        };
        if end > cursor {
            let late: usize = if from < cursor { cursor } else { from };
            let start: usize = if late < end { late } else { end };
            if start > cursor {
                runs.push(plain_mono_run(start - cursor, ColorRole::Text));
            }
            runs.push(plain_mono_run(end - start, token_color(s.token)));
            cursor = end;
        }
        i = i + 1;
    }
    assert(spans@.take(i as int) =~= spans@);
    if cursor < n {
        runs.push(plain_mono_run(n - cursor, ColorRole::Text));
    }
    proof {
        code_runs_tile(spans@, n as int);
    }
    runs
}

proof fn code_prefix_tiles(spans: Seq<HighlightSpan>, n: int)
    requires
        0 <= n <= usize::MAX,
    ensures
        buffer_view::total_len(code_prefix(spans, n).0) == code_prefix(spans, n).1,
        0 <= code_prefix(spans, n).1 <= n,
    decreases spans.len(),
{
    if spans.len() > 0 {
        code_prefix_tiles(spans.drop_last(), n);
        let (runs, cursor) = code_prefix(spans.drop_last(), n);
        let s = spans.last();
        let end = buffer_view::span_end(s, n);
        let start = buffer_view::at_most(hover_popover::greater(buffer_view::span_start(s, n), cursor), end);
        if end > cursor {
            let gap = buffer_view::plain_mono(start - cursor, ColorRole::Text);
            let own = buffer_view::plain_mono(end - start, ColorRole::Syntax(s.token));
            total_len_of_push(runs, gap);
            total_len_of_push(runs, own);
            total_len_of_push(runs.push(gap), own);
        }
    }
}

/// A further run adds its length.
pub proof fn total_len_of_push(runs: Seq<TextRun>, run: TextRun)
    ensures
        buffer_view::total_len(runs.push(run)) == buffer_view::total_len(runs) + run.len,
{
    assert(runs.push(run).drop_last() =~= runs);
}

/// The runs of a line of code tile it, whatever spans it has: together they are as long as the
/// line.
pub proof fn code_runs_tile(spans: Seq<HighlightSpan>, n: int)
    requires
        0 <= n <= usize::MAX,
    ensures
        buffer_view::total_len(code_runs(spans, n)) == n,
{
    code_prefix_tiles(spans, n);
    let (runs, cursor) = code_prefix(spans, n);
    total_len_of_push(runs, buffer_view::plain_mono(n - cursor, ColorRole::Text));
}

// ── inline text ───────────────────────────────────────────────────────────────

/// Whether `url` is an address on the web.
pub open spec fn web_address(url: Seq<char>) -> bool {
    "http://"@.is_prefix_of(url) || "https://"@.is_prefix_of(url)
}

/// Whether `url` is an address on the web.
pub fn is_web_address(url: &str) -> (b: bool)
    ensures
        b == web_address(url@),
{
    starts_with(url, "http://") || starts_with(url, "https://")
}

/// A line of prose in the making, and the segments made before it.
#[verifier::ext_equal]
pub struct Prose {
    pub text: Seq<char>,
    pub runs: Seq<TextRun>,
    pub links: Seq<LinkView>,
    pub out: Seq<SegmentView>,
}

/// A segment of the given kind and text, with nothing else to it.
pub open spec fn bare_segment(kind: SegmentKind, text: Seq<char>, runs: Seq<TextRun>, cx: SegCx) -> SegmentView {
    SegmentView {
        kind,
        text,
        runs,
        links: Seq::empty(),
        text_size: if kind is Code { TextSize::Code } else { TextSize::Body { percent: 100 } },
        quote: cx.quote,
        indent: cx.indent,
        top_gap: 0,
        table_cell: None,
    }
}

/// Prose after its line has been closed: a line that is not blank becomes a segment.
pub open spec fn flushed(p: Prose, cx: SegCx) -> Prose {
    let segment = SegmentView {
        links: p.links,
        text_size: TextSize::Body { percent: cx.percent },
        ..bare_segment(SegmentKind::Text, p.text, p.runs, cx)
    };
    Prose {
        text: Seq::empty(),
        runs: Seq::empty(),
        links: Seq::empty(),
        out: if text::blank(p.text) { p.out } else { p.out.push(segment) },
    }
}

/// The run of a stretch of text of `len` bytes.
pub open spec fn text_run(len: int, style: crate::markdown::InlineStyle, is_link: bool, cx: SegCx) -> TextRun {
    TextRun {
        len: len as usize,
        font: if style.code {
            buffer_view::mono()
        } else {
            FontRole { mono: false, bold: cx.bold || style.bold, italic: style.italic }
        },
        color: if is_link { ColorRole::Accent } else { ColorRole::Text },
        background: if style.code { Some(ColorRole::BgSunken) } else { None },
        underline: if is_link { Some(Underline { color: ColorRole::Accent, wavy: false }) } else { None },
        strikethrough: if style.strike { Some(ColorRole::TextMuted) } else { None },
    }
}

/// Whether a link leads to the web.
pub open spec fn leads_to_web(link: Option<String>) -> bool {
    match link {
        Some(url) => web_address(url@),
        None => false,
    }
}

/// Prose after one more piece of inline text. Breaks close the line, soft ones too; so does a
/// remote image, which becomes a segment of its own. A local image is shown by its description.
pub open spec fn with_inline(p: Prose, inline: InlineRun, cx: SegCx) -> Prose {
    match inline {
        InlineRun::Text { text, style, link } => {
            if text@.len() == 0 {
                p
            } else {
                let joined = p.text + text@;
                let is_link = leads_to_web(link);
                Prose {
                    text: joined,
                    runs: p.runs.push(text_run(text::byte_count(text@), style, is_link, cx)),
                    links: if is_link {
                        p.links.push(
                            LinkView { start: text::byte_count(p.text), end: text::byte_count(joined), url: link->0@ },
                        )
                    } else {
                        p.links
                    },
                    out: p.out,
                }
            }
        },
        InlineRun::SoftBreak => flushed(p, cx),
        InlineRun::HardBreak => flushed(p, cx),
        InlineRun::Image { alt, dest, link } => {
            if web_address(dest@) {
                let closed = flushed(p, cx);
                Prose {
                    out: closed.out.push(
                        bare_segment(SegmentKind::Image { url: dest, link }, Seq::empty(), Seq::empty(), cx),
                    ),
                    ..closed
                }
            } else if alt@.len() == 0 {
                p
            } else {
                Prose {
                    text: p.text + alt@,
                    runs: p.runs.push(ui_run(text::byte_count(alt@), false, true, ColorRole::TextMuted)),
                    ..p
                }
            }
        },
    }
}

/// Prose that starts with `prefix`.
pub open spec fn prose_start(prefix: Seq<char>) -> Prose {
    Prose {
        text: prefix,
        runs: if prefix.len() == 0 {
            Seq::empty()
        } else {
            seq![ui_run(text::byte_count(prefix), false, false, ColorRole::TextMuted)]
        },
        links: Seq::empty(),
        out: Seq::empty(),
    }
}

/// Prose of the first `n` pieces of inline text.
pub open spec fn prose_of(prefix: Seq<char>, inlines: Seq<InlineRun>, cx: SegCx, n: int) -> Prose
    decreases n,
{
    if n <= 0 {
        prose_start(prefix)
    } else {
        with_inline(prose_of(prefix, inlines, cx, n - 1), inlines[n - 1], cx)
    }
}

/// The segments of inline text that starts with `prefix`.
pub open spec fn inline_segments(prefix: Seq<char>, inlines: Seq<InlineRun>, cx: SegCx) -> Seq<SegmentView> {
    flushed(prose_of(prefix, inlines, cx, inlines.len() as int), cx).out
}

/// Closes a line of prose: pushes it as a segment unless it is blank.
fn flush(
    text: String,
    runs: Vec<TextRun>,
    links: Vec<SegmentLink>,
    cx: SegCx,
    segments: &mut Vec<Segment>,
)
    requires
        hover_popover::runs_tile(runs@, text@),
    ensures
        all_tiled(old(segments)@) ==> all_tiled(final(segments)@),
        views(final(segments)@) == views(old(segments)@) + flushed(
            (Prose { text: text@, runs: runs@, links: links@.map_values(|l: SegmentLink| l@), out: Seq::empty() }),
            cx,
        ).out,
{
    if !is_blank(text.as_str()) {
        segments.push(
            Segment {
                kind: SegmentKind::Text,
                text,
                runs,
                links,
                text_size: TextSize::Body { percent: cx.percent },
                quote: cx.quote,
                indent: cx.indent,
                top_gap: 0,
                table_cell: None,
            },
        );
    }
    assert(views(segments@) =~= views(old(segments)@) + flushed(
        (Prose { text: text@, runs: runs@, links: links@.map_values(|l: SegmentLink| l@), out: Seq::empty() }),
        cx,
    ).out);
}

/// Pushes the segments of inline text that starts with `prefix`.
fn push_inline_segments(inlines: &[InlineRun], prefix: &str, cx: SegCx, segments: &mut Vec<Segment>)
    ensures
        views(final(segments)@) == views(old(segments)@) + inline_segments(prefix@, inlines@, cx),
        all_tiled(old(segments)@) ==> all_tiled(final(segments)@),
{
    let ghost before = views(segments@);
    let ghost tiled_before = all_tiled(segments@);
    let mut text: String = prefix.to_owned();
    let mut runs: Vec<TextRun> = Vec::new();
    let mut links: Vec<SegmentLink> = Vec::new();
    if !prefix.is_empty() {
        runs.push(make_ui_run(byte_len(prefix), false, false, ColorRole::TextMuted));
    }
    proof {
        hover_popover::one_run_tiles(ui_run(text::byte_count(prefix@), false, false, ColorRole::TextMuted), prefix@);
        if prefix@.len() == 0 {
            assert(prefix@ =~= Seq::<char>::empty());
        }
    }
    let mut i: usize = 0;
    assert(links@.map_values(|l: SegmentLink| l@) =~= Seq::empty());
    assert(runs@ =~= prose_start(prefix@).runs);
    assert(views(segments@) =~= before + Seq::empty());
    while i < inlines.len()
        invariant
            i <= inlines@.len(),
            text@ == prose_of(prefix@, inlines@, cx, i as int).text,
            runs@ == prose_of(prefix@, inlines@, cx, i as int).runs,
            links@.map_values(|l: SegmentLink| l@) == prose_of(prefix@, inlines@, cx, i as int).links,
            views(segments@) == before + prose_of(prefix@, inlines@, cx, i as int).out,
            hover_popover::runs_tile(runs@, text@),
            tiled_before ==> all_tiled(segments@),
        decreases inlines@.len() - i,
    {
        let ghost p = prose_of(prefix@, inlines@, cx, i as int);
        let ghost q = with_inline(p, inlines@[i as int], cx);
        proof {
            hover_popover::one_run_tiles(ui_run(0, false, false, ColorRole::Text), Seq::empty());
            assert(vstd::utf8::encode_utf8(Seq::<char>::empty()) =~= Seq::<u8>::empty());
        }
        match &inlines[i] {
            InlineRun::Text { text: more, style, link } => {
                if !more.as_str().is_empty() {
                    let start: usize = byte_len(text.as_str());
                    text.append(more.as_str());
                    let end: usize = byte_len(text.as_str());
                    let mut is_link: bool = false;
                    if let Some(url) = link {
                        if is_web_address(url.as_str()) {
                            is_link = true;
                            let ghost shown = links@.map_values(|l: SegmentLink| l@);
                            links.push(SegmentLink { start, end, url: url.clone() });
                            assert(links@.map_values(|l: SegmentLink| l@) =~= shown.push(
                                LinkView { start: start as int, end: end as int, url: url@ },
                            ));
                        }
                    }
                    runs.push(
                        TextRun {
                            len: byte_len(more.as_str()),
                            font: if style.code {
                                FontRole { mono: true, bold: false, italic: false }
                            } else {
                                FontRole { mono: false, bold: cx.bold || style.bold, italic: style.italic }
                            },
                            color: if is_link { ColorRole::Accent } else { ColorRole::Text },
                            background: if style.code { Some(ColorRole::BgSunken) } else { None },
                            underline: if is_link {
                                Some(Underline { color: ColorRole::Accent, wavy: false })
                            } else {
                                None
                            },
                            strikethrough: if style.strike { Some(ColorRole::TextMuted) } else { None },
                        },
                    );
                    proof {
                        hover_popover::one_run_tiles(runs@.last(), more@);
                        hover_popover::tiling_joins(p.runs, p.text, seq![runs@.last()], more@);
                        assert(runs@ =~= p.runs + seq![runs@.last()]);
                    }
                }
            },
            InlineRun::SoftBreak => {
                flush(text, runs, links, cx, segments);
                text = String::new();
                runs = Vec::new();
                links = Vec::new();
                assert(links@.map_values(|l: SegmentLink| l@) =~= Seq::empty());
                assert(views(segments@) =~= before + q.out);
            },
            InlineRun::HardBreak => {
                flush(text, runs, links, cx, segments);
                text = String::new();
                runs = Vec::new();
                links = Vec::new();
                assert(links@.map_values(|l: SegmentLink| l@) =~= Seq::empty());
                assert(views(segments@) =~= before + q.out);
            },
            InlineRun::Image { alt, dest, link } => {
                if is_web_address(dest.as_str()) {
                    flush(text, runs, links, cx, segments);
                    text = String::new();
                    runs = Vec::new();
                    links = Vec::new();
                    assert(views(segments@) =~= before + flushed(p, cx).out);
                    push_bare(SegmentKind::Image { url: dest.clone(), link: copy_text(link) }, String::new(), Vec::new(), cx, segments);
                    assert(links@.map_values(|l: SegmentLink| l@) =~= Seq::empty());
                    assert(views(segments@) =~= before + q.out);
                } else if !alt.as_str().is_empty() {
                    text.append(alt.as_str());
                    runs.push(make_ui_run(byte_len(alt.as_str()), false, true, ColorRole::TextMuted));
                    proof {
                        hover_popover::one_run_tiles(runs@.last(), alt@);
                        hover_popover::tiling_joins(p.runs, p.text, seq![runs@.last()], alt@);
                        assert(runs@ =~= p.runs + seq![runs@.last()]);
                    }
                }
            },
        }
        i = i + 1;
    }
    let ghost p = prose_of(prefix@, inlines@, cx, inlines@.len() as int);
    flush(text, runs, links, cx, segments);
    assert(views(segments@) =~= before + flushed(p, cx).out);
}

/// Pushes a segment of the given kind and text.
fn push_bare(kind: SegmentKind, text: String, runs: Vec<TextRun>, cx: SegCx, segments: &mut Vec<Segment>)
    requires
        buffer_view::total_len(runs@) == text::byte_count(text@),
        kind is Code || hover_popover::runs_tile(runs@, text@),
    ensures
        views(final(segments)@) == views(old(segments)@).push(bare_segment(kind, text@, runs@, cx)),
        all_tiled(old(segments)@) ==> all_tiled(final(segments)@),
{
    let text_size: TextSize = match kind {
        SegmentKind::Code => TextSize::Code,
        _ => TextSize::Body { percent: 100 },
    };
    let seg: Segment = Segment {
        kind,
        text,
        runs,
        links: Vec::new(),
        text_size,
        quote: cx.quote,
        indent: cx.indent,
        top_gap: 0,
        table_cell: None,
    };
    assert(seg@.links =~= Seq::empty());
    assert(seg@ =~= bare_segment(kind, text@, runs@, cx));
    segments.push(seg);
    assert(views(segments@) =~= views(old(segments)@).push(bare_segment(kind, text@, runs@, cx)));
}

// ── table cells ───────────────────────────────────────────────────────────────

/// A link that stands `base` bytes further on.
pub open spec fn shifted(l: LinkView, base: int) -> LinkView {
    LinkView { start: base + l.start, end: base + l.end, url: l.url }
}

/// Two segments of text as one, with a space between them.
pub open spec fn joined_segment(a: SegmentView, b: SegmentView) -> SegmentView {
    let text = if a.text.len() > 0 { a.text.push(' ') } else { a.text };
    let runs = if a.text.len() > 0 { a.runs.push(ui_run(1, false, false, ColorRole::Text)) } else { a.runs };
    SegmentView {
        text: text + b.text,
        runs: runs + b.runs,
        links: a.links + b.links.map_values(|l: LinkView| shifted(l, text::byte_count(text))),
        ..a
    }
}

/// The segments of text among the first `n`, as one.
pub open spec fn joined_segments(segments: Seq<SegmentView>, n: int) -> Option<SegmentView>
    decreases n,
{
    if n <= 0 {
        None
    } else {
        let before = joined_segments(segments, n - 1);
        let s = segments[n - 1];
        if !(s.kind is Text || s.kind is Code) {
            before
        } else {
            match before {
                Some(a) => Some(joined_segment(a, s)),
                None => Some(s),
            }
        }
    }
}

/// The segment of a table cell: its inline text on one line.
pub open spec fn cell_segment(inlines: Seq<InlineRun>, cx: SegCx, cell: (usize, usize, usize)) -> SegmentView {
    let lines = inline_segments(Seq::empty(), inlines, cx);
    let text = match joined_segments(lines, lines.len() as int) {
        Some(s) => s,
        None => bare_segment(SegmentKind::Text, Seq::empty(), Seq::empty(), SegCx { indent: 0, ..cx }),
    };
    SegmentView {
        text_size: TextSize::Body { percent: cx.percent },
        quote: cx.quote,
        table_cell: Some(cell),
        ..text
    }
}

/// Whether the links of a segment lie within its text.
pub open spec fn links_within(s: SegmentView) -> bool {
    forall|i: int| 0 <= i < s.links.len() ==> 0 <= (#[trigger] s.links[i]).start <= s.links[i].end <= text::byte_count(s.text)
}

proof fn prose_links_within(prefix: Seq<char>, inlines: Seq<InlineRun>, cx: SegCx, n: int)
    requires
        0 <= n <= inlines.len(),
    ensures
        ({
            let p = prose_of(prefix, inlines, cx, n);
            &&& forall|i: int| 0 <= i < p.links.len() ==> 0 <= (#[trigger] p.links[i]).start <= p.links[i].end <= text::byte_count(p.text)
            &&& forall|k: int| 0 <= k < p.out.len() ==> links_within(#[trigger] p.out[k])
        }),
    decreases n,
{
    if n > 0 {
        prose_links_within(prefix, inlines, cx, n - 1);
        let p = prose_of(prefix, inlines, cx, n - 1);
        match inlines[n - 1] {
            InlineRun::Text { text, style, link } => {
                text::encoding_of_joined(p.text, text@);
            },
            InlineRun::Image { alt, dest, link } => {
                text::encoding_of_joined(p.text, alt@);
            },
            _ => {},
        }
    }
}

/// In every segment of inline text the links lie within the text.
pub proof fn inline_links_within(prefix: Seq<char>, inlines: Seq<InlineRun>, cx: SegCx)
    ensures
        forall|k: int|
            0 <= k < inline_segments(prefix, inlines, cx).len() ==> links_within(
                #[trigger] inline_segments(prefix, inlines, cx)[k],
            ),
{
    prose_links_within(prefix, inlines, cx, inlines.len() as int);
}

proof fn prose_kinds(prefix: Seq<char>, inlines: Seq<InlineRun>, cx: SegCx, n: int)
    requires
        0 <= n <= inlines.len(),
    ensures
        forall|k: int|
            0 <= k < prose_of(prefix, inlines, cx, n).out.len() ==> !((#[trigger] prose_of(prefix, inlines, cx, n).out[k]).kind is Code),
    decreases n,
{
    if n > 0 {
        prose_kinds(prefix, inlines, cx, n - 1);
    }
}

/// No segment of inline text is a line of code.
pub proof fn inline_kinds(prefix: Seq<char>, inlines: Seq<InlineRun>, cx: SegCx)
    ensures
        forall|k: int|
            0 <= k < inline_segments(prefix, inlines, cx).len() ==> !((#[trigger] inline_segments(
                prefix,
                inlines,
                cx,
            )[k]).kind is Code),
{
    prose_kinds(prefix, inlines, cx, inlines.len() as int);
}

/// Appends the text of `more` to `first`, with a space between them.
fn join_segment(first: &mut Segment, more: Segment)
    requires
        links_within(more@),
        hover_popover::runs_tile(old(first).runs@, old(first).text@),
        hover_popover::runs_tile(more.runs@, more.text@),
    ensures
        final(first)@ == joined_segment(old(first)@, more@),
        hover_popover::runs_tile(final(first).runs@, final(first).text@),
{
    let ghost a = first@;
    if !first.text.as_str().is_empty() {
        push_char(&mut first.text, ' ');
        first.runs.push(make_ui_run(1, false, false, ColorRole::Text));
    }
    let ghost text = first.text@;
    proof {
        let space = ui_run(1, false, false, ColorRole::Text);
        text::bytes_of_char(' ');
        hover_popover::one_run_tiles(space, seq![' ']);
        hover_popover::tiling_joins(a.runs, a.text, seq![space], seq![' ']);
        if a.text.len() > 0 {
            assert(first.runs@ =~= a.runs + seq![space]);
            assert(text =~= a.text + seq![' ']);
        }
        hover_popover::tiling_joins(first.runs@, text, more.runs@, more.text@);
    }
    let base: usize = byte_len(first.text.as_str());
    first.text.append(more.text.as_str());
    let total: usize = byte_len(first.text.as_str());
    proof {
        text::encoding_of_joined(text, more.text@);
    }
    let mut i: usize = 0;
    while i < more.runs.len()
        invariant
            i <= more.runs@.len(),
            first.kind == a.kind,
            first.text@ == text + more.text@,
            first.runs@ == (if a.text.len() > 0 { a.runs.push(ui_run(1, false, false, ColorRole::Text)) } else { a.runs }) + more.runs@.take(i as int),
            first@.links == a.links,
            first@ == (SegmentView { text: first.text@, runs: first.runs@, ..a }),
        decreases more.runs@.len() - i,
    {
        first.runs.push(more.runs[i]);
        assert(more.runs@.take(i + 1) =~= more.runs@.take(i as int).push(more.runs@[i as int]));
        i = i + 1;
    }
    assert(more.runs@.take(i as int) =~= more.runs@);
    let ghost full = first@;
    let mut k: usize = 0;
    while k < more.links.len()
        invariant
            k <= more.links@.len(),
            links_within(more@),
            total == base + text::byte_count(more.text@),
            base == text::byte_count(text),
            first@ == (SegmentView { links: a.links + more@.links.take(k as int).map_values(|l: LinkView| shifted(l, base as int)), ..full }),
            first.text@ == full.text,
            full.links == a.links,
        decreases more.links@.len() - k,
    {
        let l: &SegmentLink = &more.links[k];
        assert(more@.links[k as int] == l@);
        let ghost shown = first.links@.map_values(|l: SegmentLink| l@);
        let moved: SegmentLink = SegmentLink { start: base + l.start, end: base + l.end, url: l.url.clone() };
        first.links.push(moved);
        proof {
            assert(first.links@.map_values(|l: SegmentLink| l@) =~= shown.push(moved@));
            assert(more@.links.take(k + 1) =~= more@.links.take(k as int).push(l@));
            assert(first@.links =~= a.links + more@.links.take(k + 1).map_values(|l: LinkView| shifted(l, base as int)));
            assert(first@ =~= (SegmentView { links: a.links + more@.links.take(k + 1).map_values(|l: LinkView| shifted(l, base as int)), ..full }));
        }
        k = k + 1;
    }
    assert(more@.links.take(k as int) =~= more@.links);
    assert(first@ =~= joined_segment(a, more@));
    assert(first.runs@ == first@.runs);
}

/// The segment of a table cell.
fn build_inline_segment(inlines: &[InlineRun], cx: SegCx, cell: (usize, usize, usize)) -> (r: Segment)
    ensures
        r@ == cell_segment(inlines@, cx, cell),
        tiled(r),
{
    let mut lines: Vec<Segment> = Vec::new();
    push_inline_segments(inlines, "", cx, &mut lines);
    proof {
        reveal_strlit("");
        assert(""@ =~= Seq::<char>::empty());
        assert(views(lines@) =~= inline_segments(Seq::empty(), inlines@, cx));
        inline_links_within(Seq::empty(), inlines@, cx);
    }
    let ghost all = views(lines@);
    assert(all.skip(0) =~= all);
    proof {
        inline_kinds(Seq::empty(), inlines@, cx);
    }
    let mut first: Option<Segment> = None;
    let ghost mut done: int = 0;
    while lines.len() > 0
        invariant
            0 <= done <= all.len(),
            views(lines@) == all.skip(done),
            lines@.len() == all.len() - done,
            all == inline_segments(Seq::empty(), inlines@, cx),
            forall|k: int| 0 <= k < all.len() ==> links_within(#[trigger] all[k]),
            forall|k: int| 0 <= k < all.len() ==> !((#[trigger] all[k]).kind is Code),
            all_tiled(lines@),
            match first {
                Some(s) => joined_segments(all, done) == Some(s@) && hover_popover::runs_tile(s.runs@, s.text@),
                None => joined_segments(all, done) is None,
            },
        ensures
            done == all.len(),
        decreases lines@.len(),
    {
        let ghost rest = lines@;
        let seg: Segment = lines.remove(0);
        proof {
            assert(views(rest)[0] == seg@);
            assert(seg@ == all[done]);
            assert forall|i: int| 0 <= i < lines@.len() implies views(lines@)[i] == all.skip(done + 1)[i] by {
                assert(views(rest)[i + 1] == all.skip(done)[i + 1]);
            }
            assert(views(lines@) =~= all.skip(done + 1));
            assert(tiled(rest[0]));
            assert forall|k: int| 0 <= k < lines@.len() implies tiled(#[trigger] lines@[k]) by {
                assert(tiled(rest[k + 1]));
            }
        }
        if seg.kind.is_text() {
            first = match first {
                Some(s) => {
                    let mut s: Segment = s;
                    join_segment(&mut s, seg);
                    Some(s)
                },
                None => Some(seg),
            };
        }
        proof {
            done = done + 1;
        }
    }
    let mut r: Segment = match first {
        Some(s) => s,
        None => {
            let empty: Segment = Segment {
                kind: SegmentKind::Text,
                text: String::new(),
                runs: Vec::new(),
                links: Vec::new(),
                text_size: TextSize::Body { percent: 100 },
                quote: cx.quote,
                indent: 0,
                top_gap: 0,
                table_cell: None,
            };
            assert(empty@ =~= bare_segment(SegmentKind::Text, Seq::empty(), Seq::empty(), SegCx { indent: 0, ..cx }));
            proof {
                hover_popover::one_run_tiles(ui_run(0, false, false, ColorRole::Text), Seq::empty());
                assert(vstd::utf8::encode_utf8(Seq::<char>::empty()) =~= Seq::<u8>::empty());
            }
            empty
        },
    };
    r.text_size = TextSize::Body { percent: cx.percent };
    r.quote = cx.quote;
    r.table_cell = Some(cell);
    assert(r@ =~= cell_segment(inlines@, cx, cell));
    r
}

// ── blocks ────────────────────────────────────────────────────────────────────

/// Segments with at least the given gap above the first of them.
pub open spec fn with_gap(segments: Seq<SegmentView>, gap: u32) -> Seq<SegmentView> {
    if segments.len() > 0 && segments[0].top_gap < gap {
        segments.update(0, SegmentView { top_gap: gap, ..segments[0] })
    } else {
        segments
    }
}

/// The size of a heading, as a percentage of the size of body text.
pub open spec fn heading_percent(level: u8) -> u32 {
    if level == 1 { 145 } else if level == 2 { 125 } else if level == 3 { 110 } else { 100 }
}

/// The context one step further to the right.
pub open spec fn deeper(cx: SegCx) -> SegCx {
    SegCx { indent: if cx.indent <= u32::MAX - LIST_INDENT { (cx.indent + LIST_INDENT) as u32 } else { u32::MAX }, ..cx }
}

/// The spans of line `i` of a code block.
pub open spec fn line_spans(highlights: Seq<Vec<HighlightSpan>>, i: int) -> Seq<HighlightSpan> {
    if i < highlights.len() { highlights[i]@ } else { Seq::empty() }
}

/// The segments of a code block: one for each line, and an empty one for a block without lines.
pub open spec fn code_segments(text: Seq<char>, highlights: Seq<Vec<HighlightSpan>>, cx: SegCx) -> Seq<SegmentView> {
    let lines = text::lines(text);
    if lines.len() == 0 {
        seq![bare_segment(SegmentKind::Code, Seq::empty(), Seq::empty(), SegCx { indent: 0, ..cx })]
    } else {
        Seq::new(
            lines.len(),
            |i: int|
                bare_segment(
                    SegmentKind::Code,
                    lines[i],
                    code_runs(line_spans(highlights, i), text::byte_count(lines[i])),
                    cx,
                ),
        )
    }
}

/// The segments of a block of HTML: its lines, muted.
pub open spec fn html_segments(text: Seq<char>, cx: SegCx) -> Seq<SegmentView> {
    let lines = text::lines(text);
    Seq::new(
        lines.len(),
        |i: int|
            bare_segment(
                SegmentKind::Code,
                lines[i],
                seq![buffer_view::plain_mono(text::byte_count(lines[i]), ColorRole::TextMuted)],
                SegCx { indent: 0, ..cx },
            ),
    )
}

/// The number of cells in the longest of the first `n` rows.
pub open spec fn longest_row(rows: Seq<Vec<Vec<InlineRun>>>, n: int) -> int
    decreases n,
{
    if n <= 0 { 0 } else { hover_popover::greater(longest_row(rows, n - 1), rows[n - 1]@.len() as int) }
}

/// The number of columns of a table.
pub open spec fn column_count(head: Seq<Vec<InlineRun>>, rows: Seq<Vec<Vec<InlineRun>>>) -> int {
    hover_popover::greater(head.len() as int, longest_row(rows, rows.len() as int))
}

/// The inline text of column `col` of a row; none where the row is shorter.
pub open spec fn cell_at(cells: Seq<Vec<InlineRun>>, col: int) -> Seq<InlineRun> {
    if col < cells.len() { cells[col]@ } else { Seq::empty() }
}

/// The segments of row `row` of a table with `cols` columns.
pub open spec fn row_segments(cells: Seq<Vec<InlineRun>>, row: int, cols: int, cx: SegCx) -> Seq<SegmentView> {
    Seq::new(cols as nat, |col: int| cell_segment(cell_at(cells, col), cx, (row as usize, col as usize, cols as usize)))
}

/// The segments of the header of a table, in bold type, and of its first `n` rows.
pub open spec fn table_segments(head: Seq<Vec<InlineRun>>, rows: Seq<Vec<Vec<InlineRun>>>, cols: int, cx: SegCx, n: int) -> Seq<SegmentView>
    decreases n,
{
    if n <= 0 {
        row_segments(head, 0, cols, SegCx { bold: true, ..cx })
    } else {
        table_segments(head, rows, cols, cx, n - 1) + row_segments(rows[n - 1]@, n, cols, SegCx { bold: false, ..cx })
    }
}

/// The number of item `i` of a list that starts at `start`.
pub open spec fn item_number(start: u64, i: int) -> u64 {
    if start + i <= u64::MAX { (start + i) as u64 } else { (start + i - u64::MAX - 1) as u64 }
}

/// What stands before item `i` of a list.
pub open spec fn item_marker(task: Option<bool>, ordered: bool, start: u64, i: int) -> Seq<char> {
    match task {
        Some(true) => "☑ "@,
        Some(false) => "☐ "@,
        None => if ordered { text::decimal(item_number(start, i) as nat) + ". "@ } else { "• "@ },
    }
}

/// The segments of a block.
pub open spec fn block_segments(block: Block, cx: SegCx) -> Seq<SegmentView>
    decreases block, 0nat,
{
    match block.kind {
        BlockKind::Heading { level, inlines } => inline_segments(
            Seq::empty(),
            inlines@,
            SegCx { percent: heading_percent(level), bold: true, ..cx },
        ),
        BlockKind::Paragraph { inlines } => inline_segments(Seq::empty(), inlines@, cx),
        BlockKind::CodeBlock { lang, text, highlights } => code_segments(text@, highlights@, cx),
        BlockKind::Blockquote { children } => quote_segments(
            children@,
            SegCx { quote: true, ..cx },
            children@.len(),
        ),
        BlockKind::List { ordered, start, items } => list_segments(ordered, start, items@, cx, items@.len()),
        BlockKind::Table { head, rows } => {
            let cols = column_count(head@, rows@);
            if cols == 0 { Seq::empty() } else { table_segments(head@, rows@, cols, cx, rows@.len() as int) }
        },
        BlockKind::Rule => seq![
            bare_segment(SegmentKind::Rule, Seq::empty(), Seq::empty(), SegCx { quote: false, indent: 0, ..cx }),
        ],
        BlockKind::HtmlBlock { text } => html_segments(text@, cx),
    }
}

/// The segments of the first `n` blocks of a quotation.
pub open spec fn quote_segments(children: Seq<Block>, cx: SegCx, n: nat) -> Seq<SegmentView>
    decreases children, n,
{
    if n == 0 || n > children.len() {
        Seq::empty()
    } else {
        quote_segments(children, cx, (n - 1) as nat) + with_gap(
            block_segments(children[n - 1], cx),
            if n == 1 { 0 } else { QUOTE_GAP },
        )
    }
}

/// The segments of the first `n` blocks of a list item. A paragraph that comes first follows the
/// marker; everything else stands further to the right.
pub open spec fn item_segments(blocks: Seq<Block>, marker: Seq<char>, cx: SegCx, n: nat) -> Seq<SegmentView>
    decreases blocks, n,
{
    if n == 0 || n > blocks.len() {
        Seq::empty()
    } else {
        item_segments(blocks, marker, cx, (n - 1) as nat) + if n == 1 && blocks[0].kind is Paragraph {
            inline_segments(marker, blocks[0].kind->Paragraph_inlines@, cx)
        } else {
            with_gap(block_segments(blocks[n - 1], deeper(cx)), ITEM_GAP)
        }
    }
}

/// The segments of the first `n` items of a list. An item without blocks is its marker alone.
pub open spec fn list_segments(ordered: bool, start: u64, items: Seq<ListItem>, cx: SegCx, n: nat) -> Seq<SegmentView>
    decreases items, n,
{
    if n == 0 || n > items.len() {
        Seq::empty()
    } else {
        let item = items[n - 1];
        let marker = item_marker(item.task, ordered, start, n - 1);
        let own = if item.blocks@.len() == 0 {
            seq![
                bare_segment(
                    SegmentKind::Text,
                    marker,
                    seq![ui_run(text::byte_count(marker), false, false, ColorRole::TextMuted)],
                    cx,
                ),
            ]
        } else {
            item_segments(item.blocks@, marker, cx, item.blocks@.len())
        };
        list_segments(ordered, start, items, cx, (n - 1) as nat) + with_gap(own, if n == 1 { 0 } else { ITEM_GAP })
    }
}

/// The gap above block `i` of a document.
pub open spec fn doc_gap(blocks: Seq<Block>, i: int) -> u32 {
    if i == 0 { 0 } else if blocks[i].kind is Heading { HEADING_GAP } else { BLOCK_GAP }
}

/// The segments of the first `n` blocks of a document.
pub open spec fn doc_segments(blocks: Seq<Block>, cx: SegCx, n: int) -> Seq<SegmentView>
    decreases n,
{
    if n <= 0 {
        Seq::empty()
    } else {
        doc_segments(blocks, cx, n - 1) + with_gap(block_segments(blocks[n - 1], cx), doc_gap(blocks, n - 1))
    }
}

/// The context of a document as a whole.
pub open spec fn doc_cx() -> SegCx {
    SegCx { quote: false, indent: 0, percent: 100, bold: false }
}

/// Raises the gap above segment `at` to at least `gap`, where there is one.
fn raise_gap(segments: &mut Vec<Segment>, at: usize, gap: u32)
    requires
        at <= old(segments)@.len(),
    ensures
        views(final(segments)@) == views(old(segments)@).take(at as int) + with_gap(
            views(old(segments)@).skip(at as int),
            gap,
        ),
        all_tiled(old(segments)@) ==> all_tiled(final(segments)@),
{
    let ghost before = views(segments@);
    if at < segments.len() && segments[at].top_gap < gap {
        segments[at].top_gap = gap;
    }
    assert(views(segments@) =~= before.take(at as int) + with_gap(before.skip(at as int), gap));
}

/// Pushes the segments of a block, with at least the given gap above the first of them.
fn push_block_with_gap(block: &Block, cx: SegCx, gap: u32, segments: &mut Vec<Segment>)
    ensures
        views(final(segments)@) == views(old(segments)@) + with_gap(block_segments(*block, cx), gap),
        all_tiled(old(segments)@) ==> all_tiled(final(segments)@),
    decreases block, 1nat,
{
    let ghost before = views(segments@);
    let at: usize = segments.len();
    push_block(block, cx, segments);
    assert(views(segments@).skip(at as int) =~= block_segments(*block, cx));
    assert(views(segments@).take(at as int) =~= before);
    raise_gap(segments, at, gap);
}

/// Pushes the segments of a block.
fn push_block(block: &Block, cx: SegCx, segments: &mut Vec<Segment>)
    ensures
        views(final(segments)@) == views(old(segments)@) + block_segments(*block, cx),
        all_tiled(old(segments)@) ==> all_tiled(final(segments)@),
    decreases block, 0nat,
{
    let ghost before = views(segments@);
    proof {
        reveal_strlit("");
        assert(""@ =~= Seq::<char>::empty());
        hover_popover::one_run_tiles(ui_run(0, false, false, ColorRole::Text), Seq::empty());
        assert(vstd::utf8::encode_utf8(Seq::<char>::empty()) =~= Seq::<u8>::empty());
    }
    match &block.kind {
        BlockKind::Heading { level, inlines } => {
            let percent: u32 = if *level == 1 { 145 } else if *level == 2 { 125 } else if *level == 3 { 110 } else { 100 };
            push_inline_segments(inlines.as_slice(), "", SegCx { percent, bold: true, ..cx }, segments);
        },
        BlockKind::Paragraph { inlines } => {
            push_inline_segments(inlines.as_slice(), "", cx, segments);
        },
        BlockKind::CodeBlock { lang: _, text, highlights } => {
            push_code(text.as_str(), highlights, cx, segments);
        },
        BlockKind::Blockquote { children } => {
            push_quote(children, SegCx { quote: true, ..cx }, segments);
        },
        BlockKind::List { ordered, start, items } => {
            push_list(*ordered, *start, items, cx, segments);
        },
        BlockKind::Table { head, rows } => {
            push_table(head, rows, cx, segments);
        },
        BlockKind::Rule => {
            push_bare(SegmentKind::Rule, String::new(), Vec::new(), SegCx { quote: false, indent: 0, ..cx }, segments);
            assert(views(segments@) =~= before + block_segments(*block, cx));
        },
        BlockKind::HtmlBlock { text } => {
            push_html(text.as_str(), cx, segments);
        },
    }
}

/// Pushes the segments of a code block.
fn push_code(text: &str, highlights: &Vec<Vec<HighlightSpan>>, cx: SegCx, segments: &mut Vec<Segment>)
    ensures
        views(final(segments)@) == views(old(segments)@) + code_segments(text@, highlights@, cx),
        all_tiled(old(segments)@) ==> all_tiled(final(segments)@),
{
    let ghost before = views(segments@);
    let lines: Vec<String> = lines_of(text);
    if lines.len() == 0 {
        assert(vstd::utf8::encode_utf8(Seq::<char>::empty()) =~= Seq::<u8>::empty());
        push_bare(SegmentKind::Code, String::new(), Vec::new(), SegCx { indent: 0, ..cx }, segments);
        assert(views(segments@) =~= before + code_segments(text@, highlights@, cx));
        return;
    }
    let ghost all = code_segments(text@, highlights@, cx);
    let none: Vec<HighlightSpan> = Vec::new();
    let mut i: usize = 0;
    assert(all.take(0) =~= Seq::empty());
    assert(before + all.take(0) =~= before);
    while i < lines.len()
        invariant
            i <= lines@.len(),
            lines@.len() == text::lines(text@).len(),
            lines@.len() > 0,
            none@.len() == 0,
            all == code_segments(text@, highlights@, cx),
            forall|k: int| 0 <= k < lines@.len() ==> (#[trigger] lines@[k])@ == text::lines(text@)[k],
            views(segments@) == before + all.take(i as int),
            all_tiled(old(segments)@) ==> all_tiled(segments@),
        decreases lines@.len() - i,
    {
        let spans: &Vec<HighlightSpan> = if i < highlights.len() { &highlights[i] } else { &none };
        assert(spans@ =~= line_spans(highlights@, i as int));
        let runs: Vec<TextRun> = code_line_runs(lines[i].as_str(), spans.as_slice());
        push_bare(SegmentKind::Code, lines[i].clone(), runs, cx, segments);
        assert(all.take(i + 1) =~= all.take(i as int).push(all[i as int]));
        assert(views(segments@) =~= before + all.take(i + 1));
        i = i + 1;
    }
    assert(all.take(i as int) =~= all);
}

/// Pushes the segments of a block of HTML.
fn push_html(text: &str, cx: SegCx, segments: &mut Vec<Segment>)
    ensures
        views(final(segments)@) == views(old(segments)@) + html_segments(text@, cx),
        all_tiled(old(segments)@) ==> all_tiled(final(segments)@),
{
    let ghost before = views(segments@);
    let ghost all = html_segments(text@, cx);
    let lines: Vec<String> = lines_of(text);
    let mut i: usize = 0;
    assert(before + all.take(0) =~= before);
    while i < lines.len()
        invariant
            i <= lines@.len(),
            lines@.len() == text::lines(text@).len(),
            all == html_segments(text@, cx),
            forall|k: int| 0 <= k < lines@.len() ==> (#[trigger] lines@[k])@ == text::lines(text@)[k],
            views(segments@) == before + all.take(i as int),
            all_tiled(old(segments)@) ==> all_tiled(segments@),
        decreases lines@.len() - i,
    {
        let mut runs: Vec<TextRun> = Vec::new();
        runs.push(plain_mono_run(byte_len(lines[i].as_str()), ColorRole::TextMuted));
        assert(runs@ =~= seq![buffer_view::plain_mono(text::byte_count(lines@[i as int]@), ColorRole::TextMuted)]);
        proof {
            hover_popover::one_run_tiles(runs@[0], lines@[i as int]@);
        }
        push_bare(SegmentKind::Code, lines[i].clone(), runs, SegCx { indent: 0, ..cx }, segments);
        assert(all.take(i + 1) =~= all.take(i as int).push(all[i as int]));
        assert(views(segments@) =~= before + all.take(i + 1));
        i = i + 1;
    }
    assert(all.take(i as int) =~= all);
}

/// Pushes the segments of the blocks of a quotation.
fn push_quote(children: &Vec<Block>, cx: SegCx, segments: &mut Vec<Segment>)
    ensures
        views(final(segments)@) == views(old(segments)@) + quote_segments(children@, cx, children@.len()),
        all_tiled(old(segments)@) ==> all_tiled(final(segments)@),
    decreases children@, children@.len(),
{
    let ghost before = views(segments@);
    let mut i: usize = 0;
    assert(before + quote_segments(children@, cx, 0) =~= before);
    while i < children.len()
        invariant
            i <= children@.len(),
            views(segments@) == before + quote_segments(children@, cx, i as nat),
            all_tiled(old(segments)@) ==> all_tiled(segments@),
        decreases children@.len() - i,
    {
        push_block_with_gap(&children[i], cx, if i == 0 { 0 } else { QUOTE_GAP }, segments);
        assert(views(segments@) =~= before + quote_segments(children@, cx, (i + 1) as nat));
        i = i + 1;
    }
}

/// What stands before item `i` of a list.
fn marker_of(task: Option<bool>, ordered: bool, start: u64, i: usize) -> (m: String)
    ensures
        m@ == item_marker(task, ordered, start, i as int),
{
    match task {
        Some(done) => if done { "☑ ".to_owned() } else { "☐ ".to_owned() },
        None => {
            if ordered {
                let mut m: String = String::new();
                push_decimal(&mut m, start.wrapping_add(i as u64));
                m.append(". ");
                assert(m@ =~= text::decimal(item_number(start, i as int) as nat) + ". "@);
                m
            } else {
                "• ".to_owned()
            }
        },
    }
}

/// Pushes the segments of the blocks of a list item.
fn push_item(blocks: &Vec<Block>, marker: &str, cx: SegCx, segments: &mut Vec<Segment>)
    ensures
        views(final(segments)@) == views(old(segments)@) + item_segments(blocks@, marker@, cx, blocks@.len()),
        all_tiled(old(segments)@) ==> all_tiled(final(segments)@),
    decreases blocks@, blocks@.len(),
{
    let ghost before = views(segments@);
    let inner: SegCx = SegCx {
        indent: if cx.indent <= u32::MAX - LIST_INDENT { cx.indent + LIST_INDENT } else { u32::MAX },
        ..cx
    };
    let mut i: usize = 0;
    assert(before + item_segments(blocks@, marker@, cx, 0) =~= before);
    while i < blocks.len()
        invariant
            i <= blocks@.len(),
            inner == deeper(cx),
            views(segments@) == before + item_segments(blocks@, marker@, cx, i as nat),
            all_tiled(old(segments)@) ==> all_tiled(segments@),
        decreases blocks@.len() - i,
    {
        match &blocks[i].kind {
            BlockKind::Paragraph { inlines } if i == 0 => {
                push_inline_segments(inlines.as_slice(), marker, cx, segments);
            },
            _ => {
                push_block_with_gap(&blocks[i], inner, ITEM_GAP, segments);
            },
        }
        assert(views(segments@) =~= before + item_segments(blocks@, marker@, cx, (i + 1) as nat));
        i = i + 1;
    }
}

/// Pushes the segments of the items of a list.
fn push_list(ordered: bool, start: u64, items: &Vec<ListItem>, cx: SegCx, segments: &mut Vec<Segment>)
    ensures
        views(final(segments)@) == views(old(segments)@) + list_segments(ordered, start, items@, cx, items@.len()),
        all_tiled(old(segments)@) ==> all_tiled(final(segments)@),
    decreases items@, items@.len(),
{
    let ghost before = views(segments@);
    let mut i: usize = 0;
    assert(before + list_segments(ordered, start, items@, cx, 0) =~= before);
    while i < items.len()
        invariant
            i <= items@.len(),
            views(segments@) == before + list_segments(ordered, start, items@, cx, i as nat),
            all_tiled(old(segments)@) ==> all_tiled(segments@),
        decreases items@.len() - i,
    {
        let ghost listed = views(segments@);
        let item: &ListItem = &items[i];
        let marker: String = marker_of(item.task, ordered, start, i);
        let at: usize = segments.len();
        if item.blocks.len() == 0 {
            let mut runs: Vec<TextRun> = Vec::new();
            runs.push(make_ui_run(byte_len(marker.as_str()), false, false, ColorRole::TextMuted));
            assert(runs@ =~= seq![ui_run(text::byte_count(marker@), false, false, ColorRole::TextMuted)]);
            proof {
                hover_popover::one_run_tiles(runs@[0], marker@);
            }
            push_bare(SegmentKind::Text, marker, runs, cx, segments);
        } else {
            push_item(&item.blocks, marker.as_str(), cx, segments);
        }
        assert(views(segments@).take(at as int) =~= listed);
        let ghost own = views(segments@).skip(at as int);
        raise_gap(segments, at, if i == 0 { 0 } else { ITEM_GAP });
        proof {
            if item.blocks@.len() == 0 {
                assert(own =~= seq![
                    bare_segment(
                        SegmentKind::Text,
                        marker@,
                        seq![ui_run(text::byte_count(marker@), false, false, ColorRole::TextMuted)],
                        cx,
                    ),
                ]);
            } else {
                assert(own =~= item_segments(item.blocks@, marker@, cx, item.blocks@.len()));
            }
            assert(views(segments@) =~= before + list_segments(ordered, start, items@, cx, (i + 1) as nat));
        }
        i = i + 1;
    }
}

/// Pushes the segments of one row of a table.
fn push_row(cells: &Vec<Vec<InlineRun>>, row: usize, cols: usize, cx: SegCx, segments: &mut Vec<Segment>)
    ensures
        views(final(segments)@) == views(old(segments)@) + row_segments(cells@, row as int, cols as int, cx),
        all_tiled(old(segments)@) ==> all_tiled(final(segments)@),
{
    let ghost before = views(segments@);
    let ghost all = row_segments(cells@, row as int, cols as int, cx);
    let none: Vec<InlineRun> = Vec::new();
    let mut col: usize = 0;
    assert(before + all.take(0) =~= before);
    while col < cols
        invariant
            col <= cols,
            none@.len() == 0,
            all == row_segments(cells@, row as int, cols as int, cx),
            views(segments@) == before + all.take(col as int),
            all_tiled(old(segments)@) ==> all_tiled(segments@),
        decreases cols - col,
    {
        let inlines: &Vec<InlineRun> = if col < cells.len() { &cells[col] } else { &none };
        assert(inlines@ =~= cell_at(cells@, col as int));
        let seg: Segment = build_inline_segment(inlines.as_slice(), cx, (row, col, cols));
        let ghost shown = views(segments@);
        segments.push(seg);
        assert(views(segments@) =~= shown.push(seg@));
        assert(all.take(col + 1) =~= all.take(col as int).push(all[col as int]));
        assert(views(segments@) =~= before + all.take(col + 1));
        col = col + 1;
    }
    assert(all.take(col as int) =~= all);
}

/// Pushes the segments of a table.
fn push_table(head: &Vec<Vec<InlineRun>>, rows: &Vec<Vec<Vec<InlineRun>>>, cx: SegCx, segments: &mut Vec<Segment>)
    ensures
        views(final(segments)@) == views(old(segments)@) + ({
            let cols = column_count(head@, rows@);
            if cols == 0 { Seq::empty() } else { table_segments(head@, rows@, cols, cx, rows@.len() as int) }
        }),
        all_tiled(old(segments)@) ==> all_tiled(final(segments)@),
{
    let ghost before = views(segments@);
    let mut longest: usize = 0;
    let mut i: usize = 0;
    while i < rows.len()
        invariant
            i <= rows@.len(),
            longest == longest_row(rows@, i as int),
        decreases rows@.len() - i,
    {
        if longest < rows[i].len() {
            longest = rows[i].len();
        }
        i = i + 1;
    }
    let cols: usize = if head.len() < longest { longest } else { head.len() };
    if cols == 0 {
        assert(before + Seq::<SegmentView>::empty() =~= before);
        return;
    }
    push_row(head, 0, cols, SegCx { bold: true, ..cx }, segments);
    let mut r: usize = 0;
    while r < rows.len()
        invariant
            r <= rows@.len(),
            views(segments@) == before + table_segments(head@, rows@, cols as int, cx, r as int),
            all_tiled(old(segments)@) ==> all_tiled(segments@),
        decreases rows@.len() - r,
    {
        push_row(&rows[r], r + 1, cols, SegCx { bold: false, ..cx }, segments);
        assert(views(segments@) =~= before + table_segments(head@, rows@, cols as int, cx, r + 1));
        r = r + 1;
    }
}

/// The segments of a Markdown document, with its block structure: the size of headings, the
/// grouping of quotations, the indentation of lists, the cells of tables, images.
pub fn build_segments(md: &MarkdownDoc) -> (segments: Vec<Segment>)
    ensures
        views(segments@) == doc_segments(md.blocks@, doc_cx(), md.blocks@.len() as int),
        all_tiled(segments@),
{
    let mut segments: Vec<Segment> = Vec::new();
    let cx: SegCx = SegCx { quote: false, indent: 0, percent: 100, bold: false };
    let mut i: usize = 0;
    assert(views(segments@) =~= Seq::empty());
    while i < md.blocks.len()
        invariant
            i <= md.blocks@.len(),
            cx == doc_cx(),
            views(segments@) == doc_segments(md.blocks@, cx, i as int),
            all_tiled(segments@),
        decreases md.blocks@.len() - i,
    {
        let gap: u32 = if i == 0 {
            0
        } else {
            match &md.blocks[i].kind {
                BlockKind::Heading { level: _, inlines: _ } => HEADING_GAP,
                _ => BLOCK_GAP,
            }
        };
        push_block_with_gap(&md.blocks[i], cx, gap, &mut segments);
        i = i + 1;
    }
    segments
}

/// Replaces the segments by those of another document.
pub fn rebuild_segments(shared: &mut Vec<Segment>, md: &MarkdownDoc)
    ensures
        views(final(shared)@) == doc_segments(md.blocks@, doc_cx(), md.blocks@.len() as int),
        all_tiled(final(shared)@),
{
    *shared = build_segments(md);
}

} // verus!
