//! What the popover shows of Markdown.
use vstd::prelude::*;

use crate::buffer_view;
use crate::buffer_view::{ColorRole, TextRun};
use crate::hover_popover::{SegmentKind, TextSize};
use crate::hover_segments;
use crate::hover_segments::{LinkView, Prose, SegCx, SegmentView};
use crate::markdown::{Block, BlockKind, HighlightSpan, InlineRun, InlineStyle, ListItem};
use crate::text;

verus! {

// ── Lines of prose ────────────────────────────────────────────────────────────

/// What comes before depends on nothing that follows.
proof fn prose_of_start(prefix: Seq<char>, xs: Seq<InlineRun>, ys: Seq<InlineRun>, cx: SegCx, n: int)
    requires
        0 <= n <= xs.len(),
    ensures
        hover_segments::prose_of(prefix, xs + ys, cx, n) == hover_segments::prose_of(prefix, xs, cx, n),
    decreases n,
{
    if n > 0 {
        prose_of_start(prefix, xs, ys, cx, n - 1);
        assert((xs + ys)[n - 1] == xs[n - 1]);
    }
}

/// Behind a place where the line is closed prose starts anew.
proof fn prose_of_rest(prefix: Seq<char>, xs: Seq<InlineRun>, ys: Seq<InlineRun>, cx: SegCx, k: int)
    requires
        0 <= k <= ys.len(),
        ({
            let p = hover_segments::prose_of(prefix, xs, cx, xs.len() as int);
            p.text.len() == 0 && p.runs.len() == 0 && p.links.len() == 0
        }),
    ensures
        hover_segments::prose_of(prefix, xs + ys, cx, xs.len() + k) == (Prose {
            out: hover_segments::prose_of(prefix, xs, cx, xs.len() as int).out + hover_segments::prose_of(
                Seq::empty(),
                ys,
                cx,
                k,
            ).out,
            ..hover_segments::prose_of(Seq::empty(), ys, cx, k)
        }),
    decreases k,
{
    let o = hover_segments::prose_of(prefix, xs, cx, xs.len() as int);
    let whole = hover_segments::prose_of(prefix, xs + ys, cx, xs.len() + k);
    let rest = hover_segments::prose_of(Seq::empty(), ys, cx, k);
    if k == 0 {
        prose_of_start(prefix, xs, ys, cx, xs.len() as int);
        assert(whole =~= (Prose { out: o.out + rest.out, ..rest }));
    } else {
        prose_of_rest(prefix, xs, ys, cx, k - 1);
        assert((xs + ys)[xs.len() + k - 1] == ys[k - 1]);
        assert(whole =~= (Prose { out: o.out + rest.out, ..rest }));
    }
}

/// A break parts inline text: what stands before it and what stands behind it become the segments
/// that they would become alone. Soft breaks part it too.
pub proof fn break_parts_lines(prefix: Seq<char>, xs: Seq<InlineRun>, brk: InlineRun, ys: Seq<InlineRun>, cx: SegCx)
    requires
        brk is SoftBreak || brk is HardBreak,
    ensures
        hover_segments::inline_segments(prefix, xs.push(brk) + ys, cx) == hover_segments::inline_segments(prefix, xs, cx)
            + hover_segments::inline_segments(Seq::empty(), ys, cx),
{
    let head = xs.push(brk);
    assert(head =~= xs + seq![brk]);
    prose_of_start(prefix, xs, seq![brk], cx, xs.len() as int);
    let p = hover_segments::prose_of(prefix, head, cx, head.len() as int);
    assert(p == hover_segments::with_inline(hover_segments::prose_of(prefix, head, cx, xs.len() as int), brk, cx));
    prose_of_rest(prefix, head, ys, cx, ys.len() as int);
    assert((head + ys).len() == head.len() + ys.len());
    assert(hover_segments::inline_segments(prefix, head + ys, cx) =~= hover_segments::inline_segments(prefix, xs, cx)
        + hover_segments::inline_segments(Seq::empty(), ys, cx));
}

/// A remote image parts inline text as a break does, and stands between the parts by itself.
pub proof fn remote_image_stands_alone(
    prefix: Seq<char>,
    xs: Seq<InlineRun>,
    alt: String,
    dest: String,
    link: Option<String>,
    ys: Seq<InlineRun>,
    cx: SegCx,
)
    requires
        "http://"@.is_prefix_of(dest@) || "https://"@.is_prefix_of(dest@),
    ensures
        ({
            let all = hover_segments::inline_segments(prefix, xs.push(InlineRun::Image { alt, dest, link }) + ys, cx);
            let before = hover_segments::inline_segments(prefix, xs, cx);
            let after = hover_segments::inline_segments(Seq::empty(), ys, cx);
            &&& all.len() == before.len() + 1 + after.len()
            &&& all.take(before.len() as int) == before
            &&& all.skip(before.len() as int + 1) == after
            &&& all[before.len() as int].kind == (SegmentKind::Image { url: dest, link })
            &&& all[before.len() as int].text.len() == 0
            &&& all[before.len() as int].indent == cx.indent && all[before.len() as int].quote == cx.quote
        }),
{
    let image = InlineRun::Image { alt, dest, link };
    let head = xs.push(image);
    assert(head =~= xs + seq![image]);
    prose_of_start(prefix, xs, seq![image], cx, xs.len() as int);
    let p = hover_segments::prose_of(prefix, head, cx, head.len() as int);
    assert(p == hover_segments::with_inline(hover_segments::prose_of(prefix, head, cx, xs.len() as int), image, cx));
    prose_of_rest(prefix, head, ys, cx, ys.len() as int);
    let all = hover_segments::inline_segments(prefix, head + ys, cx);
    let before = hover_segments::inline_segments(prefix, xs, cx);
    let after = hover_segments::inline_segments(Seq::empty(), ys, cx);
    assert(all =~= p.out + after);
    assert(p.out.drop_last() =~= before);
    assert(all.take(before.len() as int) =~= before);
    assert(all.skip(before.len() as int + 1) =~= after);
}

/// What a piece of inline text reads: its text, or the description of an image.
pub open spec fn reads(x: InlineRun) -> Seq<char> {
    match x {
        InlineRun::Text { text, .. } => text@,
        InlineRun::Image { alt, .. } => alt@,
        _ => Seq::empty(),
    }
}

/// What pieces of inline text read one behind the other.
pub open spec fn reads_all(xs: Seq<InlineRun>) -> Seq<char>
    decreases xs.len(),
{
    if xs.len() == 0 { Seq::empty() } else { reads_all(xs.drop_last()) + reads(xs.last()) }
}

/// Whether pieces of inline text stand on one line: there are no breaks and no remote images.
pub open spec fn one_line(xs: Seq<InlineRun>) -> bool {
    forall|i: int|
        0 <= i < xs.len() ==> match #[trigger] xs[i] {
            InlineRun::Text { .. } => true,
            InlineRun::Image { dest, .. } => !("http://"@.is_prefix_of(dest@)) && !("https://"@.is_prefix_of(dest@)),
            _ => false,
        }
}

proof fn line_reads(prefix: Seq<char>, xs: Seq<InlineRun>, cx: SegCx, n: int)
    requires
        0 <= n <= xs.len(),
        one_line(xs),
    ensures
        hover_segments::prose_of(prefix, xs, cx, n).text == prefix + reads_all(xs.take(n)),
        hover_segments::prose_of(prefix, xs, cx, n).out.len() == 0,
    decreases n,
{
    if n == 0 {
        assert(xs.take(0) =~= Seq::empty());
        assert(prefix + Seq::<char>::empty() =~= prefix);
    } else {
        line_reads(prefix, xs, cx, n - 1);
        assert(xs.take(n).drop_last() =~= xs.take(n - 1));
        assert(xs.take(n).last() == xs[n - 1]);
        let before = hover_segments::prose_of(prefix, xs, cx, n - 1);
        assert(before.text + reads(xs[n - 1]) =~= prefix + reads_all(xs.take(n)));
        assert(before.text + Seq::<char>::empty() =~= before.text);
        if reads(xs[n - 1]).len() == 0 {
            assert(reads(xs[n - 1]) =~= Seq::<char>::empty());
        }
    }
}

/// Inline text without breaks and remote images is one segment that reads it all behind the
/// prefix; a line of white space alone is none.
pub proof fn line_is_one_segment(prefix: Seq<char>, xs: Seq<InlineRun>, cx: SegCx)
    requires
        one_line(xs),
    ensures
        ({
            let all = prefix + reads_all(xs);
            let segments = hover_segments::inline_segments(prefix, xs, cx);
            if exists|i: int| 0 <= i < all.len() && !text::whitespace(#[trigger] all[i]) {
                &&& segments.len() == 1
                &&& segments[0].text == all
                &&& segments[0].kind is Text
                &&& segments[0].quote == cx.quote
                &&& segments[0].indent == cx.indent
                &&& segments[0].text_size == (TextSize::Body { percent: cx.percent })
                &&& segments[0].table_cell is None
            } else {
                segments.len() == 0
            }
        }),
{
    line_reads(prefix, xs, cx, xs.len() as int);
    assert(xs.take(xs.len() as int) =~= xs);
    let all = prefix + reads_all(xs);
    if exists|i: int| 0 <= i < all.len() && !text::whitespace(#[trigger] all[i]) {
        let i = choose|i: int| 0 <= i < all.len() && !text::whitespace(#[trigger] all[i]);
        assert(!text::whitespace(all[i]));
        assert(!text::blank(all));
    } else {
        assert(text::blank(all));
    }
}

/// A paragraph of two lines is two segments, whichever break parts them: neither line holds
/// anything of the other.
pub proof fn two_lines_are_two_segments(block: Block, a: InlineRun, brk: InlineRun, b: InlineRun)
    requires
        block.kind matches BlockKind::Paragraph { inlines } && inlines@ == seq![a, brk, b],
        brk is SoftBreak || brk is HardBreak,
        a is Text && b is Text,
        exists|i: int| 0 <= i < reads(a).len() && !text::whitespace(#[trigger] reads(a)[i]),
        exists|i: int| 0 <= i < reads(b).len() && !text::whitespace(#[trigger] reads(b)[i]),
    ensures
        ({
            let segments = hover_segments::doc_segments(seq![block], hover_segments::doc_cx(), 1);
            segments.len() == 2 && segments[0].text == reads(a) && segments[1].text == reads(b)
        }),
{
    let cx = hover_segments::doc_cx();
    let none = Seq::<char>::empty();
    assert(seq![a, brk, b] =~= seq![a].push(brk) + seq![b]);
    break_parts_lines(none, seq![a], brk, seq![b], cx);
    reveal_with_fuel(reads_all, 2);
    assert(seq![a].drop_last() =~= Seq::empty());
    assert(seq![b].drop_last() =~= Seq::empty());
    assert(none + reads_all(seq![a]) =~= reads(a));
    assert(none + reads_all(seq![b]) =~= reads(b));
    line_is_one_segment(none, seq![a], cx);
    line_is_one_segment(none, seq![b], cx);
    reveal_with_fuel(hover_segments::doc_segments, 2);
    assert(seq![block][0] == block);
    let own = hover_segments::block_segments(block, cx);
    assert(hover_segments::doc_segments(seq![block], cx, 1) =~= hover_segments::with_gap(own, 0));
}

// ── How text is set ───────────────────────────────────────────────────────────

/// A stretch of text is set as its style says: code in type of fixed width on a ground of its own,
/// and otherwise bold or in italics as it is marked. A link to the web has the color of links and a
/// line below it, and leads where it says; other text leads nowhere.
pub proof fn text_is_set_by_its_style(t: String, style: InlineStyle, link: Option<String>, cx: SegCx)
    requires
        exists|i: int| 0 <= i < t@.len() && !text::whitespace(#[trigger] t@[i]),
        text::byte_count(t@) <= usize::MAX,
    ensures
        ({
            let all = hover_segments::inline_segments(Seq::empty(), seq![InlineRun::Text { text: t, style, link }], cx);
            let web = link is Some && ("http://"@.is_prefix_of(link->0@) || "https://"@.is_prefix_of(link->0@));
            &&& all.len() == 1
            &&& all[0].text == t@
            &&& all[0].runs.len() == 1
            &&& all[0].runs[0].len == text::byte_count(t@)
            &&& all[0].runs[0].font.mono == style.code
            &&& !style.code ==> all[0].runs[0].font.bold == (cx.bold || style.bold) && all[0].runs[0].font.italic == style.italic
            &&& all[0].runs[0].background is Some <==> style.code
            &&& all[0].runs[0].strikethrough is Some <==> style.strike
            &&& all[0].runs[0].underline is Some <==> web
            &&& all[0].runs[0].color == if web { ColorRole::Accent } else { ColorRole::Text }
            &&& !web ==> all[0].links.len() == 0
            &&& web ==> all[0].links == seq![LinkView { start: 0, end: text::byte_count(t@), url: link->0@ }]
        }),
{
    let x = InlineRun::Text { text: t, style, link };
    let xs = seq![x];
    line_is_one_segment(Seq::empty(), xs, cx);
    reveal_with_fuel(reads_all, 2);
    assert(xs.drop_last() =~= Seq::empty());
    assert(Seq::<char>::empty() + reads_all(xs) =~= t@);
    reveal_with_fuel(hover_segments::prose_of, 2);
    let i = choose|i: int| 0 <= i < t@.len() && !text::whitespace(#[trigger] t@[i]);
    assert(!text::blank(t@));
    let p = hover_segments::prose_of(Seq::empty(), xs, cx, 1);
    assert(xs[0] == x);
    assert(hover_segments::prose_start(Seq::empty()).runs.len() == 0);
    assert(p.runs.len() == 1);
    assert(Seq::<char>::empty() + t@ =~= t@);
    assert(vstd::utf8::encode_utf8(Seq::<char>::empty()) =~= Seq::<u8>::empty());
    assert(p.text =~= t@);
}

/// A link covers the text that it stands for and no other: it starts where the text before it ends
/// and ends where its own text does. Links before it stay where they are.
pub proof fn link_covers_its_text(prefix: Seq<char>, xs: Seq<InlineRun>, t: String, style: InlineStyle, url: String, cx: SegCx)
    requires
        one_line(xs),
        "http://"@.is_prefix_of(url@) || "https://"@.is_prefix_of(url@),
        exists|i: int| 0 <= i < t@.len() && !text::whitespace(#[trigger] t@[i]),
    ensures
        ({
            let x = InlineRun::Text { text: t, style, link: Some(url) };
            let all = hover_segments::inline_segments(prefix, xs.push(x), cx);
            let before = text::byte_count(prefix + reads_all(xs));
            &&& all.len() == 1
            &&& all[0].links.len() > 0
            &&& all[0].links.last() == (LinkView { start: before, end: before + text::byte_count(t@), url: url@ })
        }),
{
    let x = InlineRun::Text { text: t, style, link: Some(url) };
    let ys = xs.push(x);
    assert(one_line(ys)) by {
        assert forall|i: int| 0 <= i < ys.len() implies match #[trigger] ys[i] {
            InlineRun::Text { .. } => true,
            InlineRun::Image { dest, .. } => !("http://"@.is_prefix_of(dest@)) && !("https://"@.is_prefix_of(dest@)),
            _ => false,
        } by {
            if i < xs.len() {
                assert(ys[i] == xs[i]);
            }
        }
    }
    line_reads(prefix, xs, cx, xs.len() as int);
    assert(xs.take(xs.len() as int) =~= xs);
    assert(ys =~= xs + seq![x]);
    prose_of_start(prefix, xs, seq![x], cx, xs.len() as int);
    let p = hover_segments::prose_of(prefix, xs, cx, xs.len() as int);
    let q = hover_segments::prose_of(prefix, ys, cx, ys.len() as int);
    assert(q == hover_segments::with_inline(p, x, cx));
    text::encoding_of_joined(p.text, t@);
    line_is_one_segment(prefix, ys, cx);
    assert(ys.drop_last() =~= xs);
    let all = prefix + reads_all(ys);
    let i = choose|i: int| 0 <= i < t@.len() && !text::whitespace(#[trigger] t@[i]);
    assert(all =~= p.text + t@);
    assert(all[p.text.len() + i] == t@[i]);
    assert(!text::blank(q.text)) by {
        assert(q.text[p.text.len() + i] == t@[i]);
    }
}

/// Headings are bold and larger than the text, and the larger the higher they are; below the third
/// level they are as large as the text.
pub proof fn headings_are_larger(block: Block, cx: SegCx, level: u8, inlines: Vec<InlineRun>)
    requires
        block.kind == (BlockKind::Heading { level, inlines }),
        one_line(inlines@),
        exists|i: int| 0 <= i < reads_all(inlines@).len() && !text::whitespace(#[trigger] reads_all(inlines@)[i]),
    ensures
        ({
            let all = hover_segments::block_segments(block, cx);
            &&& all.len() == 1
            &&& all[0].text == reads_all(inlines@)
            &&& all[0].text_size is Body
            &&& level == 1 ==> all[0].text_size->percent == 145
            &&& level == 2 ==> all[0].text_size->percent == 125
            &&& level == 3 ==> all[0].text_size->percent == 110
            &&& level == 0 || level > 3 ==> all[0].text_size->percent == 100
            &&& all == hover_segments::inline_segments(
                Seq::empty(),
                inlines@,
                SegCx { bold: true, percent: all[0].text_size->percent, ..cx },
            )
        }),
{
    let sub = SegCx { percent: hover_segments::heading_percent(level), bold: true, ..cx };
    line_is_one_segment(Seq::empty(), inlines@, sub);
    let all = Seq::<char>::empty() + reads_all(inlines@);
    assert(all =~= reads_all(inlines@));
}

// ── Code ──────────────────────────────────────────────────────────────────────

/// The color of byte `p` of a line with the given runs.
pub open spec fn color_at(runs: Seq<TextRun>, p: int) -> ColorRole
    decreases runs.len(),
{
    if runs.len() == 0 {
        ColorRole::Text
    } else if p < buffer_view::total_len(runs.drop_last()) {
        color_at(runs.drop_last(), p)
    } else {
        runs.last().color
    }
}

proof fn color_of_push(runs: Seq<TextRun>, run: TextRun, p: int)
    ensures
        p < buffer_view::total_len(runs) ==> color_at(runs.push(run), p) == color_at(runs, p),
        p >= buffer_view::total_len(runs) ==> color_at(runs.push(run), p) == run.color,
        buffer_view::total_len(runs.push(run)) == buffer_view::total_len(runs) + run.len,
{
    assert(runs.push(run).drop_last() =~= runs);
}

/// Where a span ends on a line of `n` bytes.
pub open spec fn ends_at(s: HighlightSpan, n: int) -> int {
    if s.end_byte_col == u32::MAX || s.end_byte_col as int > n { n } else { s.end_byte_col as int }
}

proof fn prefix_colors(spans: Seq<HighlightSpan>, n: int, p: int, k: int)
    requires
        0 <= p < n <= usize::MAX,
        0 <= k <= spans.len(),
        forall|j: int| 0 <= j < k ==> ends_at(#[trigger] spans[j], n) <= p,
        k < spans.len() ==> ends_at(spans[k], n) > p,
    ensures
        buffer_view::total_len(hover_segments::code_prefix(spans, n).0) == hover_segments::code_prefix(spans, n).1,
        0 <= hover_segments::code_prefix(spans, n).1 <= n,
        k == spans.len() ==> hover_segments::code_prefix(spans, n).1 <= p,
        k < spans.len() ==> hover_segments::code_prefix(spans, n).1 > p && color_at(
            hover_segments::code_prefix(spans, n).0,
            p,
        ) == if spans[k].start_byte_col <= p { ColorRole::Syntax(spans[k].token) } else { ColorRole::Text },
    decreases spans.len(),
{
    if spans.len() > 0 {
        let rest = spans.drop_last();
        let last = spans.last();
        let m = if k < rest.len() { k } else { rest.len() as int };
        assert forall|j: int| 0 <= j < m implies ends_at(#[trigger] rest[j], n) <= p by {
            assert(rest[j] == spans[j]);
        }
        if m < rest.len() {
            assert(rest[m] == spans[k]);
        }
        prefix_colors(rest, n, p, m);
        let (runs, cursor) = hover_segments::code_prefix(rest, n);
        let end = ends_at(last, n);
        let from = if last.start_byte_col as int > n { n } else { last.start_byte_col as int };
        let late = if from < cursor { cursor } else { from };
        let start = if late < end { late } else { end };
        let gap = buffer_view::plain_mono(start - cursor, ColorRole::Text);
        let own = buffer_view::plain_mono(end - start, ColorRole::Syntax(last.token));
        if end > cursor {
            color_of_push(runs, gap, p);
            color_of_push(runs, own, p);
            color_of_push(runs.push(gap), own, p);
        }
    }
}

/// A byte of code has the color of the first span that does not end before it, if that span has
/// started there; otherwise it has the color of text.
pub proof fn code_is_colored_by_its_spans(spans: Seq<HighlightSpan>, n: int, p: int, k: int)
    requires
        0 <= p < n <= usize::MAX,
        0 <= k <= spans.len(),
        forall|j: int| 0 <= j < k ==> ends_at(#[trigger] spans[j], n) <= p,
        k < spans.len() ==> ends_at(spans[k], n) > p,
    ensures
        color_at(hover_segments::code_runs(spans, n), p) == if k < spans.len() && spans[k].start_byte_col <= p {
            ColorRole::Syntax(spans[k].token)
        } else {
            ColorRole::Text
        },
{
    prefix_colors(spans, n, p, k);
    let (runs, cursor) = hover_segments::code_prefix(spans, n);
    color_of_push(runs, buffer_view::plain_mono(n - cursor, ColorRole::Text), p);
}

/// A block of code is one segment for each of its lines, in their order and as they are; a block
/// without lines is one empty segment.
pub proof fn code_keeps_its_lines(block: Block, cx: SegCx, lang: Option<String>, t: String, highlights: Vec<Vec<HighlightSpan>>, i: int)
    requires
        block.kind == (BlockKind::CodeBlock { lang, text: t, highlights }),
        0 <= i < text::lines(t@).len(),
    ensures
        ({
            let all = hover_segments::block_segments(block, cx);
            &&& all.len() == text::lines(t@).len()
            &&& all[i].text == text::lines(t@)[i]
            &&& all[i].kind is Code && all[i].text_size is Code
            &&& all[i].indent == cx.indent && all[i].quote == cx.quote && all[i].links.len() == 0
            &&& i < highlights@.len() ==> all[i].runs == hover_segments::code_runs(highlights@[i]@, text::byte_count(all[i].text))
            &&& i >= highlights@.len() ==> all[i].runs == hover_segments::code_runs(Seq::empty(), text::byte_count(all[i].text))
        }),
{
}

/// HTML is shown by its lines, as they are, in a muted color.
pub proof fn html_keeps_its_lines(block: Block, cx: SegCx, t: String, i: int)
    requires
        block.kind == (BlockKind::HtmlBlock { text: t }),
        0 <= i < text::lines(t@).len(),
        text::byte_count(text::lines(t@)[i]) <= usize::MAX,
    ensures
        ({
            let all = hover_segments::block_segments(block, cx);
            &&& all.len() == text::lines(t@).len()
            &&& all[i].text == text::lines(t@)[i]
            &&& all[i].kind is Code
            &&& all[i].runs.len() == 1
            &&& all[i].runs[0].color == ColorRole::TextMuted && all[i].runs[0].len == text::byte_count(all[i].text)
        }),
{
}

// ── Quotations ────────────────────────────────────────────────────────────────

/// Whether all segments are part of a quotation; rules are part of none.
pub open spec fn all_quoted(segments: Seq<SegmentView>) -> bool {
    forall|i: int| 0 <= i < segments.len() ==> (#[trigger] segments[i]).quote || segments[i].kind is Rule
}

proof fn prose_quoted(prefix: Seq<char>, xs: Seq<InlineRun>, cx: SegCx, n: int)
    requires
        cx.quote,
        0 <= n <= xs.len(),
    ensures
        all_quoted(hover_segments::prose_of(prefix, xs, cx, n).out),
    decreases n,
{
    if n > 0 {
        prose_quoted(prefix, xs, cx, n - 1);
    }
}

proof fn inline_quoted(prefix: Seq<char>, xs: Seq<InlineRun>, cx: SegCx)
    requires
        cx.quote,
    ensures
        all_quoted(hover_segments::inline_segments(prefix, xs, cx)),
{
    prose_quoted(prefix, xs, cx, xs.len() as int);
}

proof fn table_quoted(head: Seq<Vec<InlineRun>>, rows: Seq<Vec<Vec<InlineRun>>>, cols: int, cx: SegCx, n: int)
    requires
        cx.quote,
    ensures
        all_quoted(hover_segments::table_segments(head, rows, cols, cx, n)),
    decreases n,
{
    if n > 0 {
        table_quoted(head, rows, cols, cx, n - 1);
    }
}

proof fn block_quoted(block: Block, cx: SegCx)
    requires
        cx.quote,
    ensures
        all_quoted(hover_segments::block_segments(block, cx)),
    decreases block, 0nat,
{
    match block.kind {
        BlockKind::Heading { level, inlines } => {
            inline_quoted(Seq::empty(), inlines@, SegCx { percent: hover_segments::heading_percent(level), bold: true, ..cx });
        },
        BlockKind::Paragraph { inlines } => {
            inline_quoted(Seq::empty(), inlines@, cx);
        },
        BlockKind::Blockquote { children } => {
            children_quoted(children@, SegCx { quote: true, ..cx }, children@.len());
        },
        BlockKind::List { ordered, start, items } => {
            list_quoted(ordered, start, items@, cx, items@.len());
        },
        BlockKind::Table { head, rows } => {
            let cols = hover_segments::column_count(head@, rows@);
            table_quoted(head@, rows@, cols, cx, rows@.len() as int);
        },
        _ => {},
    }
}

proof fn children_quoted(children: Seq<Block>, cx: SegCx, n: nat)
    requires
        cx.quote,
    ensures
        all_quoted(hover_segments::quote_segments(children, cx, n)),
    decreases children, n,
{
    if 0 < n <= children.len() {
        children_quoted(children, cx, (n - 1) as nat);
        block_quoted(children[n - 1], cx);
    }
}

proof fn item_quoted(blocks: Seq<Block>, marker: Seq<char>, cx: SegCx, n: nat)
    requires
        cx.quote,
    ensures
        all_quoted(hover_segments::item_segments(blocks, marker, cx, n)),
    decreases blocks, n,
{
    if 0 < n <= blocks.len() {
        item_quoted(blocks, marker, cx, (n - 1) as nat);
        if n == 1 && blocks[0].kind is Paragraph {
            inline_quoted(marker, blocks[0].kind->Paragraph_inlines@, cx);
        } else {
            block_quoted(blocks[n - 1], hover_segments::deeper(cx));
        }
    }
}

proof fn list_quoted(ordered: bool, start: u64, items: Seq<ListItem>, cx: SegCx, n: nat)
    requires
        cx.quote,
    ensures
        all_quoted(hover_segments::list_segments(ordered, start, items, cx, n)),
    decreases items, n,
{
    if 0 < n <= items.len() {
        list_quoted(ordered, start, items, cx, (n - 1) as nat);
        let item = items[n - 1];
        let marker = hover_segments::item_marker(item.task, ordered, start, n - 1);
        item_quoted(item.blocks@, marker, cx, item.blocks@.len());
    }
}

/// Everything in a quotation is marked as quoted, however deep it is nested.
pub proof fn quotations_are_marked(block: Block, cx: SegCx)
    requires
        block.kind is Blockquote,
    ensures
        all_quoted(hover_segments::block_segments(block, cx)),
{
    children_quoted(block.kind->children@, SegCx { quote: true, ..cx }, block.kind->children@.len());
}

// ── Lists ─────────────────────────────────────────────────────────────────────

/// What stands before an item: a box for a task, ticked where it is done; otherwise the number of
/// the item, which counts up from the first, or a bullet.
pub proof fn items_have_their_marker(task: Option<bool>, ordered: bool, start: u64, i: int)
    requires
        0 <= i,
        start + i <= u64::MAX,
    ensures
        task == Some(true) ==> hover_segments::item_marker(task, ordered, start, i) == "☑ "@,
        task == Some(false) ==> hover_segments::item_marker(task, ordered, start, i) == "☐ "@,
        task is None && !ordered ==> hover_segments::item_marker(task, ordered, start, i) == "• "@,
        task is None && ordered ==> hover_segments::item_marker(task, ordered, start, i) == text::decimal((start + i) as nat)
            + ". "@,
{
}

/// An item that is one line of text is one segment: its marker and its text. The segments of the
/// items before it stay as they are, and only the first item has no gap above it.
pub proof fn item_follows_its_marker(ordered: bool, start: u64, items: Seq<ListItem>, cx: SegCx, n: nat)
    requires
        0 < n <= items.len(),
        items[n - 1].blocks@.len() == 1,
        items[n - 1].blocks@[0].kind is Paragraph,
        one_line(items[n - 1].blocks@[0].kind->Paragraph_inlines@),
        exists|i: int|
            0 <= i < reads_all(items[n - 1].blocks@[0].kind->Paragraph_inlines@).len() && !text::whitespace(
                #[trigger] reads_all(items[n - 1].blocks@[0].kind->Paragraph_inlines@)[i],
            ),
    ensures
        ({
            let all = hover_segments::list_segments(ordered, start, items, cx, n);
            let before = hover_segments::list_segments(ordered, start, items, cx, (n - 1) as nat);
            let marker = hover_segments::item_marker(items[n - 1].task, ordered, start, n - 1);
            &&& all.len() == before.len() + 1
            &&& all.drop_last() == before
            &&& all.last().text == marker + reads_all(items[n - 1].blocks@[0].kind->Paragraph_inlines@)
            &&& all.last().indent == cx.indent
            &&& all.last().top_gap == if n == 1 { 0u32 } else { 2u32 }
        }),
{
    let item = items[n - 1];
    let inlines = item.blocks@[0].kind->Paragraph_inlines@;
    let marker = hover_segments::item_marker(item.task, ordered, start, n - 1);
    let t = reads_all(inlines);
    let i = choose|i: int| 0 <= i < t.len() && !text::whitespace(#[trigger] t[i]);
    let whole = marker + t;
    assert(whole[marker.len() + i] == t[i]);
    line_is_one_segment(marker, inlines, cx);
    reveal_with_fuel(hover_segments::item_segments, 2);
    let own = hover_segments::item_segments(item.blocks@, marker, cx, 1);
    assert(own =~= hover_segments::inline_segments(marker, inlines, cx));
    assert(own[0].top_gap == 0) by {
        line_reads(marker, inlines, cx, inlines.len() as int);
    }
    let all = hover_segments::list_segments(ordered, start, items, cx, n);
    let before = hover_segments::list_segments(ordered, start, items, cx, (n - 1) as nat);
    assert(all.drop_last() =~= before);
}

/// What follows the first paragraph of an item stands further to the right, by the same step at
/// every level.
pub proof fn nested_blocks_are_indented(blocks: Seq<Block>, marker: Seq<char>, cx: SegCx, n: nat)
    requires
        1 < n <= blocks.len(),
        cx.indent <= u32::MAX - 14,
    ensures
        ({
            let all = hover_segments::item_segments(blocks, marker, cx, n);
            let before = hover_segments::item_segments(blocks, marker, cx, (n - 1) as nat);
            let own = hover_segments::block_segments(blocks[n - 1], SegCx { indent: (cx.indent + 14) as u32, ..cx });
            &&& all.len() == before.len() + own.len()
            &&& all.take(before.len() as int) == before
            &&& forall|i: int|
                0 <= i < own.len() ==> (#[trigger] all[before.len() + i]).text == own[i].text && all[before.len() + i].indent
                    == own[i].indent && all[before.len() + i].kind == own[i].kind && all[before.len() + i].top_gap
                    >= own[i].top_gap
        }),
{
    let all = hover_segments::item_segments(blocks, marker, cx, n);
    let before = hover_segments::item_segments(blocks, marker, cx, (n - 1) as nat);
    assert(all.take(before.len() as int) =~= before);
}

// ── Tables ────────────────────────────────────────────────────────────────────

/// A table is as wide as its longest row.
pub proof fn table_is_as_wide_as_its_longest_row(head: Seq<Vec<InlineRun>>, rows: Seq<Vec<Vec<InlineRun>>>, i: int)
    requires
        0 <= i < rows.len(),
    ensures
        hover_segments::column_count(head, rows) >= head.len(),
        hover_segments::column_count(head, rows) >= rows[i]@.len(),
        hover_segments::column_count(head, rows) == head.len() || exists|k: int|
            0 <= k < rows.len() && hover_segments::column_count(head, rows) == (#[trigger] rows[k])@.len(),
{
    longest_bounds(rows, rows.len() as int, i);
}

proof fn longest_bounds(rows: Seq<Vec<Vec<InlineRun>>>, n: int, i: int)
    requires
        0 <= i < n <= rows.len(),
    ensures
        hover_segments::longest_row(rows, n) >= rows[i]@.len(),
        exists|k: int| 0 <= k < n && hover_segments::longest_row(rows, n) == (#[trigger] rows[k])@.len(),
    decreases n,
{
    if n == 1 {
        assert(hover_segments::longest_row(rows, 0) == 0);
        assert(hover_segments::longest_row(rows, 1) == rows[0]@.len());
    } else {
        longest_bounds(rows, n - 1, if i < n - 1 { i } else { 0 });
        let k = choose|k: int| 0 <= k < n - 1 && hover_segments::longest_row(rows, n - 1) == (#[trigger] rows[k])@.len();
        assert(hover_segments::longest_row(rows, n) == rows[k]@.len() || hover_segments::longest_row(rows, n) == rows[n
            - 1]@.len());
    }
}

/// A table has one segment for each place of its grid, row by row, the header first and in bold
/// type; each knows its place and shows the cell there, or nothing where the row is shorter.
pub proof fn table_fills_its_grid(
    head: Seq<Vec<InlineRun>>,
    rows: Seq<Vec<Vec<InlineRun>>>,
    cols: int,
    cx: SegCx,
    n: int,
    row: int,
    col: int,
)
    requires
        0 <= n <= rows.len() <= usize::MAX,
        0 < cols <= usize::MAX,
        0 <= row <= n,
        0 <= col < cols,
    ensures
        ({
            let all = hover_segments::table_segments(head, rows, cols, cx, n);
            let cells = if row == 0 { head } else { rows[row - 1]@ };
            let seg = all[row * cols + col];
            let cell = if col < cells.len() { cells[col]@ } else { Seq::empty() };
            &&& all.len() == (n + 1) * cols
            &&& 0 <= row * cols + col < all.len()
            &&& seg.table_cell == Some((row as usize, col as usize, cols as usize))
            &&& seg == hover_segments::cell_segment(
                cell,
                SegCx { bold: row == 0, ..cx },
                (row as usize, col as usize, cols as usize),
            )
        }),
    decreases n,
{
    if n == 0 {
        assert(row * cols == 0) by (nonlinear_arith)
            requires
                row == 0,
        ;
    } else {
        let before = hover_segments::table_segments(head, rows, cols, cx, n - 1);
        table_fills_its_grid(head, rows, cols, cx, n - 1, if row < n { row } else { 0 }, col);
        assert((n + 1) * cols == n * cols + cols) by (nonlinear_arith);
        if row < n {
            assert(row * cols + col < n * cols) by (nonlinear_arith)
                requires
                    row < n,
                    0 <= col < cols,
            ;
        } else {
            assert(row * cols == before.len());
        }
        assert(0 <= row * cols) by (nonlinear_arith)
            requires
                0 <= row,
                0 < cols,
        ;
    }
}

/// The lines of a cell are joined into one, with a space between them.
pub proof fn cell_is_one_line(a: InlineRun, brk: InlineRun, b: InlineRun, cx: SegCx, cell: (usize, usize, usize))
    requires
        brk is SoftBreak || brk is HardBreak,
        a is Text && b is Text,
        exists|i: int| 0 <= i < reads(a).len() && !text::whitespace(#[trigger] reads(a)[i]),
        exists|i: int| 0 <= i < reads(b).len() && !text::whitespace(#[trigger] reads(b)[i]),
    ensures
        hover_segments::cell_segment(seq![a, brk, b], cx, cell).text == reads(a) + seq![' '] + reads(b),
        hover_segments::cell_segment(seq![a, brk, b], cx, cell).table_cell == Some(cell),
        hover_segments::cell_segment(seq![a, brk, b], cx, cell).kind is Text,
{
    let none = Seq::<char>::empty();
    assert(seq![a, brk, b] =~= seq![a].push(brk) + seq![b]);
    break_parts_lines(none, seq![a], brk, seq![b], cx);
    reveal_with_fuel(reads_all, 2);
    assert(seq![a].drop_last() =~= Seq::empty());
    assert(seq![b].drop_last() =~= Seq::empty());
    assert(none + reads_all(seq![a]) =~= reads(a));
    assert(none + reads_all(seq![b]) =~= reads(b));
    line_is_one_segment(none, seq![a], cx);
    line_is_one_segment(none, seq![b], cx);
    let lines = hover_segments::inline_segments(none, seq![a, brk, b], cx);
    assert(lines.len() == 2);
    reveal_with_fuel(hover_segments::joined_segments, 3);
    let one = hover_segments::joined_segments(lines, 2)->0;
    assert(one.text =~= reads(a) + seq![' '] + reads(b));
}

/// An empty cell is an empty segment.
pub proof fn empty_cell_is_empty(cx: SegCx, cell: (usize, usize, usize))
    ensures
        hover_segments::cell_segment(Seq::empty(), cx, cell).text.len() == 0,
        hover_segments::cell_segment(Seq::empty(), cx, cell).table_cell == Some(cell),
        hover_segments::cell_segment(Seq::empty(), cx, cell).links.len() == 0,
{
    assert(text::blank(Seq::<char>::empty()));
}

// ── Documents ─────────────────────────────────────────────────────────────────

/// The segments of the blocks follow each other in the order of the blocks. Above the first there
/// is no gap; above a heading there is a wider one than above any other block.
pub proof fn blocks_follow_each_other(blocks: Seq<Block>, cx: SegCx, n: int)
    requires
        0 < n <= blocks.len(),
    ensures
        ({
            let all = hover_segments::doc_segments(blocks, cx, n);
            let before = hover_segments::doc_segments(blocks, cx, n - 1);
            let own = hover_segments::block_segments(blocks[n - 1], cx);
            let gap = if n == 1 { 0u32 } else if blocks[n - 1].kind is Heading { 12u32 } else { 8u32 };
            &&& all.len() == before.len() + own.len()
            &&& all.take(before.len() as int) == before
            &&& own.len() > 0 ==> all[before.len() as int].top_gap == if own[0].top_gap < gap { gap } else { own[0].top_gap }
            &&& own.len() > 0 ==> all[before.len() as int].text == own[0].text && all[before.len() as int].kind == own[0].kind
            &&& forall|i: int| 0 < i < own.len() ==> #[trigger] all[before.len() + i] == own[i]
        }),
{
    let all = hover_segments::doc_segments(blocks, cx, n);
    let before = hover_segments::doc_segments(blocks, cx, n - 1);
    assert(all.take(before.len() as int) =~= before);
}

} // verus!
