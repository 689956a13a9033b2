//! How lines are painted: colors, underlines, highlighted stretches, links and sections.
use vstd::prelude::*;

use crate::buffer_view;
use crate::buffer_view::{ColorRole, DiagnosticEntry, Severity, TextRun, Underline};
use crate::document::Selection;
use crate::hover_popover;
use crate::laws::editing;
use crate::laws::hover;
use crate::laws::popover;
use crate::line_paint;
use crate::line_paint::{HighlightKind, HighlightRect, LinePlace};
use crate::markdown::{HighlightSpan, OutlineItem};
use crate::outline_overlay;
use crate::outline_overlay::OutlineRow;
use crate::search::Match;
use crate::text;

verus! {

// ── Syntax ────────────────────────────────────────────────────────────────────

/// Whether byte `p` of a line of `n` bytes is in a span.
pub open spec fn in_span(s: HighlightSpan, n: int, p: int) -> bool {
    s.start_byte_col <= p < popover::ends_at(s, n)
}

proof fn pieces_lie_in_spans(spans: Seq<HighlightSpan>, n: int, bs: Seq<usize>, i: int, p: int, k: int)
    requires
        buffer_view::breakpoints(spans, n, bs),
        0 <= n <= usize::MAX,
        0 <= i,
        i + 1 < bs.len(),
        bs[i] <= p < bs[i + 1],
        0 <= k < spans.len(),
    ensures
        buffer_view::covers(spans[k], n, bs[i] as int, bs[i + 1] as int) <==> in_span(spans[k], n, p),
        p < n,
{
    let s = spans[k];
    let a = buffer_view::span_start(s, n);
    let b = buffer_view::span_end(s, n);
    assert(bs[i + 1] <= n);
    if a < b {
        assert(buffer_view::breaks_at(spans, n, a as usize as int));
        assert(bs.contains(a as usize));
        let j = choose|j: int| 0 <= j < bs.len() && bs[j] == a as usize;
        assert(buffer_view::breaks_at(spans, n, b as usize as int));
        assert(bs.contains(b as usize));
        let m = choose|m: int| 0 <= m < bs.len() && bs[m] == b as usize;
        if a <= p {
            if j > i {
                assert(j == i + 1 || bs[i + 1] < bs[j]);
            }
            assert(j == i || j < i);
            assert(j < i ==> bs[j] < bs[i]);
        }
        if b > p {
            if m <= i {
                assert(m == i || bs[m] < bs[i]);
            }
            assert(m > i + 1 ==> bs[i + 1] < bs[m]);
        }
    } else {
        assert(bs[i] < bs[i + 1]);
    }
}

proof fn last_cover_colors(spans: Seq<HighlightSpan>, n: int, a: int, b: int, k: int)
    requires
        -1 <= k < spans.len(),
        forall|j: int| k < j < spans.len() ==> !buffer_view::covers(#[trigger] spans[j], n, a, b),
        k >= 0 ==> buffer_view::covers(spans[k], n, a, b),
    ensures
        buffer_view::span_color(spans, n, a, b) == if k < 0 { ColorRole::Text } else { ColorRole::Syntax(spans[k].token) },
    decreases spans.len(),
{
    if spans.len() > 0 && k < spans.len() - 1 {
        assert(spans.last() == spans[spans.len() - 1]);
        let rest = spans.drop_last();
        assert forall|j: int| k < j < rest.len() implies !buffer_view::covers(#[trigger] rest[j], n, a, b) by {
            assert(rest[j] == spans[j]);
        }
        last_cover_colors(rest, n, a, b, k);
    }
}

/// A byte of a line without problems has the color of the last of the spans that it is in; in none,
/// it has the color of text.
pub proof fn last_span_colors(
    line: Seq<char>,
    spans: Seq<HighlightSpan>,
    bs: Seq<usize>,
    runs: Seq<TextRun>,
    i: int,
    p: int,
    k: int,
)
    requires
        buffer_view::paints(line, spans, Seq::empty(), bs, runs),
        text::byte_count(line) <= usize::MAX,
        0 <= i < runs.len(),
        bs[i] <= p < bs[i + 1],
        -1 <= k < spans.len(),
        forall|j: int| k < j < spans.len() ==> !in_span(#[trigger] spans[j], text::byte_count(line), p),
        k >= 0 ==> in_span(spans[k], text::byte_count(line), p),
    ensures
        runs[i].color == if k < 0 { ColorRole::Text } else { ColorRole::Syntax(spans[k].token) },
        runs[i].len == bs[i + 1] - bs[i],
        runs[i].underline is None && runs[i].strikethrough is None && runs[i].background is None,
        runs[i].font.mono && !runs[i].font.bold && !runs[i].font.italic,
{
    let n = text::byte_count(line);
    let a = bs[i] as int;
    let b = bs[i + 1] as int;
    assert forall|j: int| k < j < spans.len() implies !buffer_view::covers(#[trigger] spans[j], n, a, b) by {
        pieces_lie_in_spans(spans, n, bs, i, p, j);
    }
    if k >= 0 {
        pieces_lie_in_spans(spans, n, bs, i, p, k);
    }
    last_cover_colors(spans, n, a, b, k);
    assert(bs[i] < bs[i + 1]);
    assert(runs[i] == buffer_view::plain_mono(b - a, buffer_view::span_color(spans, n, a, b)));
}

// ── Problems ──────────────────────────────────────────────────────────────────

/// The byte of a line that column `col` is at.
pub open spec fn byte_at(line: Seq<char>, col: usize) -> int {
    if col < line.len() { text::byte_count(line.take(col as int)) } else { text::byte_count(line) }
}

/// Whether a problem is about any of the bytes from `a` to `b` of its line.
pub open spec fn reaches(d: DiagnosticEntry, line: Seq<char>, a: int, b: int) -> bool {
    let start = byte_at(line, d.start_char);
    let end = byte_at(line, d.end_char);
    start < end && start < b && a < end
}

proof fn reaching_is_touching(d: DiagnosticEntry, line: Seq<char>, a: int, b: int)
    ensures
        buffer_view::touches(d, line, a, b) <==> reaches(d, line, a, b),
{
    assert(line.take(line.len() as int) =~= line);
}

/// The color that the problems of a severity have.
pub open spec fn problem_color(s: Severity) -> ColorRole {
    match s {
        Severity::Error => ColorRole::Error,
        Severity::Warning => ColorRole::Warning,
        Severity::Information => ColorRole::Info,
        Severity::Hint => ColorRole::TextMuted,
    }
}

/// Text has a wavy line below it in the color of the first problem that is about it; text that no
/// problem is about is left as it is.
pub proof fn first_problem_underlines(run: TextRun, line: Seq<char>, ds: Seq<DiagnosticEntry>, a: int, b: int, k: int)
    requires
        run.underline is None,
        0 <= k <= ds.len(),
        forall|j: int| 0 <= j < k ==> !reaches(#[trigger] ds[j], line, a, b),
        k < ds.len() ==> reaches(ds[k], line, a, b),
    ensures
        k == ds.len() ==> buffer_view::decorated(run, line, ds, a, b) == run,
        k < ds.len() ==> buffer_view::decorated(run, line, ds, a, b).underline == Some(
            Underline { color: problem_color(ds[k].severity), wavy: true },
        ),
        buffer_view::decorated(run, line, ds, a, b).len == run.len,
        buffer_view::decorated(run, line, ds, a, b).font == run.font,
        buffer_view::decorated(run, line, ds, a, b).background == run.background,
    decreases ds.len(),
{
    if ds.len() > 0 {
        let rest = ds.drop_last();
        let m = if k < rest.len() { k } else { rest.len() as int };
        assert forall|j: int| 0 <= j < m implies !reaches(#[trigger] rest[j], line, a, b) by {
            assert(rest[j] == ds[j]);
        }
        if m < rest.len() {
            assert(rest[m] == ds[m]);
        }
        first_problem_underlines(run, line, rest, a, b, m);
        reaching_is_touching(ds.last(), line, a, b);
        assert(ds.last() == ds[ds.len() - 1]);
    }
}

/// What is deprecated is struck through, what is unnecessary is muted, and nothing else is.
pub proof fn tags_strike_and_mute(run: TextRun, line: Seq<char>, ds: Seq<DiagnosticEntry>, a: int, b: int)
    requires
        run.strikethrough is None,
    ensures
        buffer_view::decorated(run, line, ds, a, b).strikethrough is Some <==> exists|j: int|
            0 <= j < ds.len() && (#[trigger] ds[j]).deprecated && reaches(ds[j], line, a, b),
        (exists|j: int| 0 <= j < ds.len() && (#[trigger] ds[j]).unnecessary && reaches(ds[j], line, a, b))
            ==> buffer_view::decorated(run, line, ds, a, b).color == ColorRole::TextMuted,
        !(exists|j: int| 0 <= j < ds.len() && (#[trigger] ds[j]).unnecessary && reaches(ds[j], line, a, b))
            ==> buffer_view::decorated(run, line, ds, a, b).color == run.color,
    decreases ds.len(),
{
    if ds.len() > 0 {
        let rest = ds.drop_last();
        let d = ds.last();
        tags_strike_and_mute(run, line, rest, a, b);
        reaching_is_touching(d, line, a, b);
        assert(ds[ds.len() - 1] == d);
        assert(forall|j: int| 0 <= j < rest.len() ==> rest[j] == ds[j]);
        let before = buffer_view::decorated(run, line, rest, a, b);
        if exists|j: int| 0 <= j < ds.len() && (#[trigger] ds[j]).deprecated && reaches(ds[j], line, a, b) {
            let j = choose|j: int| 0 <= j < ds.len() && (#[trigger] ds[j]).deprecated && reaches(ds[j], line, a, b);
            if j < rest.len() {
                assert(rest[j] == ds[j]);
                assert(before.strikethrough is Some);
            }
        }
        if before.strikethrough is Some {
            let j = choose|j: int| 0 <= j < rest.len() && (#[trigger] rest[j]).deprecated && reaches(rest[j], line, a, b);
            assert(ds[j] == rest[j]);
        }
        if exists|j: int| 0 <= j < ds.len() && (#[trigger] ds[j]).unnecessary && reaches(ds[j], line, a, b) {
            let j = choose|j: int| 0 <= j < ds.len() && (#[trigger] ds[j]).unnecessary && reaches(ds[j], line, a, b);
            if j < rest.len() {
                assert(rest[j] == ds[j]);
            }
        }
        if exists|j: int| 0 <= j < rest.len() && (#[trigger] rest[j]).unnecessary && reaches(rest[j], line, a, b) {
            let j = choose|j: int| 0 <= j < rest.len() && (#[trigger] rest[j]).unnecessary && reaches(rest[j], line, a, b);
            assert(ds[j] == rest[j]);
        }
    }
}

/// The problems of a line are those of all that are on it.
pub proof fn problems_stay_on_their_line(ds: Seq<DiagnosticEntry>, n: int, d: DiagnosticEntry)
    ensures
        line_paint::on_line(ds, n).contains(d) <==> ds.contains(d) && d.lsp_line == n,
    decreases ds.len(),
{
    if ds.len() > 0 {
        let rest = ds.drop_last();
        let last = ds.last();
        problems_stay_on_their_line(rest, n, d);
        assert(ds =~= rest.push(last));
        let before = line_paint::on_line(rest, n);
        let all = line_paint::on_line(ds, n);
        if before.contains(d) {
            let k = choose|k: int| 0 <= k < before.len() && before[k] == d;
            assert(all[k] == d);
        }
        if rest.contains(d) {
            let k = choose|k: int| 0 <= k < rest.len() && rest[k] == d;
            assert(ds[k] == d);
        }
        if ds.contains(d) {
            let k = choose|k: int| 0 <= k < ds.len() && ds[k] == d;
            if k < rest.len() {
                assert(rest[k] == d);
            } else if d.lsp_line == n {
                assert(all.last() == d);
            }
        }
        if all.contains(d) {
            let k = choose|k: int| 0 <= k < all.len() && all[k] == d;
            if k < before.len() {
                assert(before[k] == d);
            } else {
                assert(d == last && ds[ds.len() - 1] == d);
            }
        }
    }
}

// ── Highlighted stretches ─────────────────────────────────────────────────────

/// Whether byte `b` is in one of the stretches of a kind.
pub open spec fn lit(rects: Seq<HighlightRect>, kind: HighlightKind, b: int) -> bool {
    exists|i: int| 0 <= i < rects.len() && (#[trigger] rects[i]).kind == kind && rects[i].start <= b < rects[i].end
}

proof fn lit_in_either(a: Seq<HighlightRect>, b: Seq<HighlightRect>, kind: HighlightKind, p: int)
    ensures
        lit(a + b, kind, p) <==> lit(a, kind, p) || lit(b, kind, p),
{
    let all = a + b;
    if lit(a, kind, p) {
        let i = choose|i: int| 0 <= i < a.len() && (#[trigger] a[i]).kind == kind && a[i].start <= p < a[i].end;
        assert(all[i] == a[i]);
    }
    if lit(b, kind, p) {
        let i = choose|i: int| 0 <= i < b.len() && (#[trigger] b[i]).kind == kind && b[i].start <= p < b[i].end;
        assert(all[a.len() + i] == b[i]);
    }
    if lit(all, kind, p) {
        let i = choose|i: int| 0 <= i < all.len() && (#[trigger] all[i]).kind == kind && all[i].start <= p < all[i].end;
        if i < a.len() {
            assert(a[i] == all[i]);
        } else {
            assert(b[i - a.len()] == all[i]);
        }
    }
}

proof fn rect_lights(line: Seq<char>, a: int, b: int, kind: HighlightKind, other: HighlightKind, c: int)
    requires
        0 <= a,
        0 <= b,
        0 <= c < line.len(),
        text::byte_count(line) <= usize::MAX,
    ensures
        lit(line_paint::rect_of(line, a, b, kind), other, text::byte_pos(line, c)) <==> kind == other && a <= c < b,
{
    let n = line.len() as int;
    let x = if a < n { a } else { n };
    let y = if b < n { b } else { n };
    if x <= c {
        text::byte_pos_grows(line, x, c);
    } else {
        text::byte_pos_grows(line, c, x);
    }
    if y <= c {
        text::byte_pos_grows(line, y, c);
    } else {
        text::byte_pos_grows(line, c, y);
    }
    let rects = line_paint::rect_of(line, a, b, kind);
    let s = text::byte_pos(line, x);
    let e = text::byte_pos(line, y);
    assert(buffer_view::byte_col(line, a) == s && buffer_view::byte_col(line, b) == e);
    if s < e {
        assert(rects[0] == (HighlightRect { start: s as usize, end: e as usize, kind }));
    }
}

/// A character is lit as an occurrence of the word just where it is part of it.
pub proof fn words_are_lit(line: Seq<char>, place: LinePlace, occ: Match, c: int)
    requires
        0 <= c < line.len(),
        text::byte_count(line) <= usize::MAX,
    ensures
        lit(line_paint::word_rect(line, place, occ), HighlightKind::Word, text::byte_pos(line, c)) <==> occ.start <= place.start
            + c < occ.end,
        forall|kind: HighlightKind| kind != HighlightKind::Word ==> !#[trigger] lit(
            line_paint::word_rect(line, place, occ),
            kind,
            text::byte_pos(line, c),
        ),
{
    let n = line.len() as int;
    let a = if occ.start < place.start { 0 } else { occ.start - place.start };
    let b = if occ.end < place.start { 0 } else { occ.end - place.start };
    let x = if a < n { a } else { n };
    let y = if b < n { b } else { n };
    rect_lights(line, x, y, HighlightKind::Word, HighlightKind::Word, c);
    assert forall|kind: HighlightKind| kind != HighlightKind::Word implies !#[trigger] lit(
        line_paint::word_rect(line, place, occ),
        kind,
        text::byte_pos(line, c),
    ) by {
        rect_lights(line, x, y, HighlightKind::Word, kind, c);
    }
}

/// A bracket is lit where it stands, and nowhere else.
pub proof fn brackets_are_lit(line: Seq<char>, place: LinePlace, pos: usize, c: int)
    requires
        0 <= c < line.len(),
        text::byte_count(line) <= usize::MAX,
    ensures
        lit(line_paint::bracket_rect(line, place, pos), HighlightKind::Word, text::byte_pos(line, c)) <==> pos == place.start + c,
        forall|kind: HighlightKind| kind != HighlightKind::Word ==> !#[trigger] lit(
            line_paint::bracket_rect(line, place, pos),
            kind,
            text::byte_pos(line, c),
        ),
{
    if place.start <= pos < place.start + line.len() {
        let a = pos - place.start;
        rect_lights(line, a, a + 1, HighlightKind::Word, HighlightKind::Word, c);
        assert forall|kind: HighlightKind| kind != HighlightKind::Word implies !#[trigger] lit(
            line_paint::bracket_rect(line, place, pos),
            kind,
            text::byte_pos(line, c),
        ) by {
            rect_lights(line, a, a + 1, HighlightKind::Word, kind, c);
        }
    }
}

/// A character is lit as a match of the search just where it is part of it, and as the active one
/// where that is the active match.
pub proof fn matches_are_lit(line: Seq<char>, place: LinePlace, m: Match, active: bool, kind: HighlightKind, c: int)
    requires
        0 <= c < line.len(),
        text::byte_count(line) <= usize::MAX,
    ensures
        lit(line_paint::match_rect(line, place, m, active), kind, text::byte_pos(line, c)) <==> m.start <= place.start + c
            < m.end && kind == if active { HighlightKind::ActiveMatch } else { HighlightKind::Match },
{
    let end = place.start + line.len();
    if m.start <= end && m.end >= place.start {
        let a = if m.start < place.start { 0 } else { m.start - place.start };
        let b = if m.end < end { m.end - place.start } else { line.len() as int };
        rect_lights(line, a, b, if active { HighlightKind::ActiveMatch } else { HighlightKind::Match }, kind, c);
    }
}

proof fn all_words(line: Seq<char>, place: LinePlace, occs: Seq<Match>, k: int, kind: HighlightKind, c: int)
    requires
        0 <= k <= occs.len(),
        0 <= c < line.len(),
        text::byte_count(line) <= usize::MAX,
    ensures
        lit(line_paint::word_rects(line, place, occs, k), kind, text::byte_pos(line, c)) <==> kind == HighlightKind::Word && exists|
            j: int,
        |
            0 <= j < k && (#[trigger] occs[j]).start <= place.start + c < occs[j].end,
    decreases k,
{
    if k > 0 {
        all_words(line, place, occs, k - 1, kind, c);
        words_are_lit(line, place, occs[k - 1], c);
        lit_in_either(
            line_paint::word_rects(line, place, occs, k - 1),
            line_paint::word_rect(line, place, occs[k - 1]),
            kind,
            text::byte_pos(line, c),
        );
        if kind != HighlightKind::Word {
            assert(!lit(line_paint::word_rect(line, place, occs[k - 1]), kind, text::byte_pos(line, c)));
        }
    }
}

proof fn all_matches(line: Seq<char>, place: LinePlace, ms: Seq<Match>, active: int, k: int, kind: HighlightKind, c: int)
    requires
        0 <= k <= ms.len(),
        0 <= c < line.len(),
        text::byte_count(line) <= usize::MAX,
    ensures
        lit(line_paint::match_rects(line, place, ms, active, k), kind, text::byte_pos(line, c)) <==> exists|j: int|
            0 <= j < k && (#[trigger] ms[j]).start <= place.start + c < ms[j].end && kind == if j == active {
                HighlightKind::ActiveMatch
            } else {
                HighlightKind::Match
            },
    decreases k,
{
    if k > 0 {
        all_matches(line, place, ms, active, k - 1, kind, c);
        matches_are_lit(line, place, ms[k - 1], k - 1 == active, kind, c);
        lit_in_either(
            line_paint::match_rects(line, place, ms, active, k - 1),
            line_paint::match_rect(line, place, ms[k - 1], k - 1 == active),
            kind,
            text::byte_pos(line, c),
        );
    }
}

/// Whether the character at position `pos` of the text is selected.
pub open spec fn is_selected(sel: Selection, pos: int) -> bool {
    editing::lower(sel.anchor, sel.head) <= pos < editing::upper(sel.anchor, sel.head)
}

/// On every line the selected characters are lit as such, and no others; so are the matches of the
/// search, the active one in a way of its own.
pub proof fn lines_light_what_is_selected_and_found(
    line: Seq<char>,
    place: LinePlace,
    sel: Selection,
    occs: Seq<Match>,
    brackets: Option<(usize, usize)>,
    ms: Seq<Match>,
    active: int,
    c: int,
)
    requires
        0 <= c < line.len(),
        text::byte_count(line) <= usize::MAX,
        place.next_start is Some ==> place.start + line.len() <= place.next_start->0,
        place.next_start is None ==> place.start + line.len() <= place.doc_len,
    ensures
        ({
            let rects = line_paint::line_rects(line, place, sel, occs, brackets, ms, active);
            let b = text::byte_pos(line, c);
            &&& lit(rects, HighlightKind::Selection, b) <==> is_selected(sel, place.start + c)
            &&& lit(rects, HighlightKind::ActiveMatch, b) <==> 0 <= active < ms.len() && ms[active].start <= place.start + c
                < ms[active].end
            &&& lit(rects, HighlightKind::Match, b) <==> exists|j: int|
                0 <= j < ms.len() && j != active && (#[trigger] ms[j]).start <= place.start + c < ms[j].end
        }),
{
    let b = text::byte_pos(line, c);
    let (x, y) = line_paint::selected_columns(line, place, sel);
    let first = if line_paint::selection_on_line(place, sel) && x < y {
        line_paint::rect_of(line, x, y, HighlightKind::Selection)
    } else {
        line_paint::word_rects(line, place, occs, occs.len() as int) + line_paint::bracket_rects(line, place, brackets)
    };
    let rest = line_paint::match_rects(line, place, ms, active, ms.len() as int);
    stretches_lit(line, place, sel, occs, brackets, c, HighlightKind::Selection);
    stretches_lit(line, place, sel, occs, brackets, c, HighlightKind::ActiveMatch);
    stretches_lit(line, place, sel, occs, brackets, c, HighlightKind::Match);
    all_matches(line, place, ms, active, ms.len() as int, HighlightKind::Selection, c);
    all_matches(line, place, ms, active, ms.len() as int, HighlightKind::ActiveMatch, c);
    all_matches(line, place, ms, active, ms.len() as int, HighlightKind::Match, c);
    lit_in_either(first, rest, HighlightKind::Selection, b);
    lit_in_either(first, rest, HighlightKind::ActiveMatch, b);
    lit_in_either(first, rest, HighlightKind::Match, b);
    if 0 <= active < ms.len() && ms[active].start <= place.start + c < ms[active].end {
        assert(ms[active].start <= place.start + c);
    }
}

/// What is lit of a line besides matches.
spec fn stretches(line: Seq<char>, place: LinePlace, sel: Selection, occs: Seq<Match>, brackets: Option<(usize, usize)>) -> Seq<
    HighlightRect,
> {
    let (x, y) = line_paint::selected_columns(line, place, sel);
    if line_paint::selection_on_line(place, sel) && x < y {
        line_paint::rect_of(line, x, y, HighlightKind::Selection)
    } else {
        line_paint::word_rects(line, place, occs, occs.len() as int) + line_paint::bracket_rects(line, place, brackets)
    }
}

proof fn stretches_lit(
    line: Seq<char>,
    place: LinePlace,
    sel: Selection,
    occs: Seq<Match>,
    brackets: Option<(usize, usize)>,
    c: int,
    kind: HighlightKind,
)
    requires
        0 <= c < line.len(),
        text::byte_count(line) <= usize::MAX,
        place.next_start is Some ==> place.start + line.len() <= place.next_start->0,
        place.next_start is None ==> place.start + line.len() <= place.doc_len,
        kind != HighlightKind::Word,
    ensures
        lit(stretches(line, place, sel, occs, brackets), kind, text::byte_pos(line, c)) <==> kind == HighlightKind::Selection
            && is_selected(sel, place.start + c),
{
    let (x, y) = line_paint::selected_columns(line, place, sel);
    let b = text::byte_pos(line, c);
    if line_paint::selection_on_line(place, sel) && x < y {
        rect_lights(line, x, y, HighlightKind::Selection, kind, c);
    } else {
        let words = line_paint::word_rects(line, place, occs, occs.len() as int);
        let pair = line_paint::bracket_rects(line, place, brackets);
        all_words(line, place, occs, occs.len() as int, kind, c);
        lit_in_either(words, pair, kind, b);
        if let Some((open, close)) = brackets {
            brackets_are_lit(line, place, open, c);
            brackets_are_lit(line, place, close, c);
            lit_in_either(
                line_paint::bracket_rect(line, place, open),
                line_paint::bracket_rect(line, place, close),
                kind,
                b,
            );
            assert(!lit(line_paint::bracket_rect(line, place, open), kind, b));
            assert(!lit(line_paint::bracket_rect(line, place, close), kind, b));
        }
    }
}

/// With nothing selected on a line, the occurrences of the word and the brackets are lit.
pub proof fn lines_light_words_and_brackets(
    line: Seq<char>,
    place: LinePlace,
    sel: Selection,
    occs: Seq<Match>,
    open: usize,
    close: usize,
    ms: Seq<Match>,
    active: int,
    c: int,
)
    requires
        0 <= c < line.len(),
        text::byte_count(line) <= usize::MAX,
        sel.anchor == sel.head,
    ensures
        lit(
            line_paint::line_rects(line, place, sel, occs, Some((open, close)), ms, active),
            HighlightKind::Word,
            text::byte_pos(line, c),
        ) <==> open == place.start + c || close == place.start + c || exists|j: int|
            0 <= j < occs.len() && (#[trigger] occs[j]).start <= place.start + c < occs[j].end,
{
    let b = text::byte_pos(line, c);
    let kind = HighlightKind::Word;
    let words = line_paint::word_rects(line, place, occs, occs.len() as int);
    let one = line_paint::bracket_rect(line, place, open);
    let two = line_paint::bracket_rect(line, place, close);
    all_words(line, place, occs, occs.len() as int, kind, c);
    brackets_are_lit(line, place, open, c);
    brackets_are_lit(line, place, close, c);
    lit_in_either(one, two, kind, b);
    lit_in_either(words, one + two, kind, b);
    all_matches(line, place, ms, active, ms.len() as int, kind, c);
    lit_in_either(words + (one + two), line_paint::match_rects(line, place, ms, active, ms.len() as int), kind, b);
}

/// The caret is on the line that it stands in; at the end of the text, on the last.
pub proof fn caret_is_on_its_line(place: LinePlace, sel: Selection)
    ensures
        place.next_start is Some ==> (line_paint::caret_on_line(place, sel) <==> place.start <= sel.head && sel.head
            < place.next_start->0),
        place.next_start is None ==> (line_paint::caret_on_line(place, sel) <==> place.start <= sel.head && sel.head
            <= place.doc_len),
{
}

/// A link is shown as one, character for character: in the color of links, with a line below it. All
/// else stays as it is.
pub proof fn links_are_shown(line: Seq<char>, start: int, from: int, to: int, runs: Seq<TextRun>, c: int)
    requires
        0 <= start,
        0 <= from,
        0 <= to,
        0 <= c < line.len(),
        buffer_view::total_len(runs) == text::byte_count(line),
    ensures
        ({
            let out = line_paint::with_link(line, start, from, to, runs);
            let p = text::byte_pos(line, c);
            let a = hover::run_at(runs, p);
            let b = hover::run_at(out, p);
            &&& buffer_view::total_len(out) == buffer_view::total_len(runs)
            &&& from <= start + c < to ==> b.color == ColorRole::Accent && b.underline == Some(
                Underline { color: ColorRole::Accent, wavy: false },
            )
            &&& !(from <= start + c < to) ==> b.color == a.color && b.underline == a.underline
            &&& b.font == a.font && b.background == a.background && b.strikethrough == a.strikethrough
        }),
{
    let n = line.len() as int;
    let x0 = if from < start { 0 } else { from - start };
    let y0 = if to < start { 0 } else { to - start };
    let x = if x0 < n { x0 } else { n };
    let y = if y0 < n { y0 } else { n };
    text::byte_pos_grows(line, c, c + 1);
    text::byte_pos_grows(line, 0, c);
    text::byte_pos_grows(line, 0, x);
    if x <= c {
        text::byte_pos_grows(line, x, c);
    } else {
        text::byte_pos_grows(line, c, x);
    }
    if y <= c {
        text::byte_pos_grows(line, y, c);
    } else {
        text::byte_pos_grows(line, c, y);
    }
    let s = buffer_view::byte_col(line, x);
    let e = buffer_view::byte_col(line, y);
    let p = text::byte_pos(line, c);
    assert(s == text::byte_pos(line, x) && e == text::byte_pos(line, y));
    if from < start + n && to > start && s < e {
        let style = |run: TextRun| line_paint::link_run(run);
        hover::cutting_styles_a_stretch(runs, s, e, style, p);
        assert(line_paint::with_link(line, start, from, to, runs) =~= hover::styled(
            hover_popover::cut_runs(runs, s, e),
            style,
        ));
    }
}

// ── Sections ──────────────────────────────────────────────────────────────────

proof fn below_bounds(items: Seq<OutlineItem>, line: int, from: int)
    requires
        0 <= from <= items.len(),
    ensures
        from <= outline_overlay::first_below(items, line, from) <= items.len(),
        forall|j: int| from <= j < outline_overlay::first_below(items, line, from) ==> (#[trigger] items[j]).source_line <= line,
        outline_overlay::first_below(items, line, from) < items.len() ==> items[outline_overlay::first_below(items, line, from)].source_line
            > line,
    decreases items.len() - from,
{
    if from < items.len() && items[from].source_line <= line {
        below_bounds(items, line, from + 1);
    }
}

proof fn next_bounds(items: Seq<OutlineItem>, depth: u32, from: int, j: int)
    requires
        0 <= from <= j <= items.len(),
        forall|k: int| from <= k < j ==> (#[trigger] items[k]).depth > depth,
        j < items.len() ==> items[j].depth <= depth,
    ensures
        j < items.len() ==> outline_overlay::next_section(items, depth, from) == items[j].source_line,
        j == items.len() ==> outline_overlay::next_section(items, depth, from) == usize::MAX,
    decreases j - from,
{
    if from < j {
        next_bounds(items, depth, from + 1, j);
    }
}

/// The section of a heading ends with the line of the first heading below it that is no deeper, or
/// with the document; headings that are deeper belong to it.
pub proof fn sections_end_at_the_next_heading(items: Seq<OutlineItem>, i: int, b: int, j: int)
    requires
        0 <= i < items.len(),
        items[i].block_ix is Some,
        0 <= b <= j <= items.len(),
        forall|k: int| 0 <= k < b ==> (#[trigger] items[k]).source_line <= items[i].source_line,
        b < items.len() ==> items[b].source_line > items[i].source_line,
        forall|k: int| b <= k < j ==> (#[trigger] items[k]).depth > items[i].depth,
        j < items.len() ==> items[j].depth <= items[i].depth,
    ensures
        j < items.len() ==> outline_overlay::section_end(items, i) == items[j].source_line,
        j == items.len() ==> outline_overlay::section_end(items, i) == usize::MAX,
{
    let line = items[i].source_line as int;
    below_bounds(items, line, 0);
    let f = outline_overlay::first_below(items, line, 0);
    if f < b {
        assert(items[f].source_line <= items[i].source_line);
    }
    if b < f {
        assert(items[b].source_line <= line);
    }
    next_bounds(items, items[i].depth, b, j);
}

/// The section of anything but a heading ends behind its last line.
pub proof fn code_sections_end_with_their_lines(items: Seq<OutlineItem>, i: int)
    requires
        0 <= i < items.len(),
        items[i].block_ix is None,
    ensures
        outline_overlay::section_end(items, i) == items[i].end_line + 1,
{
}

/// The outline lists, in their order, the entries whose name holds the query, whatever the case of
/// either; without a query it lists all.
pub proof fn outline_lists_what_matches(items: Seq<OutlineItem>, query: Seq<char>, ix: Seq<usize>, i: usize)
    requires
        outline_overlay::listed(items, query, ix),
        i < items.len(),
    ensures
        ix.contains(i) <==> query.len() == 0 || text::contains(
            text::lowered_text(items[i as int].name@),
            text::lowered_text(query),
        ),
{
    if ix.contains(i) {
        let k = choose|k: int| 0 <= k < ix.len() && ix[k] == i;
        assert(outline_overlay::matches_query(items[ix[k] as int], query));
    }
    if outline_overlay::matches_query(items[i as int], query) {
        assert(ix.contains(i));
    }
}

/// A row of the outline shows its entry, indented the further the deeper it is, and leads to the
/// line of the entry.
pub proof fn outline_rows_show_their_entry(items: Seq<OutlineItem>, i: int, list_ix: int, hovered: Option<usize>, row: OutlineRow)
    requires
        outline_overlay::shows_item(items, i, list_ix, hovered, row),
        0 <= list_ix <= usize::MAX,
    ensures
        row.name@ == items[i].name@,
        row.source_line == items[i].source_line,
        row.indent == 14 * items[i].depth,
        row.hovered <==> hovered is Some && hovered->0 == list_ix,
{
}

/// Enter goes to the first entry that matches.
pub proof fn first_match_is_gone_to(items: Seq<OutlineItem>, query: Seq<char>, line: Option<usize>, i: int)
    requires
        outline_overlay::first_line(items, query, line),
        0 <= i < items.len(),
        query.len() == 0 || text::contains(text::lowered_text(items[i].name@), text::lowered_text(query)),
        forall|j: int|
            0 <= j < i ==> query.len() > 0 && !text::contains(
                text::lowered_text((#[trigger] items[j]).name@),
                text::lowered_text(query),
            ),
    ensures
        line == Some(items[i].source_line),
{
    assert(outline_overlay::matches_query(items[i], query));
    if line is None {
        assert(!outline_overlay::matches_query(items[i], query));
    } else {
        let k = choose|k: int|
            0 <= k < items.len() && outline_overlay::matches_query(#[trigger] items[k], query) && items[k].source_line == line->0
                && forall|j: int| 0 <= j < k ==> !outline_overlay::matches_query(#[trigger] items[j], query);
        if k < i {
            assert(query.len() > 0);
        }
        if i < k {
            assert(!outline_overlay::matches_query(items[i], query));
        }
    }
}

// ── Pieces of a line ──────────────────────────────────────────────────────────

/// What pieces read one behind the other.
pub open spec fn pieces_read(pieces: Seq<(Seq<char>, ColorRole)>) -> Seq<char>
    decreases pieces.len(),
{
    if pieces.len() == 0 { Seq::empty() } else { pieces_read(pieces.drop_last()) + pieces.last().0 }
}

proof fn first_pieces_read(line: Seq<char>, runs: Seq<TextRun>, k: int)
    requires
        hover_popover::runs_tile(runs, line),
        0 <= k <= runs.len(),
    ensures
        buffer_view::pieces_of(line, runs, k).len() == k,
        pieces_read(buffer_view::pieces_of(line, runs, k)) == line.take(
            text::char_from(line, buffer_view::total_len(runs.take(k))),
        ),
    decreases k,
{
    let pieces = buffer_view::pieces_of(line, runs, k);
    if k == 0 {
        assert(runs.take(0) =~= Seq::empty());
        assert(pieces_read(pieces) =~= line.take(0));
    } else {
        first_pieces_read(line, runs, k - 1);
        let a = buffer_view::total_len(runs.take(k - 1));
        let b = buffer_view::total_len(runs.take(k));
        assert(runs.take(k).drop_last() =~= runs.take(k - 1));
        assert(a <= b);
        assert(text::starts_char(line, a) && text::starts_char(line, b));
        text::char_from_grows(line, a, b);
        let x = text::char_from(line, a);
        let y = text::char_from(line, b);
        assert(pieces.drop_last() =~= buffer_view::pieces_of(line, runs, k - 1));
        assert(pieces_read(pieces) =~= line.take(x) + line.subrange(x, y));
        assert(line.take(x) + line.subrange(x, y) =~= line.take(y));
    }
}

/// The pieces of a line read as the line does, and each has the color of its run.
pub proof fn pieces_read_as_the_line(line: Seq<char>, runs: Seq<TextRun>, i: int)
    requires
        hover_popover::runs_tile(runs, line),
        0 <= i < runs.len(),
    ensures
        pieces_read(buffer_view::pieces_of(line, runs, runs.len() as int)) == line,
        buffer_view::pieces_of(line, runs, runs.len() as int).len() == runs.len(),
        buffer_view::pieces_of(line, runs, runs.len() as int)[i].1 == runs[i].color,
{
    let n = runs.len() as int;
    first_pieces_read(line, runs, n);
    assert(runs.take(n) =~= runs);
    assert(line.take(line.len() as int) =~= line);
    text::starts_char_at(line, line.len() as int);
    piece_colors(line, runs, n, i);
}

proof fn piece_colors(line: Seq<char>, runs: Seq<TextRun>, k: int, i: int)
    requires
        0 <= i < k <= runs.len(),
    ensures
        buffer_view::pieces_of(line, runs, k).len() == k,
        buffer_view::pieces_of(line, runs, k)[i].1 == runs[i].color,
    decreases k,
{
    if i < k - 1 {
        piece_colors(line, runs, k - 1, i);
    } else if k > 1 {
        piece_colors(line, runs, k - 1, 0);
    } else {
        assert(buffer_view::pieces_of(line, runs, 0).len() == 0);
    }
}

/// What does not start and end with characters reads as nothing.
pub proof fn broken_pieces_read_as_nothing(line: Seq<char>, a: int, b: int)
    ensures
        !text::starts_char(line, a) || !text::starts_char(line, b) ==> buffer_view::text_between(line, a, b).len() == 0,
{
}

/// A selection is on a line where it is not empty, starts before the line ends and ends behind its
/// start.
pub proof fn selections_are_on_the_lines_they_touch(place: LinePlace, sel: Selection)
    ensures
        sel.anchor == sel.head ==> !line_paint::selection_on_line(place, sel),
        sel.anchor != sel.head && place.next_start is Some ==> (line_paint::selection_on_line(place, sel) <==> editing::lower(
            sel.anchor,
            sel.head,
        ) < place.next_start->0 && place.start < editing::upper(sel.anchor, sel.head)),
        sel.anchor != sel.head && place.next_start is None ==> (line_paint::selection_on_line(place, sel) <==> editing::lower(
            sel.anchor,
            sel.head,
        ) <= place.doc_len && place.start < editing::upper(sel.anchor, sel.head)),
{
}

} // verus!
