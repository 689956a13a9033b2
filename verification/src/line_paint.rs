//! What is painted on one line of an editor: highlights, selection, caret, and the runs of its
//! text.
use vstd::prelude::*;

use crate::buffer_view;
use crate::buffer_view::{build_text_runs, char_col_to_byte_col, ColorRole, DiagnosticEntry, TextRun, Underline};
use crate::document::Selection;
use crate::hover_popover;
use crate::hover_popover::style_run_range;
use crate::markdown::HighlightSpan;
use crate::search::Match;

verus! {

/// What a highlight behind the text is for.
#[derive(Debug, Clone, Copy, PartialEq, Eq, Structural)]
pub enum HighlightKind {
    Selection,
    Word,
    Match,
    ActiveMatch,
}

/// A highlight behind the bytes from `start` to `end` of a line.
#[derive(Debug, Clone, Copy, PartialEq, Eq, Structural)]
pub struct HighlightRect {
    pub start: usize,
    pub end: usize,
    pub kind: HighlightKind,
}

/// Where a line stands: its number, where it starts in the text, where the next one starts, if
/// there is one, and how long the text is.
#[derive(Debug, Clone, Copy, PartialEq, Eq, Structural)]
pub struct LinePlace {
    pub index: usize,
    pub start: usize,
    pub next_start: Option<usize>,
    pub doc_len: usize,
}

impl LinePlace {
    /// Where the next line starts; behind the last line, beyond the end of the text.
    pub open spec fn next(self) -> int {
        match self.next_start {
            Some(n) => n as int,
            None => self.doc_len + 1,
        }
    }

    /// Whether `pos` lies before where the next line starts.
    fn is_before_next(&self, pos: usize) -> (b: bool)
        ensures
            b == (pos < self.next()),
    {
        match self.next_start {
            Some(n) => pos < n,
            None => pos <= self.doc_len,
        }
    }
}

/// What is painted on a line besides its text.
#[derive(Debug)]
pub struct LineView {
    /// Whether the caret is on the line.
    pub cursor_on_line: bool,
    /// Whether the line belongs to the highlighted section.
    pub in_section: bool,
    /// Whether the line was just jumped to.
    pub is_flash: bool,
    pub rects: Vec<HighlightRect>,
    /// Whether the selection goes on beyond the end of the line.
    pub sel_stub: bool,
    /// The byte before which the caret is painted.
    pub caret_byte: Option<usize>,
}

/// `a - b`, or 0 where that is negative.
pub open spec fn minus(a: int, b: int) -> int {
    if a < b { 0 } else { a - b }
}

/// The highlight of the columns from `a` to `b` of a line, if they have any extent.
pub open spec fn rect_of(line: Seq<char>, a: int, b: int, kind: HighlightKind) -> Seq<HighlightRect> {
    let s = buffer_view::byte_col(line, a);
    let e = buffer_view::byte_col(line, b);
    if s < e { seq![HighlightRect { start: s as usize, end: e as usize, kind }] } else { Seq::empty() }
}

/// Pushes the highlight of the columns from `a` to `b` of a line, if they have any extent.
fn push_rect(rects: &mut Vec<HighlightRect>, line: &str, a: usize, b: usize, kind: HighlightKind)
    ensures
        final(rects)@ == old(rects)@ + rect_of(line@, a as int, b as int, kind),
{
    let start: usize = char_col_to_byte_col(line, a);
    let end: usize = char_col_to_byte_col(line, b);
    if start < end {
        rects.push(HighlightRect { start, end, kind });
    }
    assert(rects@ =~= old(rects)@ + rect_of(line@, a as int, b as int, kind));
}

/// The highlight of one occurrence of the word at the caret.
pub open spec fn word_rect(line: Seq<char>, place: LinePlace, occ: Match) -> Seq<HighlightRect> {
    let n = line.len() as int;
    let a = buffer_view::at_most(minus(occ.start as int, place.start as int), n);
    let b = buffer_view::at_most(minus(occ.end as int, place.start as int), n);
    if occ.start <= place.start + n && occ.end > place.start && a < b {
        rect_of(line, a, b, HighlightKind::Word)
    } else {
        Seq::empty()
    }
}

/// The highlights of the first `k` occurrences of the word at the caret.
pub open spec fn word_rects(line: Seq<char>, place: LinePlace, occs: Seq<Match>, k: int) -> Seq<HighlightRect>
    decreases k,
{
    if k <= 0 { Seq::empty() } else { word_rects(line, place, occs, k - 1) + word_rect(line, place, occs[k - 1]) }
}

/// The highlight of a bracket at `pos`.
pub open spec fn bracket_rect(line: Seq<char>, place: LinePlace, pos: usize) -> Seq<HighlightRect> {
    if place.start <= pos < place.start + line.len() {
        rect_of(line, pos - place.start, pos - place.start + 1, HighlightKind::Word)
    } else {
        Seq::empty()
    }
}

/// The highlights of a pair of brackets.
pub open spec fn bracket_rects(line: Seq<char>, place: LinePlace, brackets: Option<(usize, usize)>) -> Seq<HighlightRect> {
    match brackets {
        Some((open, close)) => bracket_rect(line, place, open) + bracket_rect(line, place, close),
        None => Seq::empty(),
    }
}

/// The highlight of match `i` of a search.
pub open spec fn match_rect(line: Seq<char>, place: LinePlace, m: Match, active: bool) -> Seq<HighlightRect> {
    let end = place.start + line.len();
    if m.start <= end && m.end >= place.start {
        rect_of(
            line,
            minus(m.start as int, place.start as int),
            if m.end < end { m.end - place.start } else { line.len() as int },
            if active { HighlightKind::ActiveMatch } else { HighlightKind::Match },
        )
    } else {
        Seq::empty()
    }
}

/// The highlights of the first `k` matches of a search.
pub open spec fn match_rects(line: Seq<char>, place: LinePlace, ms: Seq<Match>, active: int, k: int) -> Seq<HighlightRect>
    decreases k,
{
    if k <= 0 {
        Seq::empty()
    } else {
        match_rects(line, place, ms, active, k - 1) + match_rect(line, place, ms[k - 1], k - 1 == active)
    }
}

/// Whether the selection touches the line.
pub open spec fn selection_on_line(place: LinePlace, sel: Selection) -> bool {
    sel.anchor != sel.head && sel.first() < place.next() && sel.last() > place.start
}

/// The columns of a line that are selected.
pub open spec fn selected_columns(line: Seq<char>, place: LinePlace, sel: Selection) -> (int, int) {
    let end = place.start + line.len();
    (
        minus(sel.first(), place.start as int),
        if sel.last() < end { minus(sel.last(), place.start as int) } else { line.len() as int },
    )
}

/// The highlights of a line, in the order in which they are painted. What is selected covers the
/// word at the caret and the brackets round it; the matches of a search come on top.
pub open spec fn line_rects(
    line: Seq<char>,
    place: LinePlace,
    sel: Selection,
    occs: Seq<Match>,
    brackets: Option<(usize, usize)>,
    ms: Seq<Match>,
    active: int,
) -> Seq<HighlightRect> {
    let (a, b) = selected_columns(line, place, sel);
    (if selection_on_line(place, sel) && a < b {
        rect_of(line, a, b, HighlightKind::Selection)
    } else {
        word_rects(line, place, occs, occs.len() as int) + bracket_rects(line, place, brackets)
    }) + match_rects(line, place, ms, active, ms.len() as int)
}

/// Whether the caret is on the line.
pub open spec fn caret_on_line(place: LinePlace, sel: Selection) -> bool {
    place.start <= sel.head < place.next()
}

/// What is painted on a line besides its text.
pub fn line_view(
    line: &str,
    place: LinePlace,
    sel: Selection,
    matches: &[Match],
    match_idx: usize,
    word_occ: &[Match],
    brackets: Option<(usize, usize)>,
    section: Option<(usize, usize)>,
    flash_line: Option<usize>,
    cursor_visible: bool,
) -> (r: LineView)
    requires
        place.start + line@.len() <= place.doc_len,
    ensures
        r.cursor_on_line == caret_on_line(place, sel),
        r.in_section == (section matches Some((a, b)) && a <= place.index < b),
        r.is_flash == (flash_line == Some(place.index)),
        r.rects@ == line_rects(line@, place, sel, word_occ@, brackets, matches@, match_idx as int),
        r.sel_stub == (selection_on_line(place, sel) && sel.first() <= place.start + line@.len() && sel.last()
            > place.start + line@.len()),
        r.caret_byte == if caret_on_line(place, sel) && cursor_visible {
            Some(buffer_view::byte_col(line@, sel.head - place.start) as usize)
        } else {
            None
        },
{
    let count: usize = line.unicode_len();
    let end: usize = place.start + count;
    let first: usize = sel.start();
    let last: usize = sel.end();
    let cursor_on_line: bool = sel.head >= place.start && place.is_before_next(sel.head);
    let has_sel: bool = !sel.is_empty() && place.is_before_next(first) && last > place.start;
    let col_a: usize = if first < place.start { 0 } else { first - place.start };
    let col_b: usize = if last < end { if last < place.start { 0 } else { last - place.start } } else { count };
    let mut rects: Vec<HighlightRect> = Vec::new();
    if has_sel && col_a < col_b {
        push_rect(&mut rects, line, col_a, col_b, HighlightKind::Selection);
        assert(rects@ =~= rect_of(line@, col_a as int, col_b as int, HighlightKind::Selection));
    } else {
        push_words(&mut rects, line, place, word_occ);
        if let Some((open, close)) = brackets {
            push_bracket(&mut rects, line, place, open);
            push_bracket(&mut rects, line, place, close);
        }
        assert(rects@ =~= word_rects(line@, place, word_occ@, word_occ@.len() as int) + bracket_rects(line@, place, brackets));
    }
    push_matches(&mut rects, line, place, matches, match_idx);
    let in_section: bool = match section {
        Some((a, b)) => a <= place.index && place.index < b,
        None => false,
    };
    let is_flash: bool = match flash_line {
        Some(l) => l == place.index,
        None => false,
    };
    let caret_byte: Option<usize> = if cursor_on_line && cursor_visible {
        Some(char_col_to_byte_col(line, sel.head - place.start))
    } else {
        None
    };
    LineView { cursor_on_line, in_section, is_flash, rects, sel_stub: has_sel && first <= end && last > end, caret_byte }
}

/// Pushes the highlights of the occurrences of the word at the caret.
fn push_words(rects: &mut Vec<HighlightRect>, line: &str, place: LinePlace, occs: &[Match])
    requires
        place.start + line@.len() <= place.doc_len,
    ensures
        final(rects)@ == old(rects)@ + word_rects(line@, place, occs@, occs@.len() as int),
{
    let ghost before = rects@;
    let count: usize = line.unicode_len();
    let mut k: usize = 0;
    assert(before + word_rects(line@, place, occs@, 0) =~= before);
    while k < occs.len()
        invariant
            k <= occs@.len(),
            count == line@.len(),
            place.start + count <= place.doc_len,
            rects@ == before + word_rects(line@, place, occs@, k as int),
        decreases occs@.len() - k,
    {
        let occ: Match = occs[k];
        if occ.start <= place.start + count && occ.end > place.start {
            let a0: usize = if occ.start < place.start { 0 } else { occ.start - place.start };
            let b0: usize = occ.end - place.start;
            let a: usize = if a0 < count { a0 } else { count };
            let b: usize = if b0 < count { b0 } else { count };
            if a < b {
                push_rect(rects, line, a, b, HighlightKind::Word);
            }
        }
        assert(rects@ =~= before + word_rects(line@, place, occs@, k + 1));
        k = k + 1;
    }
}

/// Pushes the highlight of a bracket.
fn push_bracket(rects: &mut Vec<HighlightRect>, line: &str, place: LinePlace, pos: usize)
    requires
        place.start + line@.len() <= place.doc_len,
    ensures
        final(rects)@ == old(rects)@ + bracket_rect(line@, place, pos),
{
    let count: usize = line.unicode_len();
    if pos >= place.start && pos < place.start + count {
        push_rect(rects, line, pos - place.start, pos - place.start + 1, HighlightKind::Word);
    } else {
        assert(rects@ =~= old(rects)@ + bracket_rect(line@, place, pos));
    }
}

/// Pushes the highlights of the matches of a search.
fn push_matches(rects: &mut Vec<HighlightRect>, line: &str, place: LinePlace, ms: &[Match], active: usize)
    requires
        place.start + line@.len() <= place.doc_len,
    ensures
        final(rects)@ == old(rects)@ + match_rects(line@, place, ms@, active as int, ms@.len() as int),
{
    let ghost before = rects@;
    let count: usize = line.unicode_len();
    let end: usize = place.start + count;
    let mut k: usize = 0;
    assert(before + match_rects(line@, place, ms@, active as int, 0) =~= before);
    while k < ms.len()
        invariant
            k <= ms@.len(),
            count == line@.len(),
            end == place.start + count,
            rects@ == before + match_rects(line@, place, ms@, active as int, k as int),
        decreases ms@.len() - k,
    {
        let m: Match = ms[k];
        if m.start <= end && m.end >= place.start {
            let a: usize = if m.start < place.start { 0 } else { m.start - place.start };
            let b: usize = if m.end < end { m.end - place.start } else { count };
            push_rect(rects, line, a, b, if k == active { HighlightKind::ActiveMatch } else { HighlightKind::Match });
        }
        assert(rects@ =~= before + match_rects(line@, place, ms@, active as int, k + 1));
        k = k + 1;
    }
}

// ── the text of a line ────────────────────────────────────────────────────────

/// The diagnostics on line `n`.
pub open spec fn on_line(ds: Seq<DiagnosticEntry>, n: int) -> Seq<DiagnosticEntry>
    decreases ds.len(),
{
    if ds.len() == 0 {
        Seq::empty()
    } else if ds.last().lsp_line == n {
        on_line(ds.drop_last(), n).push(ds.last())
    } else {
        on_line(ds.drop_last(), n)
    }
}

/// The diagnostics on line `n`.
fn diagnostics_on(ds: &[DiagnosticEntry], n: usize) -> (r: Vec<DiagnosticEntry>)
    ensures
        r@ == on_line(ds@, n as int),
{
    let mut r: Vec<DiagnosticEntry> = Vec::new();
    let mut i: usize = 0;
    assert(ds@.take(0) =~= Seq::empty());
    while i < ds.len()
        invariant
            i <= ds@.len(),
            r@ == on_line(ds@.take(i as int), n as int),
        decreases ds@.len() - i,
    {
        assert(ds@.take(i + 1).drop_last() =~= ds@.take(i as int));
        if ds[i].lsp_line as usize == n {
            r.push(ds[i].clone());
        }
        i = i + 1;
    }
    assert(ds@.take(i as int) =~= ds@);
    r
}

/// A run of a link.
pub open spec fn link_run(run: TextRun) -> TextRun {
    TextRun {
        color: ColorRole::Accent,
        underline: Some(Underline { color: ColorRole::Accent, wavy: false }),
        ..run
    }
}

/// Runs with the symbol from `from` to `to` of the text shown as a link, as far as it lies on the
/// line that starts at `start`.
pub open spec fn with_link(line: Seq<char>, start: int, from: int, to: int, runs: Seq<TextRun>) -> Seq<TextRun> {
    let n = line.len() as int;
    let s = buffer_view::byte_col(line, buffer_view::at_most(minus(from, start), n));
    let e = buffer_view::byte_col(line, buffer_view::at_most(minus(to, start), n));
    if from < start + n && to > start && s < e {
        hover_popover::cut_runs(runs, s, e).map_values(|p: (TextRun, bool)| if p.1 { link_run(p.0) } else { p.0 })
    } else {
        runs
    }
}

/// The runs that a line of an editor is painted in: by its syntax and its diagnostics, with the
/// symbol `link` shown as a link.
pub fn editor_line_runs(
    line: &str,
    line_idx: usize,
    line_start: usize,
    spans: &[HighlightSpan],
    file_diags: &[DiagnosticEntry],
    link: Option<(usize, usize)>,
) -> (runs: Vec<TextRun>)
    requires
        line_start + line@.len() <= usize::MAX,
    ensures
        exists|base: Seq<TextRun>|
            buffer_view::line_painted(line@, spans@, on_line(file_diags@, line_idx as int), base) && runs@
                == match link {
                Some((from, to)) => with_link(line@, line_start as int, from as int, to as int, base),
                None => base,
            },
{
    let ds: Vec<DiagnosticEntry> = diagnostics_on(file_diags, line_idx);
    let mut runs: Vec<TextRun> = build_text_runs(line, spans, ds.as_slice());
    let ghost base = runs@;
    if let Some((from, to)) = link {
        let count: usize = line.unicode_len();
        if from < line_start + count && to > line_start {
            let a0: usize = if from < line_start { 0 } else { from - line_start };
            let b0: usize = to - line_start;
            let start: usize = char_col_to_byte_col(line, if a0 < count { a0 } else { count });
            let end: usize = char_col_to_byte_col(line, if b0 < count { b0 } else { count });
            let paint = |run: TextRun| -> (out: TextRun)
                ensures
                    out == link_run(run),
                {
                    TextRun {
                        color: ColorRole::Accent,
                        underline: Some(Underline { color: ColorRole::Accent, wavy: false }),
                        ..run
                    }
                };
            proof {
                crate::text::byte_pos_grows(line@, 0, line@.len() as int);
                assert(line@.take(line@.len() as int) =~= line@);
            }
            let total: usize = crate::text::byte_len(line);
            style_run_range(&mut runs, start..end, paint);
            assert(runs@ =~= with_link(line@, line_start as int, from as int, to as int, base));
        }
    }
    assert(buffer_view::line_painted(line@, spans@, on_line(file_diags@, line_idx as int), base));
    runs
}

} // verus!
