//! What the popover shows as selected, how its parts are laid out, and when it comes and goes.
use vstd::prelude::*;

use crate::buffer_view;
use crate::buffer_view::{ColorRole, TextRun};
use crate::hover_layout;
use crate::hover_layout::{Bucket, Group};
use crate::hover_popover;
use crate::hover_popover::{HoverSelection, Segment, SegmentKind};
use crate::hover_state;
use crate::hover_state::{HoverState, HoverStep, LinkState};
use crate::text;

verus! {

// ── Selections ────────────────────────────────────────────────────────────────

/// Whether place `a` comes before place `b`: in an earlier segment, or earlier in the same.
pub open spec fn earlier(a: (int, int), b: (int, int)) -> bool {
    a.0 < b.0 || (a.0 == b.0 && a.1 < b.1)
}

/// A place of a selection.
pub open spec fn place(p: (usize, usize)) -> (int, int) {
    (p.0 as int, p.1 as int)
}

/// A byte of a segment is selected just where it stands between the ends of the selection, in
/// whichever direction that was made: not before the one, but before the other.
pub proof fn selected_bytes_are_between_the_ends(sel: HoverSelection, ix: int, len: int, q: int)
    requires
        0 <= q < len,
    ensures
        ({
            let here = (ix, q);
            let after_start = !earlier(here, place(sel.start)) && earlier(here, place(sel.end));
            let after_end = !earlier(here, place(sel.end)) && earlier(here, place(sel.start));
            let covered = hover_popover::covered(sel, ix, len);
            (covered is Some && (covered->0).0 <= q < (covered->0).1) <==> after_start || after_end
        }),
{
}

/// What is covered of a segment lies within it and is not empty.
pub proof fn covered_part_lies_within(sel: HoverSelection, ix: int, len: int)
    requires
        0 <= len,
    ensures
        hover_popover::covered(sel, ix, len) matches Some((a, b)) ==> 0 <= a < b <= len,
{
}

proof fn no_text_before(segments: Seq<Segment>, sel: HoverSelection, n: int)
    requires
        0 <= n <= segments.len(),
        n <= sel.start.0,
        n <= sel.end.0,
    ensures
        hover_popover::selection_text(segments, sel, n).len() == 0,
    decreases n,
{
    if n > 0 {
        no_text_before(segments, sel, n - 1);
    }
}

proof fn no_text_behind(segments: Seq<Segment>, sel: HoverSelection, m: int, n: int)
    requires
        0 <= m <= n <= segments.len(),
        sel.start.0 < m,
        sel.end.0 < m,
    ensures
        hover_popover::selection_text(segments, sel, n) == hover_popover::selection_text(segments, sel, m),
    decreases n,
{
    if n > m {
        no_text_behind(segments, sel, m, n - 1);
    }
}

/// What is selected within one segment reads as that part of it does.
pub proof fn selection_in_one_segment(segments: Seq<Segment>, sel: HoverSelection, ix: int, a: int, b: int)
    requires
        0 <= ix < segments.len(),
        0 <= a < b <= segments[ix].text@.len(),
        place(sel.start) == (ix, text::byte_pos(segments[ix].text@, a)),
        place(sel.end) == (ix, text::byte_pos(segments[ix].text@, b)),
    ensures
        hover_popover::selection_text(segments, sel, segments.len() as int) == segments[ix].text@.subrange(a, b),
{
    let s = segments[ix].text@;
    text::byte_pos_grows(s, a, b);
    text::byte_pos_grows(s, b, s.len() as int);
    text::starts_char_at(s, a);
    text::starts_char_at(s, b);
    no_text_before(segments, sel, ix);
    no_text_behind(segments, sel, ix + 1, segments.len() as int);
    let before = hover_popover::selection_text(segments, sel, ix);
    assert(hover_popover::covered_text(sel, ix, s) == Some(s.subrange(a, b)));
    assert(before.len() == 0);
}

/// What is selected from one segment to the next reads as the end of the one and the start of the
/// other, with a line break between them.
pub proof fn selection_across_segments(segments: Seq<Segment>, sel: HoverSelection, ix: int, a: int, b: int)
    requires
        0 <= ix,
        ix + 1 < segments.len(),
        0 <= a < segments[ix].text@.len(),
        0 < b <= segments[ix + 1].text@.len(),
        place(sel.start) == (ix, text::byte_pos(segments[ix].text@, a)),
        place(sel.end) == (ix + 1, text::byte_pos(segments[ix + 1].text@, b)),
    ensures
        hover_popover::selection_text(segments, sel, segments.len() as int) == segments[ix].text@.skip(a) + seq!['\n']
            + segments[ix + 1].text@.take(b),
{
    let s = segments[ix].text@;
    let t = segments[ix + 1].text@;
    text::byte_pos_grows(s, a, s.len() as int);
    text::byte_pos_grows(t, 0, b);
    text::byte_pos_grows(t, b, t.len() as int);
    text::starts_char_at(s, a);
    text::starts_char_at(s, s.len() as int);
    text::starts_char_at(t, b);
    text::starts_char_at(t, 0);
    assert(s.take(s.len() as int) =~= s);
    assert(t.take(0) =~= Seq::<char>::empty());
    assert(text::byte_pos(t, 0) == 0) by {
        assert(vstd::utf8::encode_utf8(Seq::<char>::empty()) =~= Seq::<u8>::empty());
    }
    no_text_before(segments, sel, ix);
    no_text_behind(segments, sel, ix + 2, segments.len() as int);
    assert(hover_popover::covered_text(sel, ix, s) == Some(s.subrange(a, s.len() as int)));
    assert(hover_popover::covered_text(sel, ix + 1, t) == Some(t.subrange(0, b)));
    let none = hover_popover::selection_text(segments, sel, ix);
    let first = hover_popover::selection_text(segments, sel, ix + 1);
    assert(first == s.subrange(a, s.len() as int));
    let both = hover_popover::selection_text(segments, sel, ix + 2);
    assert(both =~= s.skip(a) + seq!['\n'] + t.take(b));
}

// ── Runs ──────────────────────────────────────────────────────────────────────

/// The run that byte `p` is in.
pub open spec fn run_at(runs: Seq<TextRun>, p: int) -> TextRun
    decreases runs.len(),
{
    if p < buffer_view::total_len(runs.drop_last()) && runs.len() > 0 { run_at(runs.drop_last(), p) } else { runs.last() }
}

proof fn run_of_push(runs: Seq<TextRun>, run: TextRun, p: int)
    ensures
        p < buffer_view::total_len(runs) ==> run_at(runs.push(run), p) == run_at(runs, p),
        p >= buffer_view::total_len(runs) ==> run_at(runs.push(run), p) == run,
        buffer_view::total_len(runs.push(run)) == buffer_view::total_len(runs) + run.len,
{
    assert(runs.push(run).drop_last() =~= runs);
}

proof fn lengths_are_positive(runs: Seq<TextRun>)
    ensures
        0 <= buffer_view::total_len(runs),
    decreases runs.len(),
{
    if runs.len() > 0 {
        lengths_are_positive(runs.drop_last());
    }
}

/// Whether a style changes runs without regard to their length, and leaves that as it is.
pub open spec fn keeps_length(style: spec_fn(TextRun) -> TextRun) -> bool {
    forall|run: TextRun, len: int|
        #![trigger style(hover_popover::with_len(run, len))]
        style(hover_popover::with_len(run, len)) == hover_popover::with_len(style(run), len)
}

/// The runs that show pieces, with a style for those that are marked.
pub open spec fn styled(pieces: Seq<(TextRun, bool)>, style: spec_fn(TextRun) -> TextRun) -> Seq<TextRun> {
    pieces.map_values(|p: (TextRun, bool)| if p.1 { style(p.0) } else { p.0 })
}

/// Cutting runs and styling what lies from `start` to `end` changes every byte there, and no other,
/// and keeps the length.
pub proof fn cutting_styles_a_stretch(
    runs: Seq<TextRun>,
    start: int,
    end: int,
    style: spec_fn(TextRun) -> TextRun,
    p: int,
)
    requires
        0 <= start < end,
        0 <= p,
        keeps_length(style),
    ensures
        ({
            let out = styled(hover_popover::cut_runs(runs, start, end), style);
            let a = run_at(runs, p);
            let b = run_at(out, p);
            &&& buffer_view::total_len(out) == buffer_view::total_len(runs)
            &&& p < buffer_view::total_len(runs) ==> b == hover_popover::with_len(
                if start <= p < end { style(a) } else { a },
                b.len as int,
            )
        }),
    decreases runs.len(),
{
    if runs.len() == 0 {
        assert(styled(hover_popover::cut_runs(runs, start, end), style) =~= Seq::empty());
    } else {
        let rest = runs.drop_last();
        let run = runs.last();
        let pos = buffer_view::total_len(rest);
        lengths_are_positive(rest);
        cutting_styles_a_stretch(rest, start, end, style, p);
        let base = styled(hover_popover::cut_runs(rest, start, end), style);
        let s = if start < pos { pos } else { start };
        let e = if end < pos + run.len { end } else { pos + run.len };
        let all = hover_popover::cut_runs(runs, start, end);
        if s >= e {
            assert(styled(all, style) =~= base.push(run));
            run_of_push(base, run, p);
            assert(run == hover_popover::with_len(run, run.len as int));
        } else {
            let left = hover_popover::with_len(run, s - pos);
            let mid = style(hover_popover::with_len(run, e - s));
            let right = hover_popover::with_len(run, pos + run.len - e);
            assert(mid == hover_popover::with_len(style(run), e - s));
            let one = if pos < s { base.push(left) } else { base };
            let two = one.push(mid);
            let three = if e < pos + run.len { two.push(right) } else { two };
            run_of_push(base, left, p);
            run_of_push(one, mid, p);
            run_of_push(two, right, p);
            assert(styled(all, style) =~= three);
        }
    }
}

/// What is selected is shown on the ground of selections, byte for byte, and nothing else is; in
/// all other respects every byte is shown as it was.
pub proof fn selection_is_shown(runs: Seq<TextRun>, range: std::ops::Range<usize>, p: int)
    requires
        0 <= p < buffer_view::total_len(runs),
    ensures
        ({
            let out = hover_popover::selected_runs(runs, Some(range));
            let a = run_at(runs, p);
            let b = run_at(out, p);
            &&& buffer_view::total_len(out) == buffer_view::total_len(runs)
            &&& b.background == if range.start <= p < range.end { Some(ColorRole::Selection) } else { a.background }
            &&& b.font == a.font && b.color == a.color && b.underline == a.underline && b.strikethrough == a.strikethrough
        }),
        hover_popover::selected_runs(runs, None) == runs,
{
    if range.start < range.end {
        let style = |run: TextRun| hover_popover::selected_run(run);
        cutting_styles_a_stretch(runs, range.start as int, range.end as int, style, p);
        assert(hover_popover::selected_runs(runs, Some(range)) =~= styled(
            hover_popover::cut_runs(runs, range.start as int, range.end as int),
            style,
        ));
    }
}

/// Only a line of code whose runs do not end where characters do is shown in one style.
pub proof fn broken_code_has_one_style(kind: SegmentKind, s: Seq<char>, runs: Seq<TextRun>)
    ensures
        !(kind is Code) ==> hover_popover::shown_runs(kind, s, runs) == Some(runs),
        hover_popover::runs_tile(runs, s) ==> hover_popover::shown_runs(kind, s, runs) == Some(runs),
        kind is Code && !hover_popover::runs_tile(runs, s) && runs.len() > 0 && s.len() > 0 && text::byte_count(s)
            <= usize::MAX ==> {
            let out = hover_popover::shown_runs(kind, s, runs);
            out is Some && out->0.len() == 1 && out->0[0].len == text::byte_count(s) && out->0[0].color == runs[0].color
        },
{
}

// ── Layout ────────────────────────────────────────────────────────────────────

/// Cells go into tables, remote images among images, quoted text into quotations, and code among
/// code; a quoted line of code belongs to the quotation, and a quoted cell to its table.
pub proof fn segments_go_with_their_like(s: Segment)
    ensures
        s.table_cell is Some <==> hover_layout::bucket(s) == Bucket::Table,
        s.table_cell is None && s.kind is Image <==> hover_layout::bucket(s) == Bucket::Images,
        s.table_cell is None && !(s.kind is Image) && s.quote <==> hover_layout::bucket(s) == Bucket::Quote,
        s.table_cell is None && s.kind is Code && !s.quote <==> hover_layout::bucket(s) == Bucket::Code,
{
}

/// The groups hold every segment, in order, and only segments of one kind each; the gap above a
/// group is that above its first segment.
pub proof fn groups_hold_every_segment(segments: Seq<Segment>, groups: Seq<Group>, i: int)
    requires
        hover_layout::grouped(segments, groups, segments.len() as int),
        0 <= i < segments.len(),
    ensures
        exists|k: int|
            0 <= k < groups.len() && (#[trigger] groups[k]).from <= i < groups[k].to && hover_layout::bucket(segments[i])
                == groups[k].bucket && groups[k].gap == segments[groups[k].from as int].top_gap,
{
    find_group(segments, groups, i, groups.len() - 1);
}

proof fn find_group(segments: Seq<Segment>, groups: Seq<Group>, i: int, k: int)
    requires
        hover_layout::grouped(segments, groups, segments.len() as int),
        0 <= k < groups.len(),
        0 <= i < groups[k].to,
        groups[k].to <= segments.len(),
    ensures
        exists|k: int|
            0 <= k < groups.len() && (#[trigger] groups[k]).from <= i < groups[k].to && hover_layout::bucket(segments[i])
                == groups[k].bucket && groups[k].gap == segments[groups[k].from as int].top_gap,
    decreases k,
{
    assert(hover_layout::uniform(segments, groups[k]));
    if groups[k].from <= i {
        assert(hover_layout::bucket(segments[i]) == groups[k].bucket);
    } else {
        assert(k > 0);
        assert(groups[k - 1].to == groups[k].from);
        find_group(segments, groups, i, k - 1);
    }
}

/// Within a group only plain and quoted segments keep their gaps, and the first of a quotation has
/// none of its own.
pub proof fn gaps_within_groups(segments: Seq<Segment>, g: Group, ix: int)
    requires
        g.from <= ix < g.to,
    ensures
        g.bucket == Bucket::Plain ==> hover_layout::gap_within(segments, g, ix) == segments[ix].top_gap,
        g.bucket == Bucket::Quote && ix > g.from ==> hover_layout::gap_within(segments, g, ix) == segments[ix].top_gap,
        g.bucket == Bucket::Quote && ix == g.from ==> hover_layout::gap_within(segments, g, ix) == 0,
        g.bucket == Bucket::Code || g.bucket == Bucket::Table || g.bucket == Bucket::Images ==> hover_layout::gap_within(
            segments,
            g,
            ix,
        ) == 0,
{
}

/// The rows one behind the other.
pub open spec fn in_a_row(rows: Seq<Seq<usize>>) -> Seq<usize>
    decreases rows.len(),
{
    if rows.len() == 0 { Seq::empty() } else { in_a_row(rows.drop_last()) + rows.last() }
}

/// The rows of a table hold each of its cells once, in order; each starts with the first column,
/// and no other cell of it is in that.
pub proof fn rows_start_with_the_first_column(segments: Seq<Segment>, from: int, to: int)
    requires
        0 <= from < to <= segments.len() <= usize::MAX,
        forall|i: int| from <= i < to ==> (#[trigger] segments[i]).table_cell is Some,
        (segments[from].table_cell->0).1 == 0,
    ensures
        in_a_row(hover_layout::rows_of(segments, from, to)) == Seq::new((to - from) as nat, |i: int| (from + i) as usize),
        hover_layout::rows_of(segments, from, to).len() > 0,
        forall|r: int, c: int|
            0 <= r < hover_layout::rows_of(segments, from, to).len() && 0 <= c < hover_layout::rows_of(segments, from, to)[r].len()
                ==> (((segments[(#[trigger] hover_layout::rows_of(segments, from, to)[r][c]) as int].table_cell->0).1 == 0)
                == (c == 0)),
        forall|r: int|
            0 <= r < hover_layout::rows_of(segments, from, to).len() ==> (#[trigger] hover_layout::rows_of(segments, from, to)[r]).len()
                > 0,
    decreases to,
{
    let rows = hover_layout::rows_of(segments, from, to);
    let ix = (to - 1) as usize;
    let want = Seq::new((to - from) as nat, |i: int| (from + i) as usize);
    assert(segments[to - 1].table_cell is Some);
    if to - 1 == from {
        reveal_with_fuel(hover_layout::rows_of, 2);
        assert(hover_layout::rows_of(segments, from, from).len() == 0);
        assert(rows =~= seq![seq![ix]]);
        reveal_with_fuel(in_a_row, 2);
        assert(rows.drop_last() =~= Seq::empty());
        assert(in_a_row(rows) =~= want);
        assert(rows[0][0] == from);
    } else {
        rows_start_with_the_first_column(segments, from, to - 1);
        let before = hover_layout::rows_of(segments, from, to - 1);
        let had = Seq::new((to - 1 - from) as nat, |i: int| (from + i) as usize);
        assert(want =~= had.push(ix));
        if (segments[to - 1].table_cell->0).1 == 0 {
            assert(rows =~= before.push(seq![ix]));
            assert(rows.drop_last() =~= before);
            assert(in_a_row(rows) =~= want);
            assert forall|r: int, c: int| 0 <= r < rows.len() && 0 <= c < rows[r].len() implies (((segments[(
            #[trigger] rows[r][c]) as int].table_cell->0).1 == 0) == (c == 0)) by {
                if r < before.len() {
                    assert(rows[r] == before[r]);
                    assert(before[r][c] == rows[r][c]);
                }
            }
            assert forall|r: int| 0 <= r < rows.len() implies (#[trigger] rows[r]).len() > 0 by {
                if r < before.len() {
                    assert(rows[r] == before[r]);
                }
            }
        } else {
            let k = before.len() - 1;
            assert(rows =~= before.update(k, before.last().push(ix)));
            assert(rows.drop_last() =~= before.drop_last());
            assert(in_a_row(rows) =~= want);
            assert(before[k].len() > 0);
            assert forall|r: int, c: int| 0 <= r < rows.len() && 0 <= c < rows[r].len() implies (((segments[(
            #[trigger] rows[r][c]) as int].table_cell->0).1 == 0) == (c == 0)) by {
                if r < k || c < before[k].len() {
                    assert(before[r][c] == rows[r][c]);
                }
            }
            assert forall|r: int| 0 <= r < rows.len() implies (#[trigger] rows[r]).len() > 0 by {
                if r < k {
                    assert(rows[r] == before[r]);
                }
            }
        }
    }
}

// ── Coming and going ──────────────────────────────────────────────────────────

/// As long as the mouse is on the symbol of the popover, its ends included, or the popover is on its
/// way for that very place, nothing happens; anywhere else a popover is asked for, and the one that
/// is shown goes.
pub proof fn popover_stays_on_its_symbol(h: HoverState, after: HoverState, off: usize, step: HoverStep)
    requires
        h.shows(after, off, step),
    ensures
        h.content is Some && h.symbol_range is Some && (h.symbol_range->0).0 <= off && off <= (h.symbol_range->0).1 ==> after == h
            && step == HoverStep::Nothing,
        h.content is None && h.char_offset == Some(off) && h.info_pending ==> after == h && step == HoverStep::Nothing,
        h.content is Some && h.symbol_range is Some && (off < (h.symbol_range->0).0 || (h.symbol_range->0).1 < off) && !(
        h.char_offset == Some(off) && h.info_pending) ==> after.content is None && after.info_pending && after.char_offset
            == Some(off) && step == HoverStep::ArmShow && after.selection is None,
        h.content is None && !(h.char_offset == Some(off) && h.info_pending) ==> after.info_pending && after.char_offset == Some(
            off,
        ) && step == HoverStep::ArmShow,
{
}

/// A popover with something selected in it, or in which the mouse is selecting, is held.
pub proof fn selections_hold_the_popover(h: HoverState)
    ensures
        h.selecting ==> h.locked(),
        h.selection is Some && h.selection->0.start != h.selection->0.end ==> h.locked(),
        !h.selecting && h.selection is None ==> !h.locked(),
        !h.selecting && h.selection is Some && h.selection->0.start == h.selection->0.end ==> !h.locked(),
{
}

/// An answer counts where the mouse is still where it was asked for, or has not left the symbol
/// that it is about.
pub proof fn late_answers_are_dropped(h: HoverState, offset: usize, range: (usize, usize))
    ensures
        h.char_offset == Some(offset) ==> h.fresh(offset, range),
        h.char_offset is None ==> !h.fresh(offset, range),
        h.char_offset is Some && h.char_offset->0 != offset ==> (h.fresh(offset, range) <==> range.0 <= h.char_offset->0
            && h.char_offset->0 <= range.1),
{
}

/// A link under the mouse ends before the end of its symbol; a popover stays up to that end.
pub proof fn links_end_before_their_symbol(range: (usize, usize), off: usize)
    ensures
        hover_state::holds(range, off) <==> range.0 <= off && off < range.1,
        hover_state::touches(range, off) <==> range.0 <= off && off <= range.1,
{
}

/// Clearing the link forgets it and what was asked for, and nothing of the keys.
pub proof fn cleared_links_are_forgotten(l: LinkState, after: LinkState)
    requires
        l.cleared(after),
    ensures
        after.link is None && after.trigger is None && !after.pending,
        after.cmd_held == l.cmd_held,
{
}

/// A link of the popover leads where that link of that segment does.
pub proof fn links_lead_where_they_say(h: HoverState, seg: usize, link: usize)
    ensures
        seg < h.segments@.len() && link < h.segments@[seg as int].links@.len() ==> h.link_url((seg, link)) == Some(
            h.segments@[seg as int].links@[link as int].url@,
        ),
        seg >= h.segments@.len() ==> h.link_url((seg, link)) is None,
        seg < h.segments@.len() && link >= h.segments@[seg as int].links@.len() ==> h.link_url((seg, link)) is None,
{
}

/// A link is looked for where there is a character of a word.
pub proof fn links_need_a_word(s: Seq<char>, i: int)
    requires
        0 <= i < s.len(),
    ensures
        'a' <= s[i] <= 'z' || 'A' <= s[i] <= 'Z' || '0' <= s[i] <= '9' || s[i] == '_' ==> hover_state::has_word_char(s),
        (forall|k: int| 0 <= k < s.len() ==> s[k] == ' ' || s[k] == '(' || s[k] == ')' || s[k] == '.' || s[k] == ';')
            ==> !hover_state::has_word_char(s),
{
    if 'a' <= s[i] <= 'z' || 'A' <= s[i] <= 'Z' || '0' <= s[i] <= '9' || s[i] == '_' {
        assert(crate::completion_logic::word_char(s[i]));
    }
}

} // verus!
