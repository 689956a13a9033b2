//! The content of hover popovers: Markdown flattened into segments of styled text, and selections
//! within them.
use vstd::prelude::*;

use crate::buffer_view;
use crate::buffer_view::TextRun;
use crate::text;
use crate::text::{byte_len, char_at_byte, push_char};

verus! {

/// What a segment is.
#[derive(Debug, PartialEq, Eq)]
pub enum SegmentKind {
    /// Prose: a line of a paragraph, a heading, a list, a quote or a table cell.
    Text,
    /// One line of code.
    Code,
    /// A horizontal rule.
    Rule,
    /// A remote image. `link` is where a click on it leads.
    Image { url: String, link: Option<String> },
}

impl SegmentKind {
    /// Whether a segment of this kind holds text that can be selected.
    pub fn is_text(&self) -> (b: bool)
        ensures
            b == (self is Text || self is Code),
    {
        match self {
            SegmentKind::Text => true,
            SegmentKind::Code => true,
            _ => false,
        }
    }
}

/// The size that a segment is set in: a percentage of the size of body text, or that of code.
#[derive(Debug, Clone, Copy, PartialEq, Eq, Structural)]
pub enum TextSize {
    Body { percent: u32 },
    Code,
}

/// A stretch of a segment, in bytes, that leads to a URL.
#[derive(Debug)]
pub struct SegmentLink {
    pub start: usize,
    pub end: usize,
    pub url: String,
}

/// One line of popover content.
#[derive(Debug)]
pub struct Segment {
    pub kind: SegmentKind,
    /// The text as it is laid out; runs and links count its bytes.
    pub text: String,
    pub runs: Vec<TextRun>,
    pub links: Vec<SegmentLink>,
    pub text_size: TextSize,
    /// Whether the segment is part of a quotation.
    pub quote: bool,
    /// How far the segment is indented, in pixels.
    pub indent: u32,
    /// The gap above the segment, in pixels.
    pub top_gap: u32,
    /// The row, the column and the number of columns of a table cell; row 0 is the header.
    pub table_cell: Option<(usize, usize, usize)>,
}

/// A selection: two ends, each a segment and a byte within it.
#[derive(Debug, Clone, Copy, PartialEq, Eq)]
pub struct HoverSelection {
    pub start: (usize, usize),
    pub end: (usize, usize),
}

/// Whether the position `a` comes before `b`.
pub open spec fn comes_before(a: (usize, usize), b: (usize, usize)) -> bool {
    a.0 < b.0 || (a.0 == b.0 && a.1 < b.1)
}

/// The ends of a selection, the first one first.
pub open spec fn ordered_ends(sel: HoverSelection) -> ((usize, usize), (usize, usize)) {
    if comes_before(sel.end, sel.start) { (sel.end, sel.start) } else { (sel.start, sel.end) }
}

/// The bytes of segment `ix`, which has `seg_len`, that a selection covers.
pub open spec fn covered(sel: HoverSelection, ix: int, seg_len: int) -> Option<(int, int)> {
    let (first, last) = ordered_ends(sel);
    let a = if ix == first.0 { buffer_view::at_most(first.1 as int, seg_len) } else { 0 };
    let b = if ix == last.0 { buffer_view::at_most(last.1 as int, seg_len) } else { seg_len };
    if first.0 <= ix <= last.0 && a < b { Some((a, b)) } else { None }
}

impl HoverSelection {
    /// The ends of the selection, the first one first.
    pub fn normalized(&self) -> (r: ((usize, usize), (usize, usize)))
        ensures
            r == ordered_ends(*self),
    {
        if self.end.0 < self.start.0 || (self.end.0 == self.start.0 && self.end.1 < self.start.1) {
            (self.end, self.start)
        } else {
            (self.start, self.end)
        }
    }

    /// Whether the selection has no extent.
    pub fn is_empty(&self) -> (b: bool)
        ensures
            b == (self.start == self.end),
    {
        self.start.0 == self.end.0 && self.start.1 == self.end.1
    }

    /// The bytes of segment `ix`, which has `seg_len`, that the selection covers, if any.
    pub fn range_in_segment(&self, ix: usize, seg_len: usize) -> (r: Option<std::ops::Range<usize>>)
        ensures
            r matches Some(range) ==> covered(*self, ix as int, seg_len as int) == Some(
                (range.start as int, range.end as int),
            ),
            r is None ==> covered(*self, ix as int, seg_len as int) is None,
    {
        let (first, last) = self.normalized();
        if ix < first.0 || ix > last.0 {
            return None;
        }
        let start: usize = if ix == first.0 { if first.1 < seg_len { first.1 } else { seg_len } } else { 0 };
        let end: usize = if ix == last.0 { if last.1 < seg_len { last.1 } else { seg_len } } else { seg_len };
        if start < end { Some(start..end) } else { None }
    }
}

/// Ordering the ends of a selection twice is ordering them once.
pub proof fn ordering_ends_is_idempotent(sel: HoverSelection)
    ensures
        ordered_ends((HoverSelection { start: ordered_ends(sel).0, end: ordered_ends(sel).1 })) == ordered_ends(sel),
        !comes_before(ordered_ends(sel).1, ordered_ends(sel).0),
{
}

/// A selection made from right to left covers what the same one made from left to right does.
pub proof fn direction_does_not_matter(sel: HoverSelection, ix: int, seg_len: int)
    ensures
        covered((HoverSelection { start: sel.end, end: sel.start }), ix, seg_len) == covered(sel, ix, seg_len),
{
}

/// A selection without extent covers nothing.
pub proof fn empty_selection_covers_nothing(sel: HoverSelection, ix: int, seg_len: int)
    requires
        sel.start == sel.end,
    ensures
        covered(sel, ix, seg_len) is None,
{
}

/// What a selection covers of the text of segment `ix`, from one whole character to another.
pub open spec fn covered_text(sel: HoverSelection, ix: int, s: Seq<char>) -> Option<Seq<char>> {
    match covered(sel, ix, text::byte_count(s)) {
        Some((a, b)) => Some(s.subrange(text::char_from(s, a), text::char_from(s, b))),
        None => None,
    }
}

/// The text that a selection covers in the first `n` segments, with a line feed between the
/// parts.
pub open spec fn selection_text(segments: Seq<Segment>, sel: HoverSelection, n: int) -> Seq<char>
    decreases n,
{
    if n <= 0 {
        Seq::empty()
    } else {
        let before = selection_text(segments, sel, n - 1);
        match covered_text(sel, n - 1, segments[n - 1].text@) {
            Some(part) => if before.len() > 0 { before.push('\n') + part } else { part },
            None => before,
        }
    }
}

/// The text that a selection covers.
pub fn selected_text(segments: &[Segment], sel: &HoverSelection) -> (r: String)
    ensures
        r@ == selection_text(segments@, *sel, segments@.len() as int),
{
    let mut out: String = String::new();
    let mut i: usize = 0;
    while i < segments.len()
        invariant
            i <= segments@.len(),
            out@ == selection_text(segments@, *sel, i as int),
        decreases segments@.len() - i,
    {
        let s: &str = segments[i].text.as_str();
        match sel.range_in_segment(i, byte_len(s)) {
            Some(range) => {
                if !out.as_str().is_empty() {
                    push_char(&mut out, '\n');
                }
                let (a, _) = char_at_byte(s, range.start);
                let (b, _) = char_at_byte(s, range.end);
                proof {
                    text::char_from_grows(s@, range.start as int, range.end as int);
                }
                out.append(s.substring_char(a, b));
                assert(out@ =~= selection_text(segments@, *sel, i + 1));
            },
            None => {},
        }
        i = i + 1;
    }
    out
}

/// The first byte at `ix` or after it where a character of `s` starts; the end of `s` beyond it.
pub fn ceil_char_boundary(s: &str, ix: usize) -> (r: usize)
    ensures
        r == text::byte_pos(s@, text::char_from(s@, ix as int)),
{
    let (_, pos) = char_at_byte(s, ix);
    pos
}

/// Nothing is selected in a selection without extent.
pub proof fn empty_selection_has_no_text(segments: Seq<Segment>, sel: HoverSelection, n: int)
    requires
        sel.start == sel.end,
    ensures
        selection_text(segments, sel, n) == Seq::<char>::empty(),
    decreases n,
{
    if n > 0 {
        empty_selection_has_no_text(segments, sel, n - 1);
        empty_selection_covers_nothing(sel, n - 1, text::byte_count(segments[n - 1].text@));
    }
}

// ── runs ──────────────────────────────────────────────────────────────────────

/// `run` with another length.
pub open spec fn with_len(run: TextRun, len: int) -> TextRun {
    TextRun { len: len as usize, ..run }
}

/// The greater of two numbers.
pub open spec fn greater(a: int, b: int) -> int {
    if a < b { b } else { a }
}

/// The pieces that a run at `pos` is cut into by the range from `start` to `end`, each with
/// whether it lies in the range.
pub open spec fn run_pieces(run: TextRun, pos: int, start: int, end: int) -> Seq<(TextRun, bool)> {
    let s = greater(start, pos);
    let e = buffer_view::at_most(end, pos + run.len);
    if s >= e {
        seq![(run, false)]
    } else {
        (if pos < s { seq![(with_len(run, s - pos), false)] } else { Seq::empty() }) + seq![
            (with_len(run, e - s), true),
        ] + (if e < pos + run.len { seq![(with_len(run, pos + run.len - e), false)] } else { Seq::empty() })
    }
}

/// The pieces that runs are cut into by the range from `start` to `end`.
pub open spec fn cut_runs(runs: Seq<TextRun>, start: int, end: int) -> Seq<(TextRun, bool)>
    decreases runs.len(),
{
    if runs.len() == 0 {
        Seq::empty()
    } else {
        cut_runs(runs.drop_last(), start, end) + run_pieces(
            runs.last(),
            buffer_view::total_len(runs.drop_last()),
            start,
            end,
        )
    }
}

/// Whether `out` holds the pieces, with `style` applied to those that lie in the range.
pub open spec fn styled_pieces<F: Fn(TextRun) -> TextRun>(pieces: Seq<(TextRun, bool)>, style: F, out: Seq<TextRun>) -> bool {
    &&& out.len() == pieces.len()
    &&& forall|k: int|
        0 <= k < out.len() ==> if pieces[k].1 {
            call_ensures(style, (pieces[k].0,), #[trigger] out[k])
        } else {
            out[k] == pieces[k].0
        }
}

/// Runs that follow one another are as long as the first of them and the rest.
pub proof fn total_len_of_prefix(runs: Seq<TextRun>, k: int)
    requires
        0 <= k <= runs.len(),
    ensures
        0 <= buffer_view::total_len(runs.take(k)) <= buffer_view::total_len(runs),
    decreases runs.len(),
{
    if k < runs.len() {
        assert(runs.drop_last().take(k) =~= runs.take(k));
        total_len_of_prefix(runs.drop_last(), k);
    } else {
        assert(runs.take(k) =~= runs);
        if runs.len() > 0 {
            total_len_of_prefix(runs.drop_last(), k - 1);
        }
    }
}

/// Cuts `runs` at the ends of a range of bytes and applies `style` to what lies in it. An empty
/// range changes nothing.
pub fn style_run_range<F: Fn(TextRun) -> TextRun>(runs: &mut Vec<TextRun>, range: std::ops::Range<usize>, style: F)
    requires
        buffer_view::total_len(old(runs)@) <= usize::MAX,
        forall|run: TextRun| call_requires(style, (run,)),
    ensures
        range.start >= range.end ==> final(runs)@ == old(runs)@,
        range.start < range.end ==> styled_pieces(
            cut_runs(old(runs)@, range.start as int, range.end as int),
            style,
            final(runs)@,
        ),
{
    if range.start >= range.end {
        return;
    }
    let ghost before = runs@;
    let mut out: Vec<TextRun> = Vec::new();
    let mut pos: usize = 0;
    let mut i: usize = 0;
    while i < runs.len()
        invariant
            i <= runs@.len(),
            runs@ == before,
            buffer_view::total_len(before) <= usize::MAX,
            range.start < range.end,
            forall|run: TextRun| call_requires(style, (run,)),
            pos == buffer_view::total_len(before.take(i as int)),
            styled_pieces(cut_runs(before.take(i as int), range.start as int, range.end as int), style, out@),
        decreases runs@.len() - i,
    {
        let run: TextRun = runs[i];
        proof {
            assert(before.take(i + 1).drop_last() =~= before.take(i as int));
            total_len_of_prefix(before, i + 1);
        }
        let ghost done = out@;
        let ghost cut = cut_runs(before.take(i as int), range.start as int, range.end as int);
        let run_end: usize = pos + run.len;
        let s: usize = if range.start < pos { pos } else { range.start };
        let e: usize = if range.end < run_end { range.end } else { run_end };
        if s >= e {
            out.push(run);
        } else {
            if s > pos {
                out.push(TextRun { len: s - pos, ..run });
            }
            let mid: TextRun = style(TextRun { len: e - s, ..run });
            out.push(mid);
            if e < run_end {
                out.push(TextRun { len: run_end - e, ..run });
            }
        }
        proof {
            let pieces = run_pieces(run, pos as int, range.start as int, range.end as int);
            assert(cut_runs(before.take(i + 1), range.start as int, range.end as int) =~= cut + pieces);
            assert(out@.len() == done.len() + pieces.len());
            assert forall|k: int| 0 <= k < out@.len() implies if (cut + pieces)[k].1 {
                call_ensures(style, ((cut + pieces)[k].0,), #[trigger] out@[k])
            } else {
                out@[k] == (cut + pieces)[k].0
            } by {
                if k < done.len() {
                    assert(out@[k] == done[k]);
                    assert((cut + pieces)[k] == cut[k]);
                } else {
                    assert((cut + pieces)[k] == pieces[k - cut.len()]);
                }
            }
        }
        pos = run_end;
        i = i + 1;
    }
    assert(before.take(i as int) =~= before);
    *runs = out;
}

/// Whether runs tile a text: they are as long as it together, and each of them ends where a
/// character does.
pub open spec fn runs_tile(runs: Seq<TextRun>, s: Seq<char>) -> bool {
    &&& buffer_view::total_len(runs) == text::byte_count(s)
    &&& forall|k: int| 0 <= k <= runs.len() ==> text::starts_char(s, #[trigger] buffer_view::total_len(runs.take(k)))
}

/// Whether runs tile a text.
pub fn runs_tile_text(runs: &[TextRun], s: &str) -> (b: bool)
    ensures
        b == runs_tile(runs@, s@),
{
    let n: usize = byte_len(s);
    let mut ix: usize = 0;
    let mut k: usize = 0;
    proof {
        text::starts_char_at(s@, 0);
        assert(s@.take(0) =~= Seq::<char>::empty());
        assert(vstd::utf8::encode_utf8(s@.take(0)) =~= Seq::<u8>::empty());
    }
    while k < runs.len()
        invariant
            k <= runs@.len(),
            n == text::byte_count(s@),
            ix <= n,
            ix == buffer_view::total_len(runs@.take(k as int)),
            forall|j: int| 0 <= j <= k ==> text::starts_char(s@, #[trigger] buffer_view::total_len(runs@.take(j))),
        decreases runs@.len() - k,
    {
        proof {
            assert(runs@.take(k + 1).drop_last() =~= runs@.take(k as int));
            total_len_of_prefix(runs@, k + 1);
        }
        let len: usize = runs[k].len;
        if len > n - ix {
            return false;
        }
        ix = ix + len;
        let (_, pos) = char_at_byte(s, ix);
        if pos != ix {
            assert(!text::starts_char(s@, buffer_view::total_len(runs@.take(k + 1))));
            return false;
        }
        k = k + 1;
    }
    assert(runs@.take(k as int) =~= runs@);
    ix == n
}

/// Runs that follow one another are as long together as each of the two parts.
pub proof fn total_len_of_joined(a: Seq<TextRun>, b: Seq<TextRun>)
    ensures
        buffer_view::total_len(a + b) == buffer_view::total_len(a) + buffer_view::total_len(b),
    decreases b.len(),
{
    if b.len() == 0 {
        assert(a + b =~= a);
    } else {
        assert((a + b).drop_last() =~= a + b.drop_last());
        total_len_of_joined(a, b.drop_last());
    }
}

/// Runs that tile two texts tile the two in a row.
pub proof fn tiling_joins(a: Seq<TextRun>, s: Seq<char>, b: Seq<TextRun>, t: Seq<char>)
    requires
        runs_tile(a, s),
        runs_tile(b, t),
    ensures
        runs_tile(a + b, s + t),
{
    total_len_of_joined(a, b);
    text::encoding_of_joined(s, t);
    assert forall|k: int| 0 <= k <= (a + b).len() implies text::starts_char(
        s + t,
        #[trigger] buffer_view::total_len((a + b).take(k)),
    ) by {
        if k <= a.len() {
            assert((a + b).take(k) =~= a.take(k));
            text::starts_char_in_joined(s, t, buffer_view::total_len(a.take(k)));
        } else {
            let j = k - a.len();
            assert((a + b).take(k) =~= a + b.take(j));
            total_len_of_joined(a, b.take(j));
            text::starts_char_in_joined(s, t, buffer_view::total_len(b.take(j)));
        }
    }
}

/// One run as long as a text tiles it.
pub proof fn one_run_tiles(run: TextRun, s: Seq<char>)
    requires
        run.len == text::byte_count(s),
    ensures
        runs_tile(seq![run], s),
        runs_tile(Seq::empty(), Seq::empty()),
{
    let runs = seq![run];
    assert(runs.drop_last() =~= Seq::empty());
    assert(buffer_view::total_len(Seq::empty()) == 0);
    assert(buffer_view::total_len(runs) == run.len);
    assert(s.take(s.len() as int) =~= s);
    assert(s.take(0) =~= Seq::<char>::empty());
    assert(vstd::utf8::encode_utf8(Seq::<char>::empty()) =~= Seq::<u8>::empty());
    text::starts_char_at(s, 0);
    text::starts_char_at(s, s.len() as int);
    text::starts_char_at(Seq::empty(), 0);
    assert(Seq::<char>::empty().take(0) =~= Seq::<char>::empty());
    assert forall|k: int| 0 <= k <= 1 implies text::starts_char(s, #[trigger] buffer_view::total_len(runs.take(k))) by {
        if k == 0 {
            assert(runs.take(0) =~= Seq::empty());
        } else {
            assert(runs.take(1) =~= runs);
        }
    }
    assert forall|k: int| 0 <= k <= 0 implies text::starts_char(
        Seq::<char>::empty(),
        #[trigger] buffer_view::total_len(Seq::<TextRun>::empty().take(k)),
    ) by {
        assert(Seq::<TextRun>::empty().take(0) =~= Seq::<TextRun>::empty());
    }
}

/// The byte at which a click on a segment finds a link, if any: the first link that holds it.
pub fn link_at_byte(seg: &Segment, byte: usize) -> (r: Option<usize>)
    ensures
        r matches Some(i) ==> i < seg.links@.len() && seg.links@[i as int].start <= byte < seg.links@[i as int].end
            && forall|j: int| 0 <= j < i ==> !((#[trigger] seg.links@[j]).start <= byte < seg.links@[j].end),
        r is None ==> forall|j: int|
            0 <= j < seg.links@.len() ==> !((#[trigger] seg.links@[j]).start <= byte < seg.links@[j].end),
{
    let mut i: usize = 0;
    while i < seg.links.len()
        invariant
            i <= seg.links@.len(),
            forall|j: int| 0 <= j < i ==> !((#[trigger] seg.links@[j]).start <= byte < seg.links@[j].end),
        decreases seg.links@.len() - i,
    {
        if seg.links[i].start <= byte && byte < seg.links[i].end {
            return Some(i);
        }
        i = i + 1;
    }
    None
}

/// A run of a selected stretch.
pub open spec fn selected_run(run: TextRun) -> TextRun {
    TextRun { background: Some(buffer_view::ColorRole::Selection), ..run }
}

/// Runs with a range of bytes selected.
pub open spec fn selected_runs(runs: Seq<TextRun>, range: Option<std::ops::Range<usize>>) -> Seq<TextRun> {
    match range {
        Some(r) => if r.start < r.end {
            cut_runs(runs, r.start as int, r.end as int).map_values(
                |p: (TextRun, bool)| if p.1 { selected_run(p.0) } else { p.0 },
            )
        } else {
            runs
        },
        None => runs,
    }
}

/// The runs that a segment is painted in; `None` where it has no style of its own. A line of
/// code whose runs do not tile it is painted in the style of its first run.
pub open spec fn shown_runs(kind: SegmentKind, s: Seq<char>, runs: Seq<TextRun>) -> Option<Seq<TextRun>> {
    if kind is Code && !runs_tile(runs, s) {
        if runs.len() > 0 && s.len() > 0 {
            Some(seq![TextRun { len: text::byte_count(s) as usize, background: None, ..runs[0] }])
        } else {
            None
        }
    } else {
        Some(runs)
    }
}

/// The runs that a segment is painted in, with a range of bytes selected; `None` where it has no
/// style of its own.
pub fn segment_runs(seg: &Segment, sel_range: Option<std::ops::Range<usize>>) -> (r: Option<Vec<TextRun>>)
    requires
        buffer_view::total_len(seg.runs@) <= usize::MAX,
    ensures
        r matches Some(v) ==> shown_runs(seg.kind, seg.text@, selected_runs(seg.runs@, sel_range)) == Some(v@),
        r is None ==> shown_runs(seg.kind, seg.text@, selected_runs(seg.runs@, sel_range)) is None,
{
    let mut runs: Vec<TextRun> = seg.runs.clone();
    assert(runs@ =~= seg.runs@);
    if let Some(range) = sel_range {
        let start: usize = range.start;
        let end: usize = range.end;
        let paint = |run: TextRun| -> (out: TextRun)
            ensures
                out == selected_run(run),
            { TextRun { background: Some(buffer_view::ColorRole::Selection), ..run } };
        style_run_range(&mut runs, range, paint);
        proof {
            if start < end {
                assert(runs@ =~= selected_runs(seg.runs@, sel_range));
            }
        }
    }
    let is_code: bool = match seg.kind {
        SegmentKind::Code => true,
        _ => false,
    };
    if is_code && !runs_tile_text(runs.as_slice(), seg.text.as_str()) {
        if runs.len() > 0 && !seg.text.as_str().is_empty() {
            let mut one: Vec<TextRun> = Vec::new();
            one.push(TextRun { len: byte_len(seg.text.as_str()), background: None, ..runs[0] });
            return Some(one);
        }
        return None;
    }
    Some(runs)
}

} // verus!
