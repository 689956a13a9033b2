//! How the segments of a popover are grouped: lines of code into panels, lines of a quotation into
//! callouts, images into rows, cells into tables.
use vstd::prelude::*;

use crate::hover_popover;
use crate::hover_popover::{HoverSelection, Segment, SegmentKind};
use crate::text;
use crate::text::byte_len;

verus! {

/// What a segment is shown in.
#[derive(Debug, Clone, Copy, PartialEq, Eq, Structural)]
pub enum Bucket {
    Plain,
    Code,
    Quote,
    Images,
    Table,
}

/// What a segment is shown in: a cell in its table, an image in a row of images, what is quoted
/// in a callout, code in a panel, and the rest by itself.
pub open spec fn bucket(seg: Segment) -> Bucket {
    if seg.table_cell is Some {
        Bucket::Table
    } else if seg.kind is Image {
        Bucket::Images
    } else if seg.quote {
        Bucket::Quote
    } else if seg.kind is Code {
        Bucket::Code
    } else {
        Bucket::Plain
    }
}

/// What a segment is shown in.
pub fn bucket_of(seg: &Segment) -> (b: Bucket)
    ensures
        b == bucket(*seg),
{
    if seg.table_cell.is_some() {
        return Bucket::Table;
    }
    match seg.kind {
        SegmentKind::Image { .. } => Bucket::Images,
        SegmentKind::Code => if seg.quote { Bucket::Quote } else { Bucket::Code },
        _ => if seg.quote { Bucket::Quote } else { Bucket::Plain },
    }
}

/// Segments from `from` to `to` that are shown together.
#[derive(Debug, Clone, Copy, PartialEq, Eq, Structural)]
pub struct Group {
    pub bucket: Bucket,
    pub from: usize,
    pub to: usize,
    /// The gap above the group.
    pub gap: u32,
}

/// Whether a group holds segments of one kind, with the gap of the first above it.
pub open spec fn uniform(segments: Seq<Segment>, g: Group) -> bool {
    &&& g.from < g.to <= segments.len()
    &&& forall|i: int| g.from <= i < g.to ==> bucket(#[trigger] segments[i]) == g.bucket
    &&& g.gap == segments[g.from as int].top_gap
}

/// Whether the first `n` segments are parted into groups of one kind each, as few as possible.
pub open spec fn grouped(segments: Seq<Segment>, groups: Seq<Group>, n: int) -> bool {
    &&& forall|k: int| 0 <= k < groups.len() ==> uniform(segments, #[trigger] groups[k])
    &&& forall|j: int, k: int|
        0 <= j && k == j + 1 && k < groups.len() ==> (#[trigger] groups[j]).to == (#[trigger] groups[k]).from
            && groups[j].bucket != groups[k].bucket
    &&& if groups.len() == 0 { n == 0 } else { groups[0].from == 0 && groups.last().to == n }
}

/// Parts segments into groups of one kind each, as few as possible.
pub fn group_segments(segments: &[Segment]) -> (groups: Vec<Group>)
    ensures
        grouped(segments@, groups@, segments@.len() as int),
{
    let mut groups: Vec<Group> = Vec::new();
    let mut i: usize = 0;
    while i < segments.len()
        invariant
            i <= segments@.len(),
            grouped(segments@, groups@, i as int),
        decreases segments@.len() - i,
    {
        let b: Bucket = bucket_of(&segments[i]);
        let n: usize = groups.len();
        if n > 0 && groups[n - 1].bucket == b {
            let last: Group = groups[n - 1];
            let longer: Group = Group { bucket: last.bucket, from: last.from, to: i + 1, gap: last.gap };
            groups.set(n - 1, longer);
        } else {
            groups.push(Group { bucket: b, from: i, to: i + 1, gap: segments[i].top_gap });
        }
        i = i + 1;
    }
    groups
}

/// The gap above segment `ix` of a group. A panel of code and a table have their lines close
/// together; a callout has no gap above its first line.
pub open spec fn gap_within(segments: Seq<Segment>, g: Group, ix: int) -> u32 {
    match g.bucket {
        Bucket::Plain => segments[ix].top_gap,
        Bucket::Quote => if ix == g.from { 0 } else { segments[ix].top_gap },
        _ => 0,
    }
}

/// The gap above segment `ix` of a group.
pub fn segment_gap(segments: &[Segment], g: Group, ix: usize) -> (gap: u32)
    requires
        ix < segments@.len(),
    ensures
        gap == gap_within(segments@, g, ix as int),
{
    match g.bucket {
        Bucket::Plain => segments[ix].top_gap,
        Bucket::Quote => if ix == g.from { 0 } else { segments[ix].top_gap },
        _ => 0,
    }
}

/// What a selection covers of segment `ix`, in bytes.
pub fn selected_range(segments: &[Segment], selection: Option<HoverSelection>, ix: usize) -> (r: Option<(usize, usize)>)
    requires
        ix < segments@.len(),
    ensures
        match selection {
            None => r is None,
            Some(sel) => match hover_popover::covered(sel, ix as int, text::byte_count(segments@[ix as int].text@)) {
                Some((a, b)) => r == Some((a as usize, b as usize)),
                None => r is None,
            },
        },
{
    match selection {
        None => None,
        Some(sel) => match sel.range_in_segment(ix, byte_len(segments[ix].text.as_str())) {
            Some(range) => Some((range.start, range.end)),
            None => None,
        },
    }
}

/// The rows of a table: a cell in the first column starts a row, and the others join the row
/// that was started last.
pub open spec fn rows_of(segments: Seq<Segment>, from: int, to: int) -> Seq<Seq<usize>>
    decreases to - from,
{
    if to <= from {
        Seq::empty()
    } else {
        let before = rows_of(segments, from, to - 1);
        let ix = (to - 1) as usize;
        match segments[to - 1].table_cell {
            Some((_, col, _)) => if col == 0 {
                before.push(seq![ix])
            } else if before.len() > 0 {
                before.update(before.len() - 1, before.last().push(ix))
            } else {
                before
            },
            None => before,
        }
    }
}

/// Lists by what they hold.
pub open spec fn contents(rows: Seq<Vec<usize>>) -> Seq<Seq<usize>> {
    Seq::new(rows.len(), |i: int| rows[i]@)
}

/// The rows of a table. The first is its header; all but the last have a line below.
pub fn table_rows(segments: &[Segment], g: Group) -> (rows: Vec<Vec<usize>>)
    requires
        g.from <= g.to <= segments@.len(),
    ensures
        contents(rows@) == rows_of(segments@, g.from as int, g.to as int),
{
    let mut rows: Vec<Vec<usize>> = Vec::new();
    let mut i: usize = g.from;
    assert(contents(rows@) =~= Seq::empty());
    while i < g.to
        invariant
            g.from <= i <= g.to,
            g.to <= segments@.len(),
            contents(rows@) == rows_of(segments@, g.from as int, i as int),
        decreases g.to - i,
    {
        let ghost before = rows@;
        if let Some((_, col, _)) = segments[i].table_cell {
            let n: usize = rows.len();
            if col == 0 {
                let mut row: Vec<usize> = Vec::new();
                row.push(i);
                rows.push(row);
                assert(row@ =~= seq![i]);
                assert(contents(rows@) =~= contents(before).push(seq![i]));
            } else if n > 0 {
                match rows.pop() {
                    Some(mut row) => {
                        let ghost short = row@;
                        row.push(i);
                        rows.push(row);
                        assert(contents(rows@) =~= contents(before).update(n - 1, short.push(i)));
                    },
                    None => {},
                }
            }
        }
        i = i + 1;
    }
    rows
}

/// Two ways to group the same segments are the same.
pub proof fn grouping_is_unique(segments: Seq<Segment>, a: Seq<Group>, b: Seq<Group>, n: int, k: int)
    requires
        grouped(segments, a, n),
        grouped(segments, b, n),
        0 <= k < a.len(),
        k < b.len(),
    ensures
        a[k] == b[k],
    decreases k,
{
    if k > 0 {
        grouping_is_unique(segments, a, b, n, k - 1);
        assert(a[k - 1].to == a[k].from);
        assert(b[k - 1].to == b[k].from);
    }
    let x = a[k];
    let y = b[k];
    assert(uniform(segments, x) && uniform(segments, y));
    assert(bucket(segments[x.from as int]) == x.bucket);
    assert(bucket(segments[y.from as int]) == y.bucket);
    group_end_differs(segments, a, n, k);
    group_end_differs(segments, b, n, k);
    if x.to < y.to {
        assert(bucket(segments[x.to as int]) == y.bucket);
    }
    if y.to < x.to {
        assert(bucket(segments[y.to as int]) == x.bucket);
    }
}

proof fn group_end_differs(segments: Seq<Segment>, a: Seq<Group>, n: int, k: int)
    requires
        grouped(segments, a, n),
        0 <= k < a.len(),
    ensures
        a[k].to <= n,
        a[k].to < n ==> k + 1 < a.len() && bucket(segments[a[k].to as int]) != a[k].bucket,
    decreases a.len() - k,
{
    if k + 1 < a.len() {
        group_end_differs(segments, a, n, k + 1);
        assert(a[k].to == a[k + 1].from);
        assert(uniform(segments, a[k + 1]));
        assert(bucket(segments[a[k + 1].from as int]) == a[k + 1].bucket);
    }
}

} // verus!
