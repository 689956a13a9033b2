//! The outline overlay: a filtered list of headings or symbols to jump to.
use vstd::prelude::*;

use crate::markdown::{copy_text, Outline, OutlineItem};
use crate::search::InputFocus;
use crate::text;
use crate::text::{contains_text, to_lowered_text};
use crate::text_input::TextInput;

verus! {

/// The outline overlay of an editor.
#[derive(Debug)]
pub struct OutlineOverlay {
    pub open: bool,
    pub input: TextInput,
    /// The entry under the mouse, among those that are listed.
    pub hover: Option<usize>,
    /// The first line of the highlighted section, and the one behind its last.
    pub highlight: Option<(usize, usize)>,
}

/// Whether an entry is listed for a query: its name contains it, whatever the case.
pub open spec fn matches_query(item: OutlineItem, query: Seq<char>) -> bool {
    query.len() == 0 || text::contains(text::lowered_text(item.name@), text::lowered_text(query))
}

/// Whether `ix` lists the entries that a query matches, in order.
pub open spec fn listed(items: Seq<OutlineItem>, query: Seq<char>, ix: Seq<usize>) -> bool {
    &&& forall|k: int| 0 <= k < ix.len() ==> (#[trigger] ix[k]) < items.len() && matches_query(items[ix[k] as int], query)
    &&& forall|j: int, k: int| 0 <= j < k < ix.len() ==> #[trigger] ix[j] < #[trigger] ix[k]
    &&& forall|i: usize| i < items.len() && matches_query(items[i as int], query) ==> #[trigger] ix.contains(i)
}

/// Whether a query matches an entry.
fn is_match(item: &OutlineItem, query: &str) -> (b: bool)
    ensures
        b == matches_query(*item, query@),
{
    if query.is_empty() {
        return true;
    }
    let name: String = to_lowered_text(item.name.as_str());
    let part: String = to_lowered_text(query);
    contains_text(name.as_str(), part.as_str())
}

/// The entries that a query matches, in order.
pub fn filter_outline(outline: &Outline, query: &str) -> (ix: Vec<usize>)
    ensures
        listed(outline.items@, query@, ix@),
{
    let ghost items = outline.items@;
    let mut ix: Vec<usize> = Vec::new();
    let mut i: usize = 0;
    while i < outline.items.len()
        invariant
            i <= items.len(),
            items == outline.items@,
            forall|k: int| 0 <= k < ix@.len() ==> (#[trigger] ix@[k]) < i && matches_query(items[ix@[k] as int], query@),
            forall|j: int, k: int| 0 <= j < k < ix@.len() ==> #[trigger] ix@[j] < #[trigger] ix@[k],
            forall|j: usize| j < i && matches_query(items[j as int], query@) ==> #[trigger] ix@.contains(j),
        decreases items.len() - i,
    {
        let ghost before = ix@;
        if is_match(&outline.items[i], query) {
            ix.push(i);
            assert(ix@[before.len() as int] == i);
        }
        proof {
            assert forall|j: usize| j < i + 1 && matches_query(items[j as int], query@) implies #[trigger] ix@.contains(j) by {
                if j < i {
                    assert(before.contains(j));
                    let k = choose|k: int| 0 <= k < before.len() && before[k] == j;
                    assert(ix@[k] == j);
                }
            }
        }
        i = i + 1;
    }
    ix
}

/// Whether line `line` is where the first entry that a query matches starts; `None` where it
/// matches none.
pub open spec fn first_line(items: Seq<OutlineItem>, query: Seq<char>, line: Option<usize>) -> bool {
    match line {
        Some(l) => exists|i: int|
            0 <= i < items.len() && matches_query(#[trigger] items[i], query) && items[i].source_line == l && forall|
                j: int,
            |
                0 <= j < i ==> !matches_query(#[trigger] items[j], query),
        None => forall|j: int| 0 <= j < items.len() ==> !matches_query(#[trigger] items[j], query),
    }
}

/// Where the first entry that a query matches starts.
pub fn first_matching_line(outline: &Outline, query: &str) -> (line: Option<usize>)
    ensures
        first_line(outline.items@, query@, line),
{
    let mut i: usize = 0;
    while i < outline.items.len()
        invariant
            i <= outline.items@.len(),
            forall|j: int| 0 <= j < i ==> !matches_query(#[trigger] outline.items@[j], query@),
        decreases outline.items@.len() - i,
    {
        if is_match(&outline.items[i], query) {
            assert(matches_query(outline.items@[i as int], query@));
            return Some(outline.items[i].source_line);
        }
        i = i + 1;
    }
    None
}

/// The first entry from `from` on that starts below `line`; the number of entries where none
/// does.
pub open spec fn first_below(items: Seq<OutlineItem>, line: int, from: int) -> int
    decreases items.len() - from,
{
    if from >= items.len() || items[from].source_line > line { from } else { first_below(items, line, from + 1) }
}

/// Where the first entry from `from` on that is at most as deep as `depth` starts; the greatest
/// line number where there is none.
pub open spec fn next_section(items: Seq<OutlineItem>, depth: u32, from: int) -> usize
    decreases items.len() - from,
{
    if from >= items.len() {
        usize::MAX
    } else if items[from].depth <= depth {
        items[from].source_line
    } else {
        next_section(items, depth, from + 1)
    }
}

/// The line behind the section of entry `i`. That of a heading goes on to the next heading that is
/// at most as deep, even one that a query hides; that of a symbol is its body.
pub open spec fn section_end(items: Seq<OutlineItem>, i: int) -> int {
    let item = items[i];
    if item.block_ix is Some {
        next_section(items, item.depth, first_below(items, item.source_line as int, 0)) as int
    } else {
        item.end_line + 1
    }
}

/// The line behind the section of entry `i`.
pub fn highlight_end(outline: &Outline, i: usize) -> (end: usize)
    requires
        i < outline.items@.len(),
        outline.items@[i as int].end_line < usize::MAX,
    ensures
        end == section_end(outline.items@, i as int),
{
    let ghost items = outline.items@;
    let item: &OutlineItem = &outline.items[i];
    if item.block_ix.is_none() {
        return item.end_line + 1;
    }
    let mut k: usize = 0;
    while k < outline.items.len() && outline.items[k].source_line <= item.source_line
        invariant
            k <= items.len(),
            items == outline.items@,
            first_below(items, item.source_line as int, 0) == first_below(items, item.source_line as int, k as int),
        ensures
            k == first_below(items, item.source_line as int, 0),
        decreases items.len() - k,
    {
        k = k + 1;
    }
    let ghost start = k as int;
    while k < outline.items.len()
        invariant
            start <= k <= items.len(),
            items == outline.items@,
            i < items.len(),
            *item == items[i as int],
            item.block_ix is Some,
            start == first_below(items, item.source_line as int, 0),
            next_section(items, item.depth, start) == next_section(items, item.depth, k as int),
        decreases items.len() - k,
    {
        if outline.items[k].depth <= item.depth {
            return outline.items[k].source_line;
        }
        k = k + 1;
    }
    usize::MAX
}

/// One row of the outline overlay.
#[derive(Debug)]
pub struct OutlineRow {
    pub name: String,
    pub context: Option<String>,
    /// How far the row is indented, in pixels.
    pub indent: u64,
    pub hovered: bool,
    /// The lines that the row leads to and highlights.
    pub source_line: usize,
    pub section_end: usize,
}

/// What the outline overlay shows below its input.
#[derive(Debug)]
pub enum OutlineBody {
    NoHeadings,
    NoMatches,
    Rows(Vec<OutlineRow>),
}

/// Pixels that each level of an outline is indented by.
pub const OUTLINE_INDENT: u64 = 14;

/// Whether `row` shows entry `i`, which is listed at `list_ix`.
pub open spec fn shows_item(items: Seq<OutlineItem>, i: int, list_ix: int, hover: Option<usize>, row: OutlineRow) -> bool {
    &&& row.name == items[i].name
    &&& row.context == items[i].context
    &&& row.indent == items[i].depth * OUTLINE_INDENT
    &&& row.hovered == (hover == Some(list_ix as usize))
    &&& row.source_line == items[i].source_line
    &&& row.section_end == section_end(items, i)
}

/// What the outline overlay shows for a query.
pub fn outline_body(outline: &Outline, query: &str, hover: Option<usize>) -> (body: OutlineBody)
    requires
        forall|i: int| 0 <= i < outline.items@.len() ==> (#[trigger] outline.items@[i]).end_line < usize::MAX,
    ensures
        match body {
            OutlineBody::NoHeadings => outline.items@.len() == 0,
            OutlineBody::NoMatches => outline.items@.len() > 0 && listed(outline.items@, query@, Seq::empty()),
            OutlineBody::Rows(rows) => exists|ix: Seq<usize>|
                #![trigger listed(outline.items@, query@, ix)]
                rows@.len() > 0 && rows@.len() == ix.len() && listed(outline.items@, query@, ix) && forall|k: int|
                    0 <= k < ix.len() ==> shows_item(outline.items@, ix[k] as int, k, hover, #[trigger] rows@[k]),
        },
{
    if outline.items.len() == 0 {
        return OutlineBody::NoHeadings;
    }
    let ix: Vec<usize> = filter_outline(outline, query);
    if ix.len() == 0 {
        assert(ix@ =~= Seq::empty());
        return OutlineBody::NoMatches;
    }
    let mut rows: Vec<OutlineRow> = Vec::new();
    let mut k: usize = 0;
    while k < ix.len()
        invariant
            k <= ix@.len(),
            listed(outline.items@, query@, ix@),
            forall|i: int| 0 <= i < outline.items@.len() ==> (#[trigger] outline.items@[i]).end_line < usize::MAX,
            rows@.len() == k,
            forall|j: int| 0 <= j < k ==> shows_item(outline.items@, ix@[j] as int, j, hover, #[trigger] rows@[j]),
        decreases ix@.len() - k,
    {
        let item: &OutlineItem = &outline.items[ix[k]];
        let hovered: bool = match hover {
            Some(h) => h == k,
            None => false,
        };
        rows.push(
            OutlineRow {
                name: item.name.clone(),
                context: copy_text(&item.context),
                indent: item.depth as u64 * OUTLINE_INDENT,
                hovered,
                source_line: item.source_line,
                section_end: highlight_end(outline, ix[k]),
            },
        );
        k = k + 1;
    }
    assert(listed(outline.items@, query@, ix@));
    OutlineBody::Rows(rows)
}

impl OutlineOverlay {
    /// Whether the caret lies within the input.
    pub open spec fn wf(self) -> bool {
        self.input.wf()
    }

    /// An overlay that is closed and empty.
    pub fn new() -> (r: OutlineOverlay)
        ensures
            !r.open,
            r.input.text@.len() == 0,
            r.input.cursor == 0,
            r.hover is None,
            r.highlight is None,
            r.wf(),
    {
        OutlineOverlay { open: false, input: TextInput::new(), hover: None, highlight: None }
    }

    /// Opens the overlay, or closes it where it is open, with an empty query. Says what is to
    /// have the keyboard.
    pub fn toggle(&mut self) -> (focus: InputFocus)
        ensures
            final(self).open == !old(self).open,
            final(self).input.text@.len() == 0,
            final(self).input.cursor == 0,
            final(self).hover is None,
            final(self).highlight == old(self).highlight,
            focus == if final(self).open { InputFocus::Outline } else { InputFocus::Editor },
            final(self).wf(),
    {
        self.open = !self.open;
        self.input.clear();
        self.hover = None;
        if self.open { InputFocus::Outline } else { InputFocus::Editor }
    }

    /// Closes the overlay. The query stays. Says what is to have the keyboard.
    pub fn close(&mut self) -> (focus: InputFocus)
        requires
            old(self).wf(),
        ensures
            *final(self) == (OutlineOverlay { open: false, hover: None, highlight: None, ..*old(self) }),
            focus == InputFocus::Editor,
            final(self).wf(),
    {
        self.open = false;
        self.hover = None;
        self.highlight = None;
        InputFocus::Editor
    }

    /// Takes note that the mouse is over listed entry `list_ix`, whose section is the lines from
    /// `start` to `end`. Says whether it has moved to another entry.
    pub fn hover_entry(&mut self, list_ix: usize, start: usize, end: usize) -> (moved: bool)
        requires
            old(self).wf(),
        ensures
            moved == (old(self).hover != Some(list_ix)),
            moved ==> *final(self) == (OutlineOverlay {
                hover: Some(list_ix),
                highlight: Some((start, end)),
                ..*old(self)
            }),
            !moved ==> *final(self) == *old(self),
            final(self).wf(),
    {
        let same: bool = match self.hover {
            Some(i) => i == list_ix,
            None => false,
        };
        if same {
            return false;
        }
        self.hover = Some(list_ix);
        self.highlight = Some((start, end));
        true
    }
}

/// The section of a heading ends below where it starts.
pub proof fn section_ends_below(items: Seq<OutlineItem>, i: int)
    requires
        0 <= i < items.len(),
        items[i].block_ix is Some,
        forall|j: int, k: int| 0 <= j <= k < items.len() ==> (#[trigger] items[j]).source_line <= (#[trigger] items[k]).source_line,
        items[i].source_line < usize::MAX,
    ensures
        section_end(items, i) > items[i].source_line,
{
    first_below_bounds(items, items[i].source_line as int, 0);
    next_section_below(items, items[i].depth, first_below(items, items[i].source_line as int, 0), items[i].source_line as int);
}

proof fn first_below_bounds(items: Seq<OutlineItem>, line: int, from: int)
    requires
        0 <= from <= items.len(),
    ensures
        from <= first_below(items, line, from) <= items.len(),
        first_below(items, line, from) < items.len() ==> items[first_below(items, line, from)].source_line > line,
    decreases items.len() - from,
{
    if from < items.len() && items[from].source_line <= line {
        first_below_bounds(items, line, from + 1);
    }
}

proof fn next_section_below(items: Seq<OutlineItem>, depth: u32, from: int, line: int)
    requires
        0 <= from <= items.len(),
        line < usize::MAX,
        forall|k: int| from <= k < items.len() ==> (#[trigger] items[k]).source_line > line,
    ensures
        next_section(items, depth, from) > line,
    decreases items.len() - from,
{
    if from < items.len() && items[from].depth > depth {
        next_section_below(items, depth, from + 1, line);
    }
}

} // verus!
