//! Outlines and inline text: the breadcrumb of a line, the color of its entries, and the division
//! of inline text at hard breaks.
use vstd::prelude::*;

use crate::markdown::{InlineRun, Outline, OutlineItem, SyntaxToken};
use crate::order;
use crate::text::same_text;

verus! {

/// Whether the first `n` items of an outline are those that start at or above `line`, as far as
/// no item below it interrupts them.
pub open spec fn leads(items: Seq<OutlineItem>, line: int, n: int) -> bool {
    &&& 0 <= n <= items.len()
    &&& forall|i: int| 0 <= i < n ==> (#[trigger] items[i]).source_line <= line
    &&& n < items.len() ==> items[n].source_line > line
}

/// Whether item `i` still encloses what follows the first `n` items: none of those after it is as
/// shallow as it is.
pub open spec fn encloses(items: Seq<OutlineItem>, n: int, i: int) -> bool {
    &&& 0 <= i < n
    &&& forall|j: int| i < j < n ==> (#[trigger] items[j]).depth > items[i].depth
}

/// Whether `ix` lists the items that enclose what follows the first `n`, outermost first.
pub open spec fn breadcrumb(items: Seq<OutlineItem>, n: int, ix: Seq<int>) -> bool {
    &&& forall|k: int| 0 <= k < ix.len() ==> encloses(items, n, #[trigger] ix[k])
    &&& forall|j: int, k: int| 0 <= j < k < ix.len() ==> #[trigger] ix[j] < #[trigger] ix[k]
    &&& forall|i: int| #[trigger] encloses(items, n, i) ==> ix.contains(i)
}

/// The items of an outline that enclose the line `top_line`, outermost first.
pub fn breadcrumb_stack<'a>(outline: &'a Outline, top_line: usize) -> (r: Vec<&'a OutlineItem>)
    ensures
        exists|n: int, ix: Seq<int>|
            #![trigger breadcrumb(outline.items@, n, ix)]
            leads(outline.items@, top_line as int, n) && breadcrumb(outline.items@, n, ix) && r@.len() == ix.len()
                && forall|k: int| 0 <= k < ix.len() ==> *(#[trigger] r@[k]) == outline.items@[ix[k]],
{
    let ghost items = outline.items@;
    let mut stack: Vec<usize> = Vec::new();
    let mut n: usize = 0;
    while n < outline.items.len() && outline.items[n].source_line <= top_line
        invariant
            n <= items.len(),
            items == outline.items@,
            forall|i: int| 0 <= i < n ==> (#[trigger] items[i]).source_line <= top_line,
            breadcrumb(items, n as int, stack@.map_values(|i: usize| i as int)),
            forall|k: int| 0 <= k < stack@.len() ==> (#[trigger] stack@[k]) < n,
        ensures
            leads(items, top_line as int, n as int),
        decreases items.len() - n,
    {
        let ghost full = stack@;
        while stack.len() > 0 && outline.items[stack[stack.len() - 1]].depth >= outline.items[n].depth
            invariant
                n < items.len(),
                items == outline.items@,
                stack@.len() <= full.len(),
                stack@ == full.take(stack@.len() as int),
                breadcrumb(items, n as int, full.map_values(|i: usize| i as int)),
                forall|k: int| 0 <= k < full.len() ==> (#[trigger] full[k]) < n,
                forall|k: int| stack@.len() <= k < full.len() ==> items[(#[trigger] full[k]) as int].depth >= items[n as int].depth,
            ensures
                stack@.len() > 0 ==> items[stack@[stack@.len() - 1] as int].depth < items[n as int].depth,
            decreases stack@.len(),
        {
            let _top: Option<usize> = stack.pop();
            assert(stack@ =~= full.take(stack@.len() as int));
        }
        proof {
            push_breadcrumb(items, n as int, full, stack@);
        }
        stack.push(n);
        n = n + 1;
    }
    let mut r: Vec<&'a OutlineItem> = Vec::new();
    let mut k: usize = 0;
    while k < stack.len()
        invariant
            k <= stack@.len(),
            items == outline.items@,
            r@.len() == k,
            forall|j: int| 0 <= j < stack@.len() ==> (#[trigger] stack@[j]) < items.len(),
            forall|j: int| 0 <= j < k ==> *(#[trigger] r@[j]) == items[stack@[j] as int],
        decreases stack@.len() - k,
    {
        r.push(&outline.items[stack[k]]);
        k = k + 1;
    }
    assert(breadcrumb(items, n as int, stack@.map_values(|i: usize| i as int)));
    r
}

proof fn push_breadcrumb(items: Seq<OutlineItem>, n: int, full: Seq<usize>, kept: Seq<usize>)
    requires
        0 <= n < items.len(),
        n <= usize::MAX,
        breadcrumb(items, n, full.map_values(|i: usize| i as int)),
        kept.len() <= full.len(),
        kept == full.take(kept.len() as int),
        forall|k: int| kept.len() <= k < full.len() ==> items[(#[trigger] full[k]) as int].depth >= items[n].depth,
        kept.len() > 0 ==> items[kept[kept.len() - 1] as int].depth < items[n].depth,
    ensures
        breadcrumb(items, n + 1, kept.push(n as usize).map_values(|i: usize| i as int)),
{
    let old_ix = full.map_values(|i: usize| i as int);
    let ix = kept.push(n as usize).map_values(|i: usize| i as int);
    assert forall|k: int| 0 <= k < ix.len() implies encloses(items, n + 1, #[trigger] ix[k]) by {
        if k < kept.len() {
            assert(ix[k] == old_ix[k]);
            let last = kept.len() - 1;
            assert(ix[last] == old_ix[last]);
            assert(encloses(items, n, old_ix[k]));
            assert(encloses(items, n, old_ix[last]));
            if k < last {
                assert(old_ix[k] < old_ix[last]);
            }
        }
    }
    assert forall|j: int, k: int| 0 <= j < k < ix.len() implies #[trigger] ix[j] < #[trigger] ix[k] by {
        assert(ix[j] == old_ix[j]);
        assert(encloses(items, n, old_ix[j]));
        if k < kept.len() {
            assert(ix[k] == old_ix[k]);
        }
    }
    assert forall|i: int| #[trigger] encloses(items, n + 1, i) implies ix.contains(i) by {
        if i == n {
            assert(ix[kept.len() as int] == n);
        } else {
            assert(encloses(items, n, i)) by {
                assert forall|j: int| i < j < n implies (#[trigger] items[j]).depth > items[i].depth by {}
            }
            let k = choose|k: int| 0 <= k < old_ix.len() && old_ix[k] == i;
            assert(items[n].depth > items[i].depth);
            assert(full[k] == i);
            assert(ix[k] == i);
        }
    }
}

/// In a breadcrumb every entry is deeper than the one before it.
pub proof fn breadcrumb_deepens(items: Seq<OutlineItem>, n: int, ix: Seq<int>)
    requires
        0 <= n <= items.len(),
        breadcrumb(items, n, ix),
    ensures
        forall|j: int, k: int|
            0 <= j < k < ix.len() ==> items[#[trigger] ix[j]].depth < items[#[trigger] ix[k]].depth,
{
    assert forall|j: int, k: int| 0 <= j < k < ix.len() implies items[#[trigger] ix[j]].depth < items[
        #[trigger] ix[k]].depth by {
        assert(encloses(items, n, ix[j]));
        assert(encloses(items, n, ix[k]));
    }
}

/// The innermost entry of a breadcrumb is the last item that starts at or above the line.
pub proof fn breadcrumb_ends_with_last(items: Seq<OutlineItem>, n: int, ix: Seq<int>)
    requires
        0 < n <= items.len(),
        breadcrumb(items, n, ix),
    ensures
        ix.len() > 0,
        ix.last() == n - 1,
{
    assert(encloses(items, n, n - 1));
    let k = choose|k: int| 0 <= k < ix.len() && ix[k] == n - 1;
    assert(encloses(items, n, ix[ix.len() - 1]));
}

/// There is one list of the items that enclose a line.
pub proof fn breadcrumb_is_unique(items: Seq<OutlineItem>, line: int, n: int, a: Seq<int>, m: int, b: Seq<int>)
    requires
        leads(items, line, n),
        breadcrumb(items, n, a),
        leads(items, line, m),
        breadcrumb(items, m, b),
    ensures
        n == m,
        a == b,
{
    if n < m {
        assert(items[n].source_line <= line);
    }
    if m < n {
        assert(items[m].source_line <= line);
    }
    assert forall|x: int| a.contains(x) <==> b.contains(x) by {
        if a.contains(x) {
            let k = choose|k: int| 0 <= k < a.len() && a[k] == x;
            assert(encloses(items, n, a[k]));
        }
        if b.contains(x) {
            let k = choose|k: int| 0 <= k < b.len() && b[k] == x;
            assert(encloses(items, n, b[k]));
        }
    }
    order::same_numbers_same_sequence(a, b);
}

/// The syntax token that an outline entry of the given keyword is colored as.
pub open spec fn token_of_context(context: Seq<char>) -> Option<SyntaxToken> {
    if context == "fn"@ {
        Some(SyntaxToken::Function)
    } else if context == "struct"@ || context == "enum"@ || context == "trait"@ || context == "type"@ || context
        == "impl"@ {
        Some(SyntaxToken::Type)
    } else if context == "mod"@ {
        Some(SyntaxToken::Namespace)
    } else if context == "const"@ {
        Some(SyntaxToken::Constant)
    } else {
        None
    }
}

/// The syntax token that an outline entry of the given keyword is colored as.
pub fn context_to_token(context: Option<&str>) -> (r: Option<SyntaxToken>)
    ensures
        r == match context {
            Some(c) => token_of_context(c@),
            None => None,
        },
{
    let c: &str = match context {
        Some(c) => c,
        None => return None,
    };
    if same_text(c, "fn") {
        Some(SyntaxToken::Function)
    } else if same_text(c, "struct") || same_text(c, "enum") || same_text(c, "trait") || same_text(c, "type")
        || same_text(c, "impl") {
        Some(SyntaxToken::Type)
    } else if same_text(c, "mod") {
        Some(SyntaxToken::Namespace)
    } else if same_text(c, "const") {
        Some(SyntaxToken::Constant)
    } else {
        None
    }
}

/// The lines that hard breaks divide `inlines` into; one more than there are breaks.
pub open spec fn hard_lines(inlines: Seq<InlineRun>) -> Seq<Seq<InlineRun>>
    decreases inlines.len(),
{
    if inlines.len() == 0 {
        seq![Seq::empty()]
    } else {
        let lines = hard_lines(inlines.drop_last());
        if inlines.last() is HardBreak {
            lines.push(Seq::empty())
        } else {
            lines.drop_last().push(lines.last().push(inlines.last()))
        }
    }
}

/// `lines` in a row, with a hard break between each two.
pub open spec fn rejoined(lines: Seq<Seq<InlineRun>>) -> Seq<InlineRun>
    decreases lines.len(),
{
    if lines.len() == 0 {
        Seq::empty()
    } else if lines.len() == 1 {
        lines[0]
    } else {
        rejoined(lines.drop_last()).push(InlineRun::HardBreak) + lines.last()
    }
}

/// Divides inline text into lines at its hard breaks.
pub fn split_at_hard_breaks(inlines: &[InlineRun]) -> (lines: Vec<Vec<InlineRun>>)
    ensures
        lines@.len() == hard_lines(inlines@).len(),
        forall|i: int| 0 <= i < lines@.len() ==> (#[trigger] lines@[i])@ == hard_lines(inlines@)[i],
{
    let mut lines: Vec<Vec<InlineRun>> = Vec::new();
    let mut line: Vec<InlineRun> = Vec::new();
    let mut i: usize = 0;
    while i < inlines.len()
        invariant
            i <= inlines@.len(),
            lines@.len() + 1 == hard_lines(inlines@.take(i as int)).len(),
            forall|k: int| 0 <= k < lines@.len() ==> (#[trigger] lines@[k])@ == hard_lines(inlines@.take(i as int))[k],
            line@ == hard_lines(inlines@.take(i as int)).last(),
        decreases inlines@.len() - i,
    {
        assert(inlines@.take(i + 1).drop_last() =~= inlines@.take(i as int));
        match &inlines[i] {
            InlineRun::HardBreak => {
                lines.push(line);
                line = Vec::new();
            },
            _ => {
                line.push(inlines[i].clone());
            },
        }
        i = i + 1;
    }
    assert(inlines@.take(i as int) =~= inlines@);
    lines.push(line);
    lines
}

/// A division at hard breaks loses nothing: the lines rejoined with breaks are the text, and no
/// line holds a break.
pub proof fn hard_lines_rejoin(inlines: Seq<InlineRun>)
    ensures
        hard_lines(inlines).len() > 0,
        rejoined(hard_lines(inlines)) == inlines,
        forall|i: int, j: int|
            0 <= i < hard_lines(inlines).len() && 0 <= j < hard_lines(inlines)[i].len() ==> !(#[trigger] hard_lines(
                inlines,
            )[i][j] is HardBreak),
    decreases inlines.len(),
{
    let lines = hard_lines(inlines);
    if inlines.len() > 0 {
        let before = hard_lines(inlines.drop_last());
        hard_lines_rejoin(inlines.drop_last());
        assert(inlines =~= inlines.drop_last().push(inlines.last()));
        if inlines.last() is HardBreak {
            assert(lines.drop_last() =~= before);
            assert(rejoined(lines) =~= inlines);
        } else {
            assert(lines.drop_last() =~= before.drop_last());
            if lines.len() == 1 {
                assert(rejoined(before) =~= before[0]);
                assert(rejoined(lines) =~= inlines);
            } else {
                assert(rejoined(lines) =~= inlines);
            }
            assert forall|i: int, j: int| 0 <= i < lines.len() && 0 <= j < lines[i].len() implies !(#[trigger] lines[i][j] is HardBreak) by {
                if i < before.len() - 1 {
                    assert(lines[i] == before[i]);
                } else if j < before[i].len() {
                    assert(lines[i][j] == before[i][j]);
                }
            }
        }
    }
}

} // verus!
