//! What a search in all files shows, and what replacing does.
use vstd::prelude::*;

use crate::buffer_view::ColorRole;
use crate::document;
use crate::keys::KeyPress;
use crate::laws::editing;
use crate::project_search_view::{ActiveInput, ProjectSearchInfo, ProjectSearchView, SearchKey};
use crate::project_search_view::{SearchInputs, SearchOption, SearchOptions, Tip, TipKind};
use crate::search;
use crate::search::{Match, MatchInfo, SearchState};
use crate::search_results;
use crate::search_results::{FileSearchResult, ResultRow, RowView, SearchHit, SearchResults};
use crate::text;
use crate::text_input::TextInput;

verus! {

// ── The rows of a file ────────────────────────────────────────────────────────

/// How many lines of context are wanted of a file.
pub open spec fn wanted(m: Map<Seq<Seq<u8>>, usize>, key: Seq<Seq<u8>>) -> int {
    if m.dom().contains(key) { m[key] as int } else { 0 }
}

/// The rows of a collapsed file are its header alone.
pub proof fn collapsed_file_is_its_header(list: SearchResults, i: int)
    requires
        0 <= i < list.results@.len(),
        list.collapsed@.dom().contains(list.results@[i].key()),
    ensures
        list.file_rows(i) == seq![ResultRow::FileHeader { file_idx: i as usize }],
{
}

proof fn rows_in_parts(list: SearchResults, i: int)
    requires
        list.wf(),
        0 <= i < list.results@.len(),
        list.results@[i].hits@.len() > 0,
        !list.collapsed@.dom().contains(list.results@[i].key()),
    ensures
        ({
            let f = list.results@[i];
            let first = f.hits@[0].line as int;
            let last = f.hits@.last().line as int;
            let above = wanted(list.context_above@, f.key());
            let below = wanted(list.context_below@, f.key());
            let up = if above < first { above } else { first };
            let known = list.file_contents@.dom().contains(f.key());
            let n = list.file_contents@[f.key()]@.len() as int;
            let left = if n > last + 1 { n - (last + 1) } else { 0 };
            let down = if !known { 0 } else if below < left { below } else { left };
            let h = seq![ResultRow::FileHeader { file_idx: i as usize }];
            let a = search_results::row_if(first > above, ResultRow::ExpandAbove { file_idx: i as usize });
            let b = search_results::context_rows(i, first - up, first);
            let c = search_results::hit_rows(i, f.hits@.len() as int);
            let d = search_results::context_rows(i, last + 1, last + 1 + down);
            let e = search_results::row_if(!known || last + 1 + below < n, ResultRow::ExpandBelow { file_idx: i as usize });
            &&& list.file_rows(i) == h + a + b + c + d + e
            &&& i <= usize::MAX && f.hits@.len() <= usize::MAX && first < usize::MAX && last < usize::MAX
            &&& last + 1 + down <= usize::MAX
            &&& 0 <= up <= first && 0 <= down && 0 <= above && 0 <= below
            &&& known ==> n <= usize::MAX
        }),
{
    let f = list.results@[i];
    assert(list.results.len() == list.results@.len());
    assert(f.hits.len() == f.hits@.len());
    assert(f.hits@[0].line < usize::MAX);
    assert(f.hits@[f.hits@.len() - 1].line < usize::MAX);
    if list.file_contents@.dom().contains(f.key()) {
        assert(list.file_contents@[f.key()].len() == list.file_contents@[f.key()]@.len());
    }
    let first = f.hits@[0].line as int;
    let last = f.hits@.last().line as int;
    let above = wanted(list.context_above@, f.key());
    let below = wanted(list.context_below@, f.key());
    let up = if above < first { above } else { first };
    let known = list.file_contents@.dom().contains(f.key());
    let n = list.file_contents@[f.key()]@.len() as int;
    let left = if n > last + 1 { n - (last + 1) } else { 0 };
    let down = if !known { 0 } else if below < left { below } else { left };
    let h = seq![ResultRow::FileHeader { file_idx: i as usize }];
    let a = search_results::row_if(first > above, ResultRow::ExpandAbove { file_idx: i as usize });
    let b = search_results::context_rows(i, first - up, first);
    let c = search_results::hit_rows(i, f.hits@.len() as int);
    let d = search_results::context_rows(i, last + 1, last + 1 + down);
    let e = search_results::row_if(!known || last + 1 + below < n, ResultRow::ExpandBelow { file_idx: i as usize });
    assert(list.file_rows(i) =~= h + a + b + c + d + e);
}

/// A row is in a list of rows that is made of six parts where it is in one of them.
proof fn in_one_of_six(
    a: Seq<ResultRow>,
    b: Seq<ResultRow>,
    c: Seq<ResultRow>,
    d: Seq<ResultRow>,
    e: Seq<ResultRow>,
    f: Seq<ResultRow>,
    row: ResultRow,
)
    ensures
        (a + b + c + d + e + f).contains(row) <==> a.contains(row) || b.contains(row) || c.contains(row) || d.contains(row)
            || e.contains(row) || f.contains(row),
{
    in_either(a + b + c + d + e, f, row);
    in_either(a + b + c + d, e, row);
    in_either(a + b + c, d, row);
    in_either(a + b, c, row);
    in_either(a, b, row);
}

proof fn in_either(a: Seq<ResultRow>, b: Seq<ResultRow>, row: ResultRow)
    ensures
        (a + b).contains(row) <==> a.contains(row) || b.contains(row),
{
    if a.contains(row) {
        let k = choose|k: int| 0 <= k < a.len() && a[k] == row;
        assert((a + b)[k] == row);
    }
    if b.contains(row) {
        let k = choose|k: int| 0 <= k < b.len() && b[k] == row;
        assert((a + b)[a.len() + k] == row);
    }
    if (a + b).contains(row) {
        let k = choose|k: int| 0 <= k < (a + b).len() && (a + b)[k] == row;
        if k < a.len() {
            assert(a[k] == row);
        } else {
            assert(b[k - a.len()] == row);
        }
    }
}

proof fn context_row_of(i: int, from: int, to: int, line: usize)
    requires
        0 <= from,
        to <= usize::MAX,
    ensures
        search_results::context_rows(i, from, to).contains(
            ResultRow::ContextLine { file_idx: i as usize, line_number: line },
        ) <==> from <= line < to,
{
    let rows = search_results::context_rows(i, from, to);
    let row = ResultRow::ContextLine { file_idx: i as usize, line_number: line };
    if from <= line < to {
        assert(rows[line - from] == row);
    }
    if rows.contains(row) {
        let k = choose|k: int| 0 <= k < rows.len() && rows[k] == row;
        assert((from + k) as usize == line);
    }
}

proof fn only_context(i: int, from: int, to: int, row: ResultRow)
    ensures
        search_results::context_rows(i, from, to).contains(row) ==> row is ContextLine && row->ContextLine_file_idx == i as usize,
{
    let rows = search_results::context_rows(i, from, to);
    if rows.contains(row) {
        let k = choose|k: int| 0 <= k < rows.len() && rows[k] == row;
    }
}

proof fn only_hits(i: int, n: int, row: ResultRow)
    requires
        0 <= n <= usize::MAX,
    ensures
        search_results::hit_rows(i, n).contains(row) <==> row is Hit && row->Hit_file_idx == i as usize && row->hit_idx < n,
{
    let rows = search_results::hit_rows(i, n);
    if rows.contains(row) {
        let k = choose|k: int| 0 <= k < rows.len() && rows[k] == row;
    }
    if row is Hit && row->Hit_file_idx == i as usize && row->hit_idx < n {
        assert(rows[row->hit_idx as int] == row);
    }
}

proof fn only_row(shown: bool, row: ResultRow, other: ResultRow)
    ensures
        search_results::row_if(shown, row).contains(other) <==> shown && other == row,
{
    if shown {
        assert(search_results::row_if(shown, row)[0] == row);
    }
}

/// A file that is not collapsed shows just the lines of context that are wanted: those before its
/// first match, as many as are wanted above; and those behind its last match, as many as are
/// wanted below, as far as its text is known and goes. It shows every line with matches. Lines
/// before are offered as long as there are any, and lines behind as long as there may be.
pub proof fn file_shows_what_is_wanted(list: SearchResults, i: int, line: usize, hit: usize)
    requires
        list.wf(),
        0 <= i < list.results@.len(),
        list.results@[i].hits@.len() > 0,
        !list.collapsed@.dom().contains(list.results@[i].key()),
    ensures
        ({
            let f = list.results@[i];
            let first = f.hits@[0].line as int;
            let last = f.hits@.last().line as int;
            let above = wanted(list.context_above@, f.key());
            let below = wanted(list.context_below@, f.key());
            let known = list.file_contents@.dom().contains(f.key());
            let n = list.file_contents@[f.key()]@.len() as int;
            let rows = list.file_rows(i);
            &&& rows[0] == ResultRow::FileHeader { file_idx: i as usize }
            &&& rows.contains(ResultRow::ContextLine { file_idx: i as usize, line_number: line }) <==> (first - above <= line
                < first || (known && last < line <= last + below && line < n))
            &&& rows.contains(ResultRow::Hit { file_idx: i as usize, hit_idx: hit }) <==> hit < f.hits@.len()
            &&& rows.contains(ResultRow::ExpandAbove { file_idx: i as usize }) <==> first > above
            &&& rows.contains(ResultRow::ExpandBelow { file_idx: i as usize }) <==> !known || n > last + 1 + below
        }),
{
    rows_in_parts(list, i);
    let f = list.results@[i];
    let first = f.hits@[0].line as int;
    let last = f.hits@.last().line as int;
    let above = wanted(list.context_above@, f.key());
    let below = wanted(list.context_below@, f.key());
    let up = if above < first { above } else { first };
    let known = list.file_contents@.dom().contains(f.key());
    let n = list.file_contents@[f.key()]@.len() as int;
    let left = if n > last + 1 { n - (last + 1) } else { 0 };
    let down = if !known { 0 } else if below < left { below } else { left };
    let head = ResultRow::FileHeader { file_idx: i as usize };
    let up_row = ResultRow::ExpandAbove { file_idx: i as usize };
    let down_row = ResultRow::ExpandBelow { file_idx: i as usize };
    let h = seq![head];
    let a = search_results::row_if(first > above, up_row);
    let b = search_results::context_rows(i, first - up, first);
    let c = search_results::hit_rows(i, f.hits@.len() as int);
    let d = search_results::context_rows(i, last + 1, last + 1 + down);
    let e = search_results::row_if(!known || last + 1 + below < n, down_row);
    let context = ResultRow::ContextLine { file_idx: i as usize, line_number: line };
    let own = ResultRow::Hit { file_idx: i as usize, hit_idx: hit };
    assert forall|row: ResultRow| #[trigger] h.contains(row) <==> row == head by {
        if row == head {
            assert(h[0] == row);
        }
    }
    in_one_of_six(h, a, b, c, d, e, context);
    in_one_of_six(h, a, b, c, d, e, own);
    in_one_of_six(h, a, b, c, d, e, up_row);
    in_one_of_six(h, a, b, c, d, e, down_row);
    context_row_of(i, first - up, first, line);
    context_row_of(i, last + 1, last + 1 + down, line);
    only_hits(i, f.hits@.len() as int, context);
    only_hits(i, f.hits@.len() as int, own);
    only_hits(i, f.hits@.len() as int, up_row);
    only_hits(i, f.hits@.len() as int, down_row);
    only_context(i, first - up, first, own);
    only_context(i, first - up, first, up_row);
    only_context(i, first - up, first, down_row);
    only_context(i, last + 1, last + 1 + down, own);
    only_context(i, last + 1, last + 1 + down, up_row);
    only_context(i, last + 1, last + 1 + down, down_row);
    only_row(first > above, up_row, context);
    only_row(first > above, up_row, own);
    only_row(first > above, up_row, up_row);
    only_row(first > above, up_row, down_row);
    only_row(!known || last + 1 + below < n, down_row, context);
    only_row(!known || last + 1 + below < n, down_row, own);
    only_row(!known || last + 1 + below < n, down_row, up_row);
    only_row(!known || last + 1 + below < n, down_row, down_row);
}

/// Where a row of a file stands: the header, the offer of lines before, lines of context before
/// the first match, lines with matches, lines of context behind the last, the offer of lines
/// behind; and within these by their numbers.
pub open spec fn row_rank(f: FileSearchResult, row: ResultRow) -> (int, int) {
    match row {
        ResultRow::FileHeader { .. } => (0, 0),
        ResultRow::ExpandAbove { .. } => (1, 0),
        ResultRow::ContextLine { line_number, .. } => if line_number < f.hits@[0].line {
            (2, line_number as int)
        } else {
            (4, line_number as int)
        },
        ResultRow::Hit { hit_idx, .. } => (3, hit_idx as int),
        ResultRow::ExpandBelow { .. } => (5, 0),
    }
}

/// Where row `p` of a list stands that has `a` rows offering lines before, `b` lines of context from
/// line `from` on, `c` lines with matches, and `d` lines of context from line `to` on.
spec fn rank_in_parts(p: int, a: int, b: int, c: int, d: int, from: int, to: int) -> (int, int) {
    if p < 1 {
        (0, 0)
    } else if p < 1 + a {
        (1, 0)
    } else if p < 1 + a + b {
        (2, from + (p - 1 - a))
    } else if p < 1 + a + b + c {
        (3, p - 1 - a - b)
    } else if p < 1 + a + b + c + d {
        (4, to + (p - 1 - a - b - c))
    } else {
        (5, 0)
    }
}

proof fn row_in_parts(
    f: FileSearchResult,
    i: int,
    h: Seq<ResultRow>,
    a: Seq<ResultRow>,
    b: Seq<ResultRow>,
    c: Seq<ResultRow>,
    d: Seq<ResultRow>,
    e: Seq<ResultRow>,
    from: int,
    first: int,
    to: int,
    end: int,
    above: bool,
    below: bool,
    p: int,
)
    requires
        0 <= i <= usize::MAX,
        f.hits@.len() > 0,
        f.hits@.len() <= usize::MAX,
        first == f.hits@[0].line,
        0 <= from <= first < to <= end <= usize::MAX,
        h == seq![ResultRow::FileHeader { file_idx: i as usize }],
        a == search_results::row_if(above, ResultRow::ExpandAbove { file_idx: i as usize }),
        b == search_results::context_rows(i, from, first),
        c == search_results::hit_rows(i, f.hits@.len() as int),
        d == search_results::context_rows(i, to, end),
        e == search_results::row_if(below, ResultRow::ExpandBelow { file_idx: i as usize }),
        0 <= p < (h + a + b + c + d + e).len(),
    ensures
        row_rank(f, (h + a + b + c + d + e)[p]) == rank_in_parts(
            p,
            a.len() as int,
            b.len() as int,
            c.len() as int,
            d.len() as int,
            from,
            to,
        ),
        SearchResults::file_of((h + a + b + c + d + e)[p]) == i,
        a.len() <= 1,
        e.len() <= 1,
        (h + a + b + c + d + e).len() == 1 + a.len() + b.len() + c.len() + d.len() + e.len(),
{
    let row = (h + a + b + c + d + e)[p];
    if p < 1 {
        assert(row == h[p]);
    } else if p < 1 + a.len() {
        assert(row == a[p - 1]);
    } else if p < 1 + a.len() + b.len() {
        assert(row == b[p - 1 - a.len()]);
    } else if p < 1 + a.len() + b.len() + c.len() {
        assert(row == c[p - 1 - a.len() - b.len()]);
    } else if p < 1 + a.len() + b.len() + c.len() + d.len() {
        assert(row == d[p - 1 - a.len() - b.len() - c.len()]);
    } else {
        assert(row == e[p - 1 - a.len() - b.len() - c.len() - d.len()]);
    }
}

/// The rows of a file come in the order of its lines, and none comes twice.
pub proof fn rows_follow_the_file(list: SearchResults, i: int, p: int, q: int)
    requires
        list.wf(),
        0 <= i < list.results@.len(),
        list.results@[i].hits@.len() > 0,
        list.results@[i].hits@[0].line <= list.results@[i].hits@.last().line,
        0 <= p < q < list.file_rows(i).len(),
    ensures
        ({
            let (a, x) = row_rank(list.results@[i], list.file_rows(i)[p]);
            let (b, y) = row_rank(list.results@[i], list.file_rows(i)[q]);
            a < b || (a == b && x < y)
        }),
        SearchResults::file_of(list.file_rows(i)[p]) == i,
        SearchResults::file_of(list.file_rows(i)[q]) == i,
{
    let f = list.results@[i];
    if list.collapsed@.dom().contains(f.key()) {
        collapsed_file_is_its_header(list, i);
    } else {
        rows_in_parts(list, i);
        let first = f.hits@[0].line as int;
        let last = f.hits@.last().line as int;
        let above = wanted(list.context_above@, f.key());
        let below = wanted(list.context_below@, f.key());
        let up = if above < first { above } else { first };
        let known = list.file_contents@.dom().contains(f.key());
        let n = list.file_contents@[f.key()]@.len() as int;
        let left = if n > last + 1 { n - (last + 1) } else { 0 };
        let down = if !known { 0 } else if below < left { below } else { left };
        let h = seq![ResultRow::FileHeader { file_idx: i as usize }];
        let a = search_results::row_if(first > above, ResultRow::ExpandAbove { file_idx: i as usize });
        let b = search_results::context_rows(i, first - up, first);
        let c = search_results::hit_rows(i, f.hits@.len() as int);
        let d = search_results::context_rows(i, last + 1, last + 1 + down);
        let e = search_results::row_if(!known || last + 1 + below < n, ResultRow::ExpandBelow { file_idx: i as usize });
        let more = !known || last + 1 + below < n;
        row_in_parts(f, i, h, a, b, c, d, e, first - up, first, last + 1, last + 1 + down, first > above, more, p);
        row_in_parts(f, i, h, a, b, c, d, e, first - up, first, last + 1, last + 1 + down, first > above, more, q);
    }
}

/// The rows of the first files come before those of the others: all rows of one file stand
/// together.
pub proof fn files_follow_each_other(list: SearchResults, n: int, p: int, q: int)
    requires
        list.wf(),
        0 <= n <= list.results@.len(),
        0 <= p < q < list.all_rows(n).len(),
    ensures
        SearchResults::file_of(list.all_rows(n)[p]) <= SearchResults::file_of(list.all_rows(n)[q]) < n,
    decreases n,
{
    if n > 0 {
        let before = list.all_rows(n - 1).len() as int;
        if q < before {
            files_follow_each_other(list, n - 1, p, q);
        } else {
            own_rows(list, n - 1, q - before);
            if p >= before {
                own_rows(list, n - 1, p - before);
            } else {
                earlier_rows(list, n - 1, p);
            }
        }
    }
}

proof fn earlier_rows(list: SearchResults, n: int, p: int)
    requires
        list.wf(),
        0 <= n <= list.results@.len(),
        0 <= p < list.all_rows(n).len(),
    ensures
        SearchResults::file_of(list.all_rows(n)[p]) < n,
    decreases n,
{
    if n > 0 {
        let before = list.all_rows(n - 1).len() as int;
        if p < before {
            earlier_rows(list, n - 1, p);
        } else {
            own_rows(list, n - 1, p - before);
        }
    }
}

proof fn own_rows(list: SearchResults, i: int, p: int)
    requires
        list.wf(),
        0 <= i < list.results@.len(),
        0 <= p < list.file_rows(i).len(),
    ensures
        SearchResults::file_of(list.file_rows(i)[p]) == i,
{
    assert(list.results.len() == list.results@.len());
}

/// Every row of every file is among the rows of all files.
pub proof fn no_file_is_left_out(list: SearchResults, n: int, i: int, p: int)
    requires
        0 <= i < n <= list.results@.len(),
        0 <= p < list.file_rows(i).len(),
    ensures
        list.all_rows(n).contains(list.file_rows(i)[p]),
    decreases n,
{
    if i == n - 1 {
        assert(list.all_rows(n)[list.all_rows(n - 1).len() + p] == list.file_rows(i)[p]);
    } else {
        no_file_is_left_out(list, n - 1, i, p);
        let row = list.file_rows(i)[p];
        let before = list.all_rows(n - 1);
        let k = choose|k: int| 0 <= k < before.len() && before[k] == row;
        assert(list.all_rows(n)[k] == row);
    }
}

/// One step shows three more lines of context of the file, on the side that it was asked for and
/// on no other, and leaves every other file as it is.
pub proof fn a_step_of_context(before: SearchResults, after: SearchResults, i: int, above: bool, below: bool, other: Seq<Seq<u8>>)
    requires
        before.context_expanded(after, i, above, below),
        before.can_expand(i),
    ensures
        ({
            let key = before.results@[i].key();
            &&& wanted(after.context_above@, key) == wanted(before.context_above@, key) + if above { 3int } else { 0 }
            &&& wanted(after.context_below@, key) == wanted(before.context_below@, key) + if below { 3int } else { 0 }
            &&& other != key ==> wanted(after.context_above@, other) == wanted(before.context_above@, other)
            &&& other != key ==> wanted(after.context_below@, other) == wanted(before.context_below@, other)
        }),
        after.results == before.results,
        after.collapsed == before.collapsed,
        after.file_contents == before.file_contents,
{
}

/// Folding hides the matches of the file or shows them again, and touches no other file.
pub proof fn folding_is_for_one_file(collapsed: Map<Seq<Seq<u8>>, ()>, key: Seq<Seq<u8>>, other: Seq<Seq<u8>>)
    ensures
        search_results::toggled(collapsed, key).dom().contains(key) <==> !collapsed.dom().contains(key),
        other != key ==> (search_results::toggled(collapsed, key).dom().contains(other) <==> collapsed.dom().contains(other)),
{
}

/// What is shown of a file's text are the lines of that text.
pub proof fn loaded_lines_are_shown(before: SearchResults, after: SearchResults, i: int, content: Option<&str>, line: int)
    requires
        before.content_loaded(after, i, content),
        !before.file_contents@.dom().contains(before.results@[i].key()),
        content is Some,
        0 <= line < text::lines(content->0@).len(),
    ensures
        after.file_contents@[before.results@[i].key()]@.len() == text::lines(content->0@).len(),
        search_results::known_line(after.file_contents@, before.results@[i].key(), line) == text::lines(content->0@)[line],
        after.results == before.results && after.collapsed == before.collapsed,
{
    let key = before.results@[i].key();
    assert(after.file_contents@.dom().contains(key));
    assert(after.file_contents@[key]@[line]@ == text::lines(content->0@)[line]);
}

/// The number of matches counts every line with matches once.
pub proof fn hits_are_counted(results: Seq<FileSearchResult>, n: int)
    requires
        0 < n <= results.len(),
    ensures
        search_results::count_hits(results, n) == search_results::count_hits(results, n - 1) + results[n - 1].hits@.len(),
        search_results::count_hits(results, 0) == 0,
{
}

/// How rows read: a line with matches has its number counted from one, as a line of context has;
/// the header counts its lines with matches.
pub proof fn rows_read(list: SearchResults, row: ResultRow, name: Option<Seq<char>>, relative: Option<Seq<char>>, v: RowView)
    requires
        list.shows_row(row, name, relative, v),
    ensures
        row matches ResultRow::Hit { file_idx, hit_idx } ==> v is Hit && v->Hit_line == list.results@[file_idx as int].hits@[hit_idx as int].line
            && v->Hit_number@ == text::decimal((v->Hit_line + 1) as nat) && v->Hit_col == list.results@[file_idx as int].hits@[hit_idx as int].col,
        row matches ResultRow::ContextLine { file_idx, line_number } ==> v is Context && v->Context_line == line_number
            && v->Context_number@ == text::decimal((line_number + 1) as nat),
        row matches ResultRow::FileHeader { file_idx } ==> v is Header && v->hits == list.results@[file_idx as int].hits@.len()
            && v->collapsed == list.collapsed@.dom().contains(list.results@[file_idx as int].key())
            && (relative is Some ==> v->rel_path@ == relative->0) && (relative is None ==> v->rel_path@
            == list.results@[file_idx as int].path@) && (name is Some ==> v->name@ == name->0),
        row is ExpandAbove ==> v is MoreAbove,
        row is ExpandBelow ==> v is MoreBelow,
{
}

// ── Stretches of a line ───────────────────────────────────────────────────────

/// What stretches read one behind the other.
pub open spec fn spans_text(spans: Seq<(Seq<char>, bool)>) -> Seq<char>
    decreases spans.len(),
{
    if spans.len() == 0 { Seq::empty() } else { spans_text(spans.drop_last()) + spans.last().0 }
}

/// Whether each character of stretches is marked.
pub open spec fn spans_marks(spans: Seq<(Seq<char>, bool)>) -> Seq<bool>
    decreases spans.len(),
{
    if spans.len() == 0 {
        Seq::empty()
    } else {
        spans_marks(spans.drop_last()) + Seq::new(spans.last().0.len(), |i: int| spans.last().1)
    }
}

proof fn pushed_span(spans: Seq<(Seq<char>, bool)>, t: Seq<char>, m: bool)
    ensures
        spans_text(spans.push((t, m))) == spans_text(spans) + t,
        spans_marks(spans.push((t, m))) == spans_marks(spans) + Seq::new(t.len(), |i: int| m),
{
    assert(spans.push((t, m)).drop_last() =~= spans);
}

/// Whether character `p` is in one of the first `n` matches.
pub open spec fn in_match(ms: Seq<Match>, n: int, p: int) -> bool {
    exists|k: int| 0 <= k < n && (#[trigger] ms[k]).start <= p < ms[k].end
}

proof fn spans_up_to_read(s: Seq<char>, ms: Seq<Match>, n: int)
    requires
        0 <= n <= ms.len(),
        search::in_order(ms, s.len() as int),
    ensures
        ({
            let spans = search_results::spans_up_to(s, ms, n);
            let end = if n == 0 { 0int } else { ms[n - 1].end as int };
            &&& search_results::reached(s, ms, n) == end <= s.len()
            &&& spans_text(spans) == s.take(end)
            &&& spans_marks(spans).len() == end
            &&& forall|p: int| 0 <= p < end ==> #[trigger] spans_marks(spans)[p] == in_match(ms, n, p)
        }),
    decreases n,
{
    let spans = search_results::spans_up_to(s, ms, n);
    if n == 0 {
        assert(spans_text(spans) =~= s.take(0));
    } else {
        spans_up_to_read(s, ms, n - 1);
        let before = search_results::spans_up_to(s, ms, n - 1);
        let pos = if n == 1 { 0int } else { ms[n - 2].end as int };
        let m = ms[n - 1];
        assert(m.start <= m.end <= s.len());
        if n > 1 {
            assert(ms[n - 2].end <= ms[n - 1].start);
        }
        let gap_text = s.subrange(pos, m.start as int);
        let own_text = s.subrange(m.start as int, m.end as int);
        let gap = if pos < m.start { before.push((gap_text, false)) } else { before };
        pushed_span(before, gap_text, false);
        pushed_span(gap, own_text, true);
        assert(spans_text(gap) =~= s.take(m.start as int));
        assert(spans_text(spans) =~= s.take(m.end as int));
        assert forall|p: int| 0 <= p < m.end implies #[trigger] spans_marks(spans)[p] == in_match(ms, n, p) by {
            if p < pos {
                assert(spans_marks(before)[p] == in_match(ms, n - 1, p));
                if in_match(ms, n - 1, p) {
                    let k = choose|k: int| 0 <= k < n - 1 && (#[trigger] ms[k]).start <= p < ms[k].end;
                    assert(ms[k].start <= p);
                }
            } else if p < m.start {
                assert forall|k: int| 0 <= k < n implies !((#[trigger] ms[k]).start <= p < ms[k].end) by {
                    if k < n - 2 {
                        assert(ms[k].end <= ms[n - 2].start);
                    }
                }
            } else {
                assert(ms[n - 1].start <= p < ms[n - 1].end);
            }
        }
    }
}

/// The stretches of a line read as the line does, and a character is marked just where it is in a
/// match.
pub proof fn stretches_tile_the_line(s: Seq<char>, ms: Seq<Match>, p: int)
    requires
        search::in_order(ms, s.len() as int),
        0 <= p < s.len(),
    ensures
        spans_text(search_results::preview_spans(s, ms)) == s,
        spans_marks(search_results::preview_spans(s, ms)).len() == s.len(),
        spans_marks(search_results::preview_spans(s, ms))[p] == in_match(ms, ms.len() as int, p),
{
    let n = ms.len() as int;
    let all = search_results::preview_spans(s, ms);
    if n == 0 {
        pushed_span(Seq::empty(), s, false);
        assert(seq![(s, false)] =~= Seq::<(Seq<char>, bool)>::empty().push((s, false)));
        assert(spans_text(all) =~= s);
    } else {
        spans_up_to_read(s, ms, n);
        let spans = search_results::spans_up_to(s, ms, n);
        let end = ms[n - 1].end as int;
        let rest = s.subrange(end, s.len() as int);
        pushed_span(spans, rest, false);
        assert(s.take(end) + rest =~= s);
        if end < s.len() {
            if p >= end {
                assert forall|k: int| 0 <= k < n implies !((#[trigger] ms[k]).start <= p < ms[k].end) by {
                    if k < n - 1 {
                        assert(ms[k].end <= ms[n - 1].start);
                    }
                }
            }
        } else {
            assert(s.take(end) =~= s);
        }
    }
}

// ── Replacing ─────────────────────────────────────────────────────────────────

/// Every match of a line is replaced where it stands in the file: as far behind the start of the
/// line as in the line.
pub proof fn matches_stand_behind_their_line(h: SearchHit, k: int)
    requires
        search_results::places_fit(h),
        0 <= k < h.ranges@.len(),
    ensures
        search_results::line_matches(h, h.ranges@.len() as int).len() == h.ranges@.len(),
        search_results::line_matches(h, h.ranges@.len() as int)[k].start == h.line_start_char + h.ranges@[k].start,
        search_results::line_matches(h, h.ranges@.len() as int)[k].end == h.line_start_char + h.ranges@[k].end,
{
    line_match_places(h, h.ranges@.len() as int, k);
}

proof fn line_match_places(h: SearchHit, n: int, k: int)
    requires
        search_results::places_fit(h),
        0 <= k < n <= h.ranges@.len(),
    ensures
        search_results::line_matches(h, n).len() == n,
        search_results::line_matches(h, n)[k].start == h.line_start_char + h.ranges@[k].start,
        search_results::line_matches(h, n)[k].end == h.line_start_char + h.ranges@[k].end,
    decreases n,
{
    assert(h.line_start_char + h.ranges@[n - 1].start <= usize::MAX);
    if n > 1 {
        line_match_places(h, n - 1, if k < n - 1 { k } else { 0 });
    } else {
        assert(search_results::line_matches(h, 0).len() == 0);
    }
}

/// All matches of a file are replaced together: every match of every line is among them, and the
/// first come first.
pub proof fn all_matches_are_edited(list: SearchResults, i: int, h: int, k: int)
    requires
        list.wf(),
        0 <= i < list.results@.len(),
        0 <= h < list.results@[i].hits@.len(),
        0 <= k < list.results@[i].hits@[h].ranges@.len(),
    ensures
        ({
            let hit = list.results@[i].hits@[h];
            let m = Match {
                start: (hit.line_start_char + hit.ranges@[k].start) as usize,
                end: (hit.line_start_char + hit.ranges@[k].end) as usize,
            };
            &&& list.edits(i, None).contains(m)
            &&& list.edits(i, Some(h as usize)).contains(m)
        }),
        forall|p: int, q: int|
            0 <= p < q < list.edits(i, None).len() ==> (#[trigger] list.edits(i, None)[p]).start <= (#[trigger] list.edits(
                i,
                None,
            )[q]).start,
{
    broadcast use vstd::seq_lib::group_to_multiset_ensures;

    let hits = list.results@[i].hits@;
    let hit = hits[h];
    assert(list.results@[i].hits.len() == hits.len());
    assert(search_results::places_fit(hit));
    let m = Match {
        start: (hit.line_start_char + hit.ranges@[k].start) as usize,
        end: (hit.line_start_char + hit.ranges@[k].end) as usize,
    };
    assert(hit.line_start_char + hit.ranges@[k].start <= usize::MAX);
    matches_stand_behind_their_line(hit, k);
    let own = search_results::line_matches(hit, hit.ranges@.len() as int);
    assert(own[k] == m);
    let flat = search_results::file_matches(hits, hits.len() as int);
    in_file_matches(hits, hits.len() as int, h, m);
    search_results::ordering_sorts(flat, flat.len() as int);
    assert(flat.take(flat.len() as int) =~= flat);
    let sorted = search_results::ordered(flat, flat.len() as int);
    assert(flat.to_multiset().count(m) > 0);
    assert(sorted.to_multiset().count(m) > 0);
    assert(list.edits(i, Some(h as usize))[k] == m);
}

proof fn in_file_matches(hits: Seq<SearchHit>, n: int, h: int, m: Match)
    requires
        0 <= h < n <= hits.len(),
        search_results::line_matches(hits[h], hits[h].ranges@.len() as int).contains(m),
    ensures
        search_results::file_matches(hits, n).contains(m),
    decreases n,
{
    let before = search_results::file_matches(hits, n - 1);
    let own = search_results::line_matches(hits[n - 1], hits[n - 1].ranges@.len() as int);
    if h == n - 1 {
        let k = choose|k: int| 0 <= k < own.len() && own[k] == m;
        assert((before + own)[before.len() + k] == m);
    } else {
        in_file_matches(hits, n - 1, h, m);
        let k = choose|k: int| 0 <= k < before.len() && before[k] == m;
        assert((before + own)[k] == m);
    }
}

/// Replacing leaves everything between the matches as it is and puts the text in the place of each
/// match: what stands before the last match is replaced as it would be alone, and what stands
/// behind it stays.
pub proof fn replacing_keeps_the_rest(s: Seq<char>, ms: Seq<Match>, t: Seq<char>)
    requires
        search::in_order(ms, s.len() as int),
    ensures
        ms.len() == 0 ==> search::all_replaced(s, ms, t) == s,
        ms.len() > 0 ==> search::all_replaced(s, ms, t) == search::all_replaced(
            s.take(ms.last().start as int),
            ms.drop_last(),
            t,
        ) + t + s.skip(ms.last().end as int),
{
    if ms.len() > 0 {
        let n = ms.len() as int;
        let last = ms[n - 1];
        assert(last.start <= last.end <= s.len());
        let rest = ms.drop_last();
        let head = s.take(last.start as int);
        if n == 1 {
            assert(search::all_replaced(s, ms, t) =~= head + t + s.skip(last.end as int));
        } else {
            assert(ms[0].start <= ms[0].end <= s.len());
            assert(ms[0].end <= ms[n - 1].start);
            assert(ms[n - 2].end <= ms[n - 1].start);
            assert(ms[n - 2].start <= ms[n - 2].end);
            between_within(s, head, ms, t, n - 1);
            between_prefix(head, ms, rest, t, n - 1);
            let between = search::between_replaced(head, rest, t, n - 1);
            assert(search::between_replaced(s, ms, t, n) == between + s.subrange(ms[n - 2].end as int, last.start as int) + t);
            assert(rest.last() == ms[n - 2] && rest[0] == ms[0]);
            assert(search::all_replaced(s, ms, t) =~= search::all_replaced(head, rest, t) + t + s.skip(last.end as int));
        }
    }
}

proof fn between_within(s: Seq<char>, head: Seq<char>, ms: Seq<Match>, t: Seq<char>, n: int)
    requires
        1 <= n <= ms.len(),
        search::in_order(ms, s.len() as int),
        head.len() <= s.len(),
        head == s.take(head.len() as int),
        ms[n - 1].end <= head.len(),
    ensures
        search::between_replaced(s, ms, t, n) == search::between_replaced(head, ms, t, n),
    decreases n,
{
    if n > 1 {
        assert(ms[n - 2].end <= ms[n - 1].start);
        assert(ms[n - 1].start <= ms[n - 1].end);
        between_within(s, head, ms, t, n - 1);
        assert(s.subrange(ms[n - 2].end as int, ms[n - 1].start as int) =~= head.subrange(
            ms[n - 2].end as int,
            ms[n - 1].start as int,
        ));
    }
}

proof fn between_prefix(s: Seq<char>, ms: Seq<Match>, rest: Seq<Match>, t: Seq<char>, n: int)
    requires
        0 <= n <= rest.len(),
        ms.len() == rest.len() + 1,
        rest == ms.drop_last(),
    ensures
        search::between_replaced(s, ms, t, n) == search::between_replaced(s, rest, t, n),
    decreases n,
{
    if n > 1 {
        between_prefix(s, ms, rest, t, n - 1);
    }
}

/// A part of a text is replaced by another, and nothing around it changes.
pub proof fn replacing_is_local(s: Seq<char>, start: int, end: int, t: Seq<char>)
    requires
        0 <= start <= end <= s.len(),
    ensures
        document::replaced(s, start, end, t).take(start) == s.take(start),
        document::replaced(s, start, end, t).subrange(start, start + t.len()) == t,
        document::replaced(s, start, end, t).skip(start + t.len()) == s.skip(end),
{
    let r = document::replaced(s, start, end, t);
    assert(r.take(start) =~= s.take(start));
    assert(r.subrange(start, start + t.len()) =~= t);
    assert(r.skip(start + t.len()) =~= s.skip(end));
}

/// What is replaced alone is the line of the active row; for the header of a file, its first line
/// with matches; for other rows, nothing.
pub proof fn one_line_is_replaced(v: ProjectSearchView, file: usize, hit: usize)
    ensures
        v.single_target() == Some((file, hit)) ==> {
            &&& v.active_row is Some && v.active_row->0 < v.list.rows@.len()
            &&& file < v.list.results@.len() && hit < v.list.results@[file as int].hits@.len()
            &&& v.list.rows@[v.active_row->0 as int] == (ResultRow::Hit { file_idx: file, hit_idx: hit }) || (hit == 0
                && v.list.rows@[v.active_row->0 as int] == ResultRow::FileHeader { file_idx: file })
        },
        v.active_row matches Some(r) && r < v.list.rows@.len() && v.list.rows@[r as int] == (ResultRow::Hit {
            file_idx: file,
            hit_idx: hit,
        }) && file < v.list.results@.len() && hit < v.list.results@[file as int].hits@.len() ==> v.single_target()
            == Some((file, hit)),
        v.active_row is None ==> v.single_target() is None,
{
}

// ── The search itself ─────────────────────────────────────────────────────────

/// A search without a query, or without a folder, is not started; one that is started empties the
/// list, and its number is that of the view, so that what an earlier one finds is dropped.
pub proof fn searches_start_afresh(before: ProjectSearchView, after: ProjectSearchView, has_root: bool, generation: Option<u64>)
    requires
        before.scheduled(after, has_root, generation),
    ensures
        generation is Some <==> before.inputs.query.text@.len() > 0 && has_root,
        generation is Some ==> generation->0 == after.search_generation && after.is_searching && !after.has_searched
            && after.list.results@.len() == 0 && after.list.rows@.len() == 0,
        before.inputs.query.text@.len() == 0 ==> after.list.results@.len() == 0 && after.total_matches == 0 && !after.is_searching,
        after.inputs == before.inputs && after.options == before.options && after.search_generation == before.search_generation,
        after.list.collapsed == before.list.collapsed,
{
}

/// Every change of what is searched for has a number of its own.
pub proof fn new_searches_have_new_numbers(v: ProjectSearchView)
    requires
        v.search_generation < u64::MAX,
    ensures
        v.searching_anew().search_generation > v.search_generation,
        v.searching_anew().inputs == v.inputs,
        v.searching_anew().options == v.options,
        v.searching_anew().list == v.list,
{
}

/// Whether a search is restricted to the open files, which of them: every one that has a path, and
/// no other.
pub proof fn scope_is_what_is_open(paths: Seq<Seq<char>>, n: int, p: Seq<char>)
    requires
        0 <= n <= paths.len(),
    ensures
        project_scope(paths, n).contains(p) <==> p.len() > 0 && paths.take(n).contains(p),
    decreases n,
{
    let scope = project_scope(paths, n);
    if n > 0 {
        scope_is_what_is_open(paths, n - 1, p);
        let before = project_scope(paths, n - 1);
        assert(paths.take(n) =~= paths.take(n - 1).push(paths[n - 1]));
        if before.contains(p) {
            let k = choose|k: int| 0 <= k < before.len() && before[k] == p;
            assert(scope[k] == p);
        }
        if scope.contains(p) {
            let k = choose|k: int| 0 <= k < scope.len() && scope[k] == p;
            if k < before.len() {
                assert(before[k] == p);
            }
        }
        if paths.take(n - 1).contains(p) {
            let earlier = paths.take(n - 1);
            let k = choose|k: int| 0 <= k < earlier.len() && earlier[k] == p;
            assert(paths.take(n)[k] == p);
        }
        if paths.take(n).contains(p) {
            let all = paths.take(n);
            let k = choose|k: int| 0 <= k < all.len() && all[k] == p;
            if k < n - 1 {
                assert(paths.take(n - 1)[k] == p);
            }
        }
        if paths[n - 1] == p {
            assert(paths.take(n)[n - 1] == p);
            if p.len() > 0 {
                assert(scope.last() == p);
            }
        }
    }
}

/// The paths that a search is restricted to.
pub open spec fn project_scope(paths: Seq<Seq<char>>, n: int) -> Seq<Seq<char>> {
    crate::project_search_view::with_path(paths, n)
}

/// Switching an option changes that option alone, and switching it again leads back.
pub proof fn options_switch_one_by_one(o: SearchOptions, option: SearchOption)
    ensures
        o.flipped(option).flipped(option) == o,
        o.flipped(option).case_sensitive != o.case_sensitive <==> option == SearchOption::Case,
        o.flipped(option).whole_word != o.whole_word <==> option == SearchOption::Word,
        o.flipped(option).regex != o.regex <==> option == SearchOption::Regex,
        o.flipped(option).include_ignored != o.include_ignored <==> option == SearchOption::Ignored,
        o.flipped(option).open_files_only != o.open_files_only <==> option == SearchOption::OpenFiles,
{
}

/// What is typed into one input leaves the others alone.
pub proof fn inputs_are_apart(s: SearchInputs, a: ActiveInput, b: ActiveInput, input: TextInput)
    ensures
        s.with(a, input).input(a) == input,
        a != b ==> s.with(a, input).input(b) == s.input(b),
        s.input(ActiveInput::Query) == s.query,
        s.input(ActiveInput::Replace) == s.replace,
        s.input(ActiveInput::Include) == s.included,
        s.input(ActiveInput::Exclude) == s.excluded,
{
}

/// What keys do in an input: escape leaves it, enter searches from the query, with shift it shows
/// more context, the tabulator goes on; what is typed into the replacement starts no search, what
/// is typed anywhere else does.
pub proof fn keys_in_inputs(
    v: ProjectSearchView,
    after: ProjectSearchView,
    a: ActiveInput,
    key: KeyPress,
    caps_lock: bool,
    r: SearchKey,
)
    requires
        v.keyed(after, a, key, caps_lock, r),
        v.search_generation < u64::MAX,
    ensures
        key.key@ == "escape"@ ==> r is Leave && after == v,
        key.key@ == "enter"@ && key.key@ != "escape"@ && key.shift ==> r is ExpandContext && after == v,
        r is Search ==> after.search_generation == v.search_generation + 1,
        !(r is Search) ==> after.search_generation == v.search_generation,
        r is Edited ==> a == ActiveInput::Replace,
        after.options == v.options && after.list == v.list && after.active_row == v.active_row,
        r matches SearchKey::Focus { input } ==> {
            &&& input == ActiveInput::Exclude <==> a == ActiveInput::Include
            &&& input == ActiveInput::Include <==> a == ActiveInput::Query && v.filters_open
            &&& input != ActiveInput::Replace
        },
{
}

/// What is said of the results: nothing while nothing was searched for; how many matches in how
/// many files once there are some, unless there were too many.
pub proof fn results_are_summed_up(v: ProjectSearchView)
    ensures
        v.is_searching <==> v.info() is Searching,
        !v.is_searching && v.has_searched && v.inputs.query.text@.len() > 0 && v.total_matches == 0 <==> v.info() is NoResults,
        v.info() matches ProjectSearchInfo::Counts { matches, files } ==> matches == v.total_matches && matches > 0
            && files == v.list.results@.len() as usize && !v.limit_reached,
        v.info() matches ProjectSearchInfo::LimitReached { matches } ==> matches == v.total_matches && matches > 0 && v.limit_reached,
        v.info() is Blank <==> !v.is_searching && !(v.has_searched && v.inputs.query.text@.len() > 0),
        v.list.rows@.len() > 0 <==> v.body() is Results,
        v.body() is Tips ==> !v.has_searched && !v.is_searching,
        v.body() is NoResults ==> v.has_searched && !v.is_searching,
        v.body() is Searching ==> v.is_searching,
{
}

/// A tip is lit where what it is about is on.
pub proof fn tips_show_what_is_on(v: ProjectSearchView, kind: TipKind, t: Tip)
    requires
        t == v.tip(kind),
    ensures
        t.kind == kind,
        t.active == v.tip_active(kind),
        v.tip_active(TipKind::Case) == v.options.case_sensitive,
        v.tip_active(TipKind::Word) == v.options.whole_word,
        v.tip_active(TipKind::Regex) == v.options.regex,
        v.tip_active(TipKind::Filters) == v.filters_open,
        v.tip_active(TipKind::Replace) == v.replace_open,
        t.active <==> t.background == ColorRole::Accent,
        t.active <==> t.color == ColorRole::TextOnAccent,
        !t.active <==> t.color == ColorRole::TextSubtle,
{
}

/// Context is shown of the file of the active row; without one, of the first.
pub proof fn context_is_for_the_active_file(v: ProjectSearchView)
    ensures
        v.list.results@.len() == 0 ==> v.active_file() is None,
        v.active_row is None && v.list.results@.len() > 0 ==> v.active_file() == Some(0usize),
        v.active_row matches Some(r) && r < v.list.rows@.len() && v.active_file() is Some ==> v.active_file()->0
            == SearchResults::file_of(v.list.rows@[v.active_row->0 as int]),
{
}

// ── Search in a document ──────────────────────────────────────────────────────

/// What the search bar says of its matches.
pub proof fn matches_are_counted_from_one(s: SearchState)
    requires
        s.wf(),
    ensures
        s.info() is Blank <==> s.query.text@.len() == 0,
        s.info() is NoMatches <==> s.query.text@.len() > 0 && s.matches@.len() == 0,
        s.info() matches MatchInfo::Current { number, total } ==> 1 <= number <= total && number == s.match_idx + 1
            && total == s.matches@.len(),
{
    assert(s.matches.len() == s.matches@.len());
}

/// Going to a match selects it: from its start to its end, with the caret at its end.
pub proof fn match_is_selected(s: SearchState)
    ensures
        s.current().anchor == s.matches@[s.match_idx as int].start,
        s.current().head == s.matches@[s.match_idx as int].end,
{
}

/// Showing more of the active file shows three more lines on both sides of its matches, and changes
/// nothing else of the list; without a file nothing happens.
pub proof fn active_file_shows_more(v: ProjectSearchView, after: ProjectSearchView, content: Option<&str>)
    requires
        v.active_expanded(after, content),
        v.can_expand_active(),
    ensures
        v.active_file() is None ==> after == v,
        v.active_file() is Some ==> {
            let key = v.list.results@[v.active_file()->0 as int].key();
            &&& wanted(after.list.context_above@, key) == wanted(v.list.context_above@, key) + 3
            &&& wanted(after.list.context_below@, key) == wanted(v.list.context_below@, key) + 3
            &&& after.list.results == v.list.results && after.list.collapsed == v.list.collapsed
        },
        after.inputs == v.inputs && after.options == v.options && after.active_row == v.active_row,
        v.list.results@.len() > 0 && v.active_row is None ==> v.active_file() is Some,
{
}

/// With all files collapsed the rows are the headers, one for each file, in their order.
pub proof fn collapsed_files_are_headers(list: SearchResults, n: int, i: int)
    requires
        0 <= i < n <= list.results@.len(),
        list.collapsed_up_to(n),
    ensures
        list.all_rows(n).len() == n,
        list.all_rows(n)[i] == (ResultRow::FileHeader { file_idx: i as usize }),
    decreases n,
{
    assert(list.collapsed@.dom().contains(list.results@[n - 1].key()));
    collapsed_file_is_its_header(list, n - 1);
    if n > 1 {
        collapsed_files_are_headers(list, n - 1, if i < n - 1 { i } else { 0 });
    } else {
        assert(list.all_rows(0).len() == 0);
    }
}

/// A list holds the path of each of its files.
pub proof fn results_list_their_paths(results: Seq<FileSearchResult>, i: int, key: Seq<Seq<u8>>)
    requires
        0 <= i < results.len(),
    ensures
        search_results::lists_path(results, results[i].key(), results.len() as int),
        results.len() == 1 && results[0].key() != key ==> !search_results::lists_path(results, key, 1),
        !search_results::lists_path(results, key, 0),
{
}

/// Without a focus it is the query that is typed into.
pub proof fn query_has_the_keyboard_first(a: ActiveInput)
    ensures
        ProjectSearchView::active(None) == ActiveInput::Query,
        ProjectSearchView::active(Some(a)) == a,
{
}

/// Which match it is, and of how many, is shown with a slash between the two.
pub proof fn counts_are_parted_by_a_slash(number: nat, total: nat)
    ensures
        search::match_label(number as int, total as int) == text::decimal(number) + seq!['/'] + text::decimal(total),
{
    assert(text::decimal(number).push('/') =~= text::decimal(number) + seq!['/']);
}

/// A search bar that is closed has forgotten what was searched for, and how.
pub proof fn closing_forgets_the_search(s: SearchState)
    requires
        s.closed(),
    ensures
        !s.show_search && !s.show_replace,
        s.query.text@.len() == 0 && s.replace.text@.len() == 0,
        s.matches@.len() == 0,
        !s.case_sensitive && !s.whole_word && !s.regex,
        s.info() is Blank,
{
}

proof fn no_empty_gaps(s: Seq<char>, ms: Seq<Match>, n: int, k: int)
    requires
        0 <= n <= ms.len(),
        search::in_order(ms, s.len() as int),
        0 <= k < search_results::spans_up_to(s, ms, n).len(),
    ensures
        search_results::spans_up_to(s, ms, n)[k].0.len() > 0,
    decreases n,
{
    if n > 0 {
        let before = search_results::spans_up_to(s, ms, n - 1);
        spans_up_to_read(s, ms, n - 1);
        if k < before.len() {
            no_empty_gaps(s, ms, n - 1, k);
        }
    }
}

/// No stretch of a line is empty, unless the line is.
pub proof fn no_stretch_is_empty(s: Seq<char>, ms: Seq<Match>, k: int)
    requires
        search::in_order(ms, s.len() as int),
        s.len() > 0,
        0 <= k < search_results::preview_spans(s, ms).len(),
    ensures
        search_results::preview_spans(s, ms)[k].0.len() > 0,
{
    let n = ms.len() as int;
    if n > 0 {
        spans_up_to_read(s, ms, n);
        if k < search_results::spans_up_to(s, ms, n).len() {
            no_empty_gaps(s, ms, n, k);
        }
    }
}

/// All files are collapsed as soon as each of them is.
pub proof fn collapsed_one_by_one(list: SearchResults, n: int)
    requires
        0 <= n <= list.results@.len(),
        forall|i: int| 0 <= i < n ==> list.collapsed@.dom().contains((#[trigger] list.results@[i]).key()),
    ensures
        list.collapsed_up_to(n),
{
}

/// Deleting before the caret of an input takes away all that stands there, or one word; at its start
/// it takes away nothing. What stands behind the caret stays, and so do the other inputs.
pub proof fn deleting_keeps_what_is_behind(s: SearchInputs, after: SearchInputs, a: ActiveInput, b: ActiveInput, whole: bool, changed: bool)
    requires
        s.input(a).wf(),
        s.deleted(after, a, whole, changed),
    ensures
        changed <==> s.input(a).cursor > 0,
        after.input(a).text@.skip(after.input(a).cursor as int) == s.input(a).text@.skip(s.input(a).cursor as int),
        whole ==> after.input(a).cursor == 0,
        changed ==> after.input(a).cursor < s.input(a).cursor,
        a != b ==> after.input(b) == s.input(b),
{
    editing::anything_before_is_a_word(s.input(a));
    if changed && !whole {
        editing::one_word_is_deleted(s.input(a), after.input(a));
    }
    assert(after.input(a).text@.skip(after.input(a).cursor as int) =~= s.input(a).text@.skip(s.input(a).cursor as int));
}

} // verus!
