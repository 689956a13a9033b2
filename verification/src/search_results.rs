//! The results of a search in all files: their rows, folding, context, and replacing.
use vstd::prelude::*;

use crate::document::Document;
use crate::path_map::PathMap;
use crate::paths;
use crate::paths::{path_file_name, path_relative};
use crate::rope::{rope_from_str, rope_len, rope_slice};
use crate::search;
use crate::search::{replace_matches, Match};
use crate::text;
use crate::text::{chars_of, lines_of, push_decimal, string_of};

verus! {

/// How many lines of context one step shows.
pub const CONTEXT_STEP: usize = 3;

/// A line with matches.
#[derive(Debug)]
pub struct SearchHit {
    pub line: usize,
    pub col: usize,
    /// Where the line starts in its file.
    pub line_start_char: usize,
    pub preview: String,
    /// The matches, as columns of the line.
    pub ranges: Vec<Match>,
}

/// The matches in one file.
#[derive(Debug)]
pub struct FileSearchResult {
    pub path: String,
    pub hits: Vec<SearchHit>,
}

impl FileSearchResult {
    /// What the file is known by: the components of its path.
    pub open spec fn key(self) -> Seq<Seq<u8>> {
        paths::path_parts_of(self.path@)
    }
}

/// One row of the results.
#[derive(Debug, Clone, Copy, PartialEq, Eq, Structural)]
pub enum ResultRow {
    FileHeader { file_idx: usize },
    ExpandAbove { file_idx: usize },
    ContextLine { file_idx: usize, line_number: usize },
    Hit { file_idx: usize, hit_idx: usize },
    ExpandBelow { file_idx: usize },
}

/// The results of a search.
#[derive(Debug)]
pub struct SearchResults {
    pub results: Vec<FileSearchResult>,
    /// The files whose matches are hidden.
    pub collapsed: PathMap<()>,
    pub rows: Vec<ResultRow>,
    /// The lines of the files that context is shown of.
    pub file_contents: PathMap<Vec<String>>,
    /// How many lines of context are wanted before the first match and behind the last.
    pub context_above: PathMap<usize>,
    pub context_below: PathMap<usize>,
}

// ── The rows of the results ───────────────────────────────────────────────────

/// The line of the first match in a file.
pub open spec fn first_hit_line(f: FileSearchResult) -> int {
    if f.hits@.len() > 0 { f.hits@[0].line as int } else { 0 }
}

/// The line of the last match in a file.
pub open spec fn last_hit_line(f: FileSearchResult) -> int {
    if f.hits@.len() > 0 { f.hits@.last().line as int } else { 0 }
}

/// Lines of context from `from` to `to`.
pub open spec fn context_rows(file_idx: int, from: int, to: int) -> Seq<ResultRow> {
    Seq::new(
        if from < to { (to - from) as nat } else { 0 },
        |k: int| ResultRow::ContextLine { file_idx: file_idx as usize, line_number: (from + k) as usize },
    )
}

/// The matches of a file.
pub open spec fn hit_rows(file_idx: int, n: int) -> Seq<ResultRow> {
    Seq::new(n as nat, |k: int| ResultRow::Hit { file_idx: file_idx as usize, hit_idx: k as usize })
}

/// A row, or none.
pub open spec fn row_if(shown: bool, row: ResultRow) -> Seq<ResultRow> {
    if shown { seq![row] } else { Seq::empty() }
}

/// The lesser of two numbers.
pub open spec fn least(a: int, b: int) -> int {
    if a < b { a } else { b }
}

/// How many lines are shown behind the last match, where `wanted` are wanted.
pub open spec fn lines_below(last: int, wanted: int, len: Option<usize>) -> int {
    match len {
        Some(n) => least(wanted, if n > last + 1 { n - (last + 1) } else { 0 }),
        None => 0,
    }
}

/// Whether lines may follow line `shown`.
pub open spec fn more_below(shown: int, len: Option<usize>) -> bool {
    match len {
        Some(n) => shown + 1 < n,
        None => true,
    }
}

/// The rows of a file below its header, with `up` lines of context before its first match and
/// `down` lines behind its last.
pub open spec fn shown_rows(file_idx: int, f: FileSearchResult, up: int, down: int, more: bool) -> Seq<ResultRow> {
    let first = first_hit_line(f);
    let last = last_hit_line(f);
    row_if(first > up, ResultRow::ExpandAbove { file_idx: file_idx as usize }) + context_rows(file_idx, first - up, first)
        + hit_rows(file_idx, f.hits@.len() as int) + context_rows(file_idx, last + 1, last + 1 + down) + row_if(
        more,
        ResultRow::ExpandBelow { file_idx: file_idx as usize },
    )
}

/// The rows of a file that is not collapsed, below its header. `above` and `below` are the wanted
/// lines of context, `len` the number of lines of the file, if it is known. Context is shown as
/// far as there is any, and more is offered as long as there may be.
pub open spec fn open_rows(file_idx: int, f: FileSearchResult, above: int, below: int, len: Option<usize>) -> Seq<ResultRow> {
    let down = lines_below(last_hit_line(f), below, len);
    shown_rows(file_idx, f, least(above, first_hit_line(f)), down, more_below(last_hit_line(f) + down, len))
}

/// The value of a path, or 0.
pub open spec fn count_at(m: Map<Seq<Seq<u8>>, usize>, key: Seq<Seq<u8>>) -> int {
    if m.dom().contains(key) { m[key] as int } else { 0 }
}

/// Counts with one more step of context for a path.
pub open spec fn one_step_more(m: Map<Seq<Seq<u8>>, usize>, key: Seq<Seq<u8>>) -> Map<Seq<Seq<u8>>, usize> {
    m.insert(key, (count_at(m, key) + CONTEXT_STEP) as usize)
}

/// How many lines a file has, if it is known.
pub open spec fn known_len(m: Map<Seq<Seq<u8>>, Vec<String>>, key: Seq<Seq<u8>>) -> Option<usize> {
    if m.dom().contains(key) { Some(m[key]@.len() as usize) } else { None }
}

impl SearchResults {
    /// The rows of file `i`.
    pub open spec fn file_rows(self, i: int) -> Seq<ResultRow> {
        let f = self.results@[i];
        let header = seq![ResultRow::FileHeader { file_idx: i as usize }];
        if self.collapsed@.dom().contains(f.key()) {
            header
        } else {
            header + open_rows(
                i,
                f,
                count_at(self.context_above@, f.key()),
                count_at(self.context_below@, f.key()),
                known_len(self.file_contents@, f.key()),
            )
        }
    }

    /// The rows of the first `n` files.
    pub open spec fn all_rows(self, n: int) -> Seq<ResultRow>
        decreases n,
    {
        if n <= 0 { Seq::empty() } else { self.all_rows(n - 1) + self.file_rows(n - 1) }
    }

    /// Whether the maps are maps, and lines can be counted on.
    pub open spec fn wf(self) -> bool {
        &&& self.collapsed.wf() && self.file_contents.wf() && self.context_above.wf() && self.context_below.wf()
        &&& lines_fit(self.results@)
    }

    /// Whether the rows are those of the results.
    pub open spec fn rows_match(self) -> bool {
        self.rows@ == self.all_rows(self.results@.len() as int)
    }

    /// No results.
    pub fn new() -> (r: SearchResults)
        ensures
            r.results@.len() == 0,
            r.rows@.len() == 0,
            r.collapsed@ == Map::<Seq<Seq<u8>>, ()>::empty(),
            r.file_contents@ == Map::<Seq<Seq<u8>>, Vec<String>>::empty(),
            r.context_above@ == Map::<Seq<Seq<u8>>, usize>::empty(),
            r.context_below@ == Map::<Seq<Seq<u8>>, usize>::empty(),
            r.wf(),
            r.rows_match(),
    {
        SearchResults {
            results: Vec::new(),
            collapsed: PathMap::new(),
            rows: Vec::new(),
            file_contents: PathMap::new(),
            context_above: PathMap::new(),
            context_below: PathMap::new(),
        }
    }

    /// Drops the results and their rows.
    pub fn drop_results(&mut self)
        requires
            old(self).wf(),
        ensures
            final(self).results@.len() == 0,
            final(self).rows@.len() == 0,
            *final(self) == (SearchResults {
                results: final(self).results,
                rows: final(self).rows,
                ..*old(self)
            }),
            final(self).wf(),
    {
        self.results = Vec::new();
        self.rows = Vec::new();
    }

    /// Wants no context any more.
    pub fn drop_context(&mut self)
        requires
            old(self).wf(),
        ensures
            final(self).context_above@ == Map::<Seq<Seq<u8>>, usize>::empty(),
            final(self).context_below@ == Map::<Seq<Seq<u8>>, usize>::empty(),
            *final(self) == (SearchResults {
                context_above: final(self).context_above,
                context_below: final(self).context_below,
                ..*old(self)
            }),
            final(self).wf(),
    {
        self.context_above.clear();
        self.context_below.clear();
    }

    /// Shows other results.
    pub fn set_results(&mut self, results: Vec<FileSearchResult>)
        requires
            old(self).wf(),
            lines_fit(results@),
        ensures
            *final(self) == (SearchResults { results, rows: final(self).rows, ..*old(self) }),
            final(self).rows_match(),
            final(self).wf(),
    {
        self.results = results;
        self.rebuild_rows();
    }

    /// Makes the rows of the results anew.
    pub fn rebuild_rows(&mut self)
        requires
            old(self).wf(),
        ensures
            *final(self) == (SearchResults { rows: final(self).rows, ..*old(self) }),
            final(self).rows_match(),
            final(self).wf(),
    {
        let ghost view = *self;
        let mut rows: Vec<ResultRow> = Vec::new();
        let mut i: usize = 0;
        while i < self.results.len()
            invariant
                i <= self.results@.len(),
                *self == view,
                view.wf(),
                rows@ == view.all_rows(i as int),
            decreases self.results@.len() - i,
        {
            self.push_file_rows(&mut rows, i);
            i = i + 1;
        }
        proof {
            rows_depend_on_results(view, SearchResults { rows, ..view }, self.results@.len() as int);
        }
        self.rows = rows;
    }

    /// How many lines of context file `i` shows before its first match and behind its last, and
    /// whether more may follow.
    fn extent(&self, i: usize) -> (r: (usize, usize, bool))
        requires
            self.wf(),
            i < self.results@.len(),
        ensures
            ({
                let f = self.results@[i as int];
                let len = known_len(self.file_contents@, f.key());
                &&& r.0 == least(count_at(self.context_above@, f.key()), first_hit_line(f))
                &&& r.1 == lines_below(last_hit_line(f), count_at(self.context_below@, f.key()), len)
                &&& r.2 == more_below(last_hit_line(f) + r.1, len)
            }),
    {
        let f: &FileSearchResult = &self.results[i];
        let n: usize = f.hits.len();
        let first: usize = if n > 0 { f.hits[0].line } else { 0 };
        let last: usize = if n > 0 { f.hits[n - 1].line } else { 0 };
        assert(last < usize::MAX) by {
            if n > 0 {
                assert(f.hits@[n - 1].line < usize::MAX);
            }
        }
        let above: usize = match self.context_above.get(f.path.as_str()) {
            Some(c) => *c,
            None => 0,
        };
        let below: usize = match self.context_below.get(f.path.as_str()) {
            Some(c) => *c,
            None => 0,
        };
        let up: usize = if above < first { above } else { first };
        match self.file_contents.get(f.path.as_str()) {
            Some(lines) => {
                let total: usize = lines.len();
                let left: usize = if total > last + 1 { total - (last + 1) } else { 0 };
                let down: usize = if below < left { below } else { left };
                (up, down, down < left)
            },
            None => (up, 0, true),
        }
    }

    /// Adds the rows of file `i`.
    fn push_file_rows(&self, rows: &mut Vec<ResultRow>, i: usize)
        requires
            self.wf(),
            i < self.results@.len(),
        ensures
            final(rows)@ == old(rows)@ + self.file_rows(i as int),
    {
        let ghost start = rows@;
        let f: &FileSearchResult = &self.results[i];
        rows.push(ResultRow::FileHeader { file_idx: i });
        let ghost header = seq![ResultRow::FileHeader { file_idx: i }];
        assert(rows@ =~= start + header);
        if self.collapsed.contains_key(f.path.as_str()) {
            return;
        }
        let (up, down, more): (usize, usize, bool) = self.extent(i);
        self.push_open_rows(rows, i, up, down, more);
        assert(rows@ =~= start + (header + open_rows(
            i as int,
            self.results@[i as int],
            count_at(self.context_above@, f.key()),
            count_at(self.context_below@, f.key()),
            known_len(self.file_contents@, f.key()),
        )));
    }

    /// Adds the rows of file `i` below its header: `up` lines of context before its first match
    /// and `down` lines behind its last.
    fn push_open_rows(&self, rows: &mut Vec<ResultRow>, i: usize, up: usize, down: usize, more: bool)
        requires
            lines_fit(self.results@),
            i < self.results@.len(),
            up <= first_hit_line(self.results@[i as int]),
            last_hit_line(self.results@[i as int]) + 1 + down <= usize::MAX,
        ensures
            final(rows)@ == old(rows)@ + shown_rows(i as int, self.results@[i as int], up as int, down as int, more),
    {
        let ghost start = rows@;
        let f: &FileSearchResult = &self.results[i];
        let n: usize = f.hits.len();
        let first: usize = if n > 0 { f.hits[0].line } else { 0 };
        let last: usize = if n > 0 { f.hits[n - 1].line } else { 0 };
        let ghost a = row_if(first > up, ResultRow::ExpandAbove { file_idx: i });
        if first > up {
            rows.push(ResultRow::ExpandAbove { file_idx: i });
        }
        assert(rows@ =~= start + a);
        push_context(rows, i, first - up, first);
        let ghost b = a + context_rows(i as int, first - up, first as int);
        assert(rows@ =~= start + b);
        push_hits(rows, i, n);
        let ghost c = b + hit_rows(i as int, n as int);
        assert(rows@ =~= start + c);
        push_context(rows, i, last + 1, last + 1 + down);
        let ghost d = c + context_rows(i as int, last + 1, last + 1 + down);
        assert(rows@ =~= start + d);
        if more {
            rows.push(ResultRow::ExpandBelow { file_idx: i });
        }
        assert(rows@ =~= start + (d + row_if(more, ResultRow::ExpandBelow { file_idx: i })));
    }

    /// The file that a row belongs to.
    pub open spec fn file_of(row: ResultRow) -> usize {
        match row {
            ResultRow::FileHeader { file_idx } => file_idx,
            ResultRow::ExpandAbove { file_idx } => file_idx,
            ResultRow::ContextLine { file_idx, .. } => file_idx,
            ResultRow::Hit { file_idx, .. } => file_idx,
            ResultRow::ExpandBelow { file_idx } => file_idx,
        }
    }

    /// Whether the text of file `i` is still to be read before context of it can be shown.
    pub fn needs_content(&self, i: usize) -> (b: bool)
        requires
            i < self.results@.len(),
        ensures
            b == !self.file_contents@.dom().contains(self.results@[i as int].key()),
    {
        !self.file_contents.contains_key(self.results[i].path.as_str())
    }

    /// Whether `after` is the results with the text of file `i`, unless it was known already or
    /// could not be read.
    pub open spec fn content_loaded(self, after: SearchResults, i: int, content: Option<&str>) -> bool {
        let key = self.results@[i].key();
        if self.file_contents@.dom().contains(key) || content is None {
            after == self
        } else {
            &&& after.file_contents@.dom() == self.file_contents@.dom().insert(key)
            &&& texts_are(after.file_contents@[key]@, text::lines(content->0@))
            &&& forall|p: Seq<Seq<u8>>|
                p != key && self.file_contents@.dom().contains(p) ==> #[trigger] after.file_contents@[p]
                    == self.file_contents@[p]
            &&& after == (SearchResults { file_contents: after.file_contents, ..self })
        }
    }

    /// Takes note of the text of file `i`, unless it is known already or could not be read.
    pub fn load_file_content(&mut self, i: usize, content: Option<&str>)
        requires
            old(self).wf(),
            i < old(self).results@.len(),
        ensures
            old(self).content_loaded(*final(self), i as int, content),
            final(self).wf(),
    {
        if self.file_contents.contains_key(self.results[i].path.as_str()) {
            return;
        }
        if let Some(c) = content {
            let lines: Vec<String> = lines_of(c);
            self.file_contents.insert(self.results[i].path.as_str(), lines);
        }
    }

    /// Whether the lines of context of file `i` can be counted on.
    pub open spec fn can_expand(self, i: int) -> bool {
        let key = self.results@[i].key();
        &&& count_at(self.context_above@, key) + CONTEXT_STEP <= usize::MAX
        &&& count_at(self.context_below@, key) + CONTEXT_STEP <= usize::MAX
    }

    /// Whether `after` is the results with more context of file `i`: before its first match,
    /// behind its last, or both.
    pub open spec fn context_expanded(self, after: SearchResults, i: int, above: bool, below: bool) -> bool {
        let key = self.results@[i].key();
        &&& after.context_above@ == if above { one_step_more(self.context_above@, key) } else { self.context_above@ }
        &&& after.context_below@ == if below { one_step_more(self.context_below@, key) } else { self.context_below@ }
        &&& after == (SearchResults {
            context_above: after.context_above,
            context_below: after.context_below,
            rows: after.rows,
            ..self
        })
        &&& after.rows_match()
    }

    /// Whether the lines of context of file `i` can be counted on.
    pub fn has_room(&self, i: usize) -> (b: bool)
        requires
            i < self.results@.len(),
        ensures
            b == self.can_expand(i as int),
    {
        let above: usize = match self.context_above.get(self.results[i].path.as_str()) {
            Some(c) => *c,
            None => 0,
        };
        let below: usize = match self.context_below.get(self.results[i].path.as_str()) {
            Some(c) => *c,
            None => 0,
        };
        above <= usize::MAX - CONTEXT_STEP && below <= usize::MAX - CONTEXT_STEP
    }

    /// Shows more context of file `i`, unless its lines can no longer be counted. Says whether it
    /// did.
    pub fn try_expand_context(&mut self, i: usize, above: bool, below: bool) -> (shown: bool)
        requires
            old(self).wf(),
            i < old(self).results@.len(),
        ensures
            shown == old(self).can_expand(i as int),
            !shown ==> *final(self) == *old(self),
            shown ==> old(self).context_expanded(*final(self), i as int, above, below),
            final(self).wf(),
    {
        if !self.has_room(i) {
            return false;
        }
        self.expand_context(i, above, below);
        true
    }

    /// Shows more context of file `i`: before its first match, behind its last, or both.
    pub fn expand_context(&mut self, i: usize, above: bool, below: bool)
        requires
            old(self).wf(),
            i < old(self).results@.len(),
            old(self).can_expand(i as int),
        ensures
            old(self).context_expanded(*final(self), i as int, above, below),
            final(self).wf(),
    {
        if above {
            let count: usize = match self.context_above.get(self.results[i].path.as_str()) {
                Some(c) => *c,
                None => 0,
            };
            self.context_above.insert(self.results[i].path.as_str(), count + CONTEXT_STEP);
        }
        if below {
            let count: usize = match self.context_below.get(self.results[i].path.as_str()) {
                Some(c) => *c,
                None => 0,
            };
            self.context_below.insert(self.results[i].path.as_str(), count + CONTEXT_STEP);
        }
        self.rebuild_rows();
    }

    /// Hides the matches of file `i`, or shows them again.
    pub fn toggle_file_collapsed(&mut self, i: usize)
        requires
            old(self).wf(),
            i < old(self).results@.len(),
        ensures
            final(self).collapsed@ == toggled(old(self).collapsed@, old(self).results@[i as int].key()),
            *final(self) == (SearchResults {
                collapsed: final(self).collapsed,
                rows: final(self).rows,
                ..*old(self)
            }),
            final(self).rows_match(),
            final(self).wf(),
    {
        if self.collapsed.contains_key(self.results[i].path.as_str()) {
            self.collapsed.remove(self.results[i].path.as_str());
        } else {
            self.collapsed.insert(self.results[i].path.as_str(), ());
        }
        self.rebuild_rows();
    }

    /// Whether the first `n` files are collapsed.
    pub open spec fn collapsed_up_to(self, n: int) -> bool {
        forall|i: int| 0 <= i < n ==> self.collapsed@.dom().contains((#[trigger] self.results@[i]).key())
    }

    /// Hides the matches of all files.
    pub fn collapse_all_results(&mut self)
        requires
            old(self).wf(),
        ensures
            final(self).collapsed_up_to(final(self).results@.len() as int),
            forall|p: Seq<Seq<u8>>| #[trigger]
                final(self).collapsed@.dom().contains(p) <==> (old(self).collapsed@.dom().contains(p)
                    || lists_path(old(self).results@, p, old(self).results@.len() as int)),
            *final(self) == (SearchResults {
                collapsed: final(self).collapsed,
                rows: final(self).rows,
                ..*old(self)
            }),
            final(self).rows_match(),
            final(self).wf(),
    {
        let mut i: usize = 0;
        while i < self.results.len()
            invariant
                i <= self.results@.len(),
                self.wf(),
                *self == (SearchResults { collapsed: self.collapsed, ..*old(self) }),
                self.collapsed_up_to(i as int),
                forall|p: Seq<Seq<u8>>| #[trigger]
                    self.collapsed@.dom().contains(p) <==> (old(self).collapsed@.dom().contains(p) || lists_path(
                        old(self).results@,
                        p,
                        i as int,
                    )),
            decreases self.results@.len() - i,
        {
            let ghost before = self.collapsed@;
            self.collapsed.insert(self.results[i].path.as_str(), ());
            proof {
                let key = self.results@[i as int].key();
                assert forall|p: Seq<Seq<u8>>| #[trigger]
                    self.collapsed@.dom().contains(p) <==> (old(self).collapsed@.dom().contains(p) || lists_path(
                        old(self).results@,
                        p,
                        i + 1,
                    )) by {
                    assert(before.dom().contains(p) <==> (old(self).collapsed@.dom().contains(p) || lists_path(
                        old(self).results@,
                        p,
                        i as int,
                    )));
                    if p == key {
                        assert(old(self).results@[i as int].key() == p);
                    }
                }
            }
            i = i + 1;
        }
        self.rebuild_rows();
    }

    /// Shows the matches of all files.
    pub fn expand_all_results(&mut self)
        requires
            old(self).wf(),
        ensures
            final(self).collapsed@ == Map::<Seq<Seq<u8>>, ()>::empty(),
            *final(self) == (SearchResults {
                collapsed: final(self).collapsed,
                rows: final(self).rows,
                ..*old(self)
            }),
            final(self).rows_match(),
            final(self).wf(),
    {
        self.collapsed.clear();
        self.rebuild_rows();
    }

    /// Whether there are files, and the matches of all are hidden.
    pub fn all_collapsed(&self) -> (b: bool)
        ensures
            b == (self.results@.len() > 0 && self.collapsed_up_to(self.results@.len() as int)),
    {
        if self.results.len() == 0 {
            return false;
        }
        let mut i: usize = 0;
        while i < self.results.len()
            invariant
                i <= self.results@.len(),
                self.collapsed_up_to(i as int),
            decreases self.results@.len() - i,
        {
            if !self.collapsed.contains_key(self.results[i].path.as_str()) {
                assert(!self.collapsed@.dom().contains(self.results@[i as int].key()));
                return false;
            }
            i = i + 1;
        }
        true
    }
}

/// Whether the lines of all matches, and their places, can be counted on.
pub open spec fn lines_fit(results: Seq<FileSearchResult>) -> bool {
    forall|i: int, k: int|
        0 <= i < results.len() && 0 <= k < results[i].hits@.len() ==> (#[trigger] results[i].hits@[k]).line < usize::MAX
            && places_fit(results[i].hits@[k])
}

/// Whether one of the first `n` results is of the file known by `key`.
pub open spec fn lists_path(results: Seq<FileSearchResult>, key: Seq<Seq<u8>>, n: int) -> bool {
    exists|i: int| 0 <= i < n && (#[trigger] results[i]).key() == key
}

/// How many lines of the first `n` files have matches.
pub open spec fn count_hits(results: Seq<FileSearchResult>, n: int) -> int
    decreases n,
{
    if n <= 0 { 0 } else { count_hits(results, n - 1) + results[n - 1].hits@.len() }
}

proof fn count_hits_grows(results: Seq<FileSearchResult>, a: int, b: int)
    requires
        0 <= a <= b <= results.len(),
    ensures
        0 <= count_hits(results, a) <= count_hits(results, b),
    decreases b,
{
    if a < b {
        count_hits_grows(results, a, b - 1);
    } else if b > 0 {
        count_hits_grows(results, a - 1, b - 1);
    }
}

/// How many lines of all files have matches.
pub fn hits_in(results: &[FileSearchResult]) -> (n: usize)
    requires
        count_hits(results@, results@.len() as int) <= usize::MAX,
    ensures
        n == count_hits(results@, results@.len() as int),
{
    let mut n: usize = 0;
    let mut i: usize = 0;
    while i < results.len()
        invariant
            i <= results@.len(),
            n == count_hits(results@, i as int),
            count_hits(results@, results@.len() as int) <= usize::MAX,
        decreases results@.len() - i,
    {
        proof {
            count_hits_grows(results@, i + 1, results@.len() as int);
        }
        n = n + results[i].hits.len();
        i = i + 1;
    }
    n
}

/// Folding a file and unfolding it again changes nothing.
pub proof fn folding_twice(collapsed: Map<Seq<Seq<u8>>, ()>, key: Seq<Seq<u8>>)
    ensures
        toggled(toggled(collapsed, key), key) == collapsed,
{
    assert(toggled(toggled(collapsed, key), key) =~= collapsed);
}

/// The files that are collapsed after the one known by `key` was toggled.
pub open spec fn toggled(collapsed: Map<Seq<Seq<u8>>, ()>, key: Seq<Seq<u8>>) -> Map<Seq<Seq<u8>>, ()> {
    if collapsed.dom().contains(key) { collapsed.remove(key) } else { collapsed.insert(key, ()) }
}

/// Whether texts are these.
pub open spec fn texts_are(v: Seq<String>, texts: Seq<Seq<char>>) -> bool {
    v.len() == texts.len() && forall|i: int| 0 <= i < v.len() ==> (#[trigger] v[i])@ == texts[i]
}

/// Adds lines of context.
fn push_context(rows: &mut Vec<ResultRow>, file_idx: usize, from: usize, to: usize)
    requires
        from <= to,
    ensures
        final(rows)@ == old(rows)@ + context_rows(file_idx as int, from as int, to as int),
{
    let ghost start = rows@;
    let mut k: usize = from;
    assert(start + context_rows(file_idx as int, from as int, from as int) =~= start);
    while k < to
        invariant
            from <= k <= to,
            rows@ == start + context_rows(file_idx as int, from as int, k as int),
        decreases to - k,
    {
        rows.push(ResultRow::ContextLine { file_idx, line_number: k });
        k = k + 1;
        assert(rows@ =~= start + context_rows(file_idx as int, from as int, k as int));
    }
}

/// Adds the matches of a file.
fn push_hits(rows: &mut Vec<ResultRow>, file_idx: usize, n: usize)
    ensures
        final(rows)@ == old(rows)@ + hit_rows(file_idx as int, n as int),
{
    let ghost start = rows@;
    let mut k: usize = 0;
    assert(start + hit_rows(file_idx as int, 0) =~= start);
    while k < n
        invariant
            k <= n,
            rows@ == start + hit_rows(file_idx as int, k as int),
        decreases n - k,
    {
        rows.push(ResultRow::Hit { file_idx, hit_idx: k });
        k = k + 1;
        assert(rows@ =~= start + hit_rows(file_idx as int, k as int));
    }
}

/// The rows follow from the results, what is collapsed, and the context.
proof fn rows_depend_on_results(a: SearchResults, b: SearchResults, n: int)
    requires
        a.results == b.results,
        a.collapsed == b.collapsed,
        a.context_above == b.context_above,
        a.context_below == b.context_below,
        a.file_contents == b.file_contents,
    ensures
        a.all_rows(n) == b.all_rows(n),
    decreases n,
{
    if n > 0 {
        rows_depend_on_results(a, b, n - 1);
    }
}

// ── Edits in files ────────────────────────────────────────────────────────────

/// The matches on the first `n` of a line, as places in the file.
pub open spec fn line_matches(h: SearchHit, n: int) -> Seq<Match>
    decreases n,
{
    if n <= 0 {
        Seq::empty()
    } else {
        let r = h.ranges@[n - 1];
        line_matches(h, n - 1).push(
            Match {
                start: (h.line_start_char + r.start) as usize,
                end: (h.line_start_char + r.end) as usize,
            },
        )
    }
}

/// The matches on the first `n` lines, as places in the file.
pub open spec fn file_matches(hits: Seq<SearchHit>, n: int) -> Seq<Match>
    decreases n,
{
    if n <= 0 {
        Seq::empty()
    } else {
        file_matches(hits, n - 1) + line_matches(hits[n - 1], hits[n - 1].ranges@.len() as int)
    }
}

/// Whether the places of the matches of a line can be counted on.
pub open spec fn places_fit(h: SearchHit) -> bool {
    forall|k: int|
        0 <= k < h.ranges@.len() ==> h.line_start_char + (#[trigger] h.ranges@[k]).start <= usize::MAX
            && h.line_start_char + h.ranges@[k].end <= usize::MAX
}

/// Where `m` goes in matches that are ordered by where they start: behind all that do not start
/// later.
pub open spec fn slot(ms: Seq<Match>, m: Match) -> int
    decreases ms.len(),
{
    if ms.len() > 0 && ms.last().start > m.start { slot(ms.drop_last(), m) } else { ms.len() as int }
}

/// The first `n` matches in the order in which they start; those that start at the same place
/// stay in order.
pub open spec fn ordered(ms: Seq<Match>, n: int) -> Seq<Match>
    decreases n,
{
    if n <= 0 { Seq::empty() } else { ordered(ms, n - 1).insert(slot(ordered(ms, n - 1), ms[n - 1]), ms[n - 1]) }
}

proof fn slot_bounds(ms: Seq<Match>, m: Match)
    ensures
        0 <= slot(ms, m) <= ms.len(),
    decreases ms.len(),
{
    if ms.len() > 0 && ms.last().start > m.start {
        slot_bounds(ms.drop_last(), m);
    }
}

proof fn slot_skips(ms: Seq<Match>, m: Match, n: int)
    requires
        0 <= n <= ms.len(),
        slot(ms, m) == slot(ms.take(n), m),
        n > 0,
        ms[n - 1].start > m.start,
    ensures
        slot(ms, m) == slot(ms.take(n - 1), m),
{
    assert(ms.take(n).drop_last() =~= ms.take(n - 1));
}

/// Puts `m` in its place.
fn insert_ordered(ms: &mut Vec<Match>, m: Match)
    ensures
        final(ms)@ == old(ms)@.insert(slot(old(ms)@, m), m),
{
    let ghost before = ms@;
    let mut n: usize = ms.len();
    assert(before.take(n as int) =~= before);
    while n > 0 && ms[n - 1].start > m.start
        invariant
            n <= ms@.len(),
            ms@ == before,
            slot(before, m) == slot(before.take(n as int), m),
        ensures
            n <= ms@.len(),
            n == slot(before, m),
        decreases n,
    {
        proof {
            slot_skips(before, m, n as int);
        }
        n = n - 1;
    }
    ms.insert(n, m);
}

/// The places of the matches on a line.
pub fn hit_matches(h: &SearchHit) -> (ms: Vec<Match>)
    requires
        places_fit(*h),
    ensures
        ms@ == line_matches(*h, h.ranges@.len() as int),
{
    let mut ms: Vec<Match> = Vec::new();
    let mut k: usize = 0;
    while k < h.ranges.len()
        invariant
            k <= h.ranges@.len(),
            places_fit(*h),
            ms@ == line_matches(*h, k as int),
        decreases h.ranges@.len() - k,
    {
        let r: Match = h.ranges[k];
        assert(h.line_start_char + h.ranges@[k as int].start <= usize::MAX);
        ms.push(Match { start: h.line_start_char + r.start, end: h.line_start_char + r.end });
        k = k + 1;
    }
    ms
}

/// The places of all matches in a file, in the order in which they start.
pub fn ordered_matches(hits: &[SearchHit]) -> (ms: Vec<Match>)
    requires
        forall|i: int| 0 <= i < hits@.len() ==> places_fit(#[trigger] hits@[i]),
    ensures
        ({
            let flat = file_matches(hits@, hits@.len() as int);
            ms@ == ordered(flat, flat.len() as int)
        }),
{
    let mut ms: Vec<Match> = Vec::new();
    let ghost mut flat: Seq<Match> = Seq::empty();
    let mut i: usize = 0;
    while i < hits.len()
        invariant
            i <= hits@.len(),
            forall|j: int| 0 <= j < hits@.len() ==> places_fit(#[trigger] hits@[j]),
            flat == file_matches(hits@, i as int),
            ms@ == ordered(flat, flat.len() as int),
        decreases hits@.len() - i,
    {
        let on_line: Vec<Match> = hit_matches(&hits[i]);
        let ghost before = flat;
        let mut k: usize = 0;
        assert(before + on_line@.take(0) =~= before);
        while k < on_line.len()
            invariant
                k <= on_line@.len(),
                flat == before + on_line@.take(k as int),
                ms@ == ordered(flat, flat.len() as int),
            decreases on_line@.len() - k,
        {
            proof {
                let longer = flat.push(on_line@[k as int]);
                ordered_prefix(flat, longer, flat.len() as int);
                assert(longer.len() - 1 == flat.len());
                assert(longer =~= before + on_line@.take(k + 1));
                flat = longer;
            }
            insert_ordered(&mut ms, on_line[k]);
            k = k + 1;
        }
        assert(on_line@.take(k as int) =~= on_line@);
        i = i + 1;
    }
    ms
}

/// The order of the first matches does not depend on those that follow.
proof fn ordered_prefix(a: Seq<Match>, b: Seq<Match>, n: int)
    requires
        0 <= n <= a.len(),
        a.len() <= b.len(),
        forall|i: int| 0 <= i < a.len() ==> a[i] == b[i],
    ensures
        ordered(a, n) == ordered(b, n),
    decreases n,
{
    if n > 0 {
        ordered_prefix(a, b, n - 1);
    }
}

/// Whether matches lie within a text of `len` characters, one behind the other.
pub fn is_in_order(ms: &[Match], len: usize) -> (b: bool)
    ensures
        b == search::in_order(ms@, len as int),
{
    let mut i: usize = 0;
    while i < ms.len()
        invariant
            i <= ms@.len(),
            search::in_order(ms@.take(i as int), len as int),
        decreases ms@.len() - i,
    {
        let m: Match = ms[i];
        let ghost shown = ms@.take(i as int);
        if m.start > m.end || m.end > len {
            assert(!(ms@[i as int].start <= ms@[i as int].end <= len));
            return false;
        }
        if i > 0 && ms[i - 1].end > m.start {
            assert(!(ms@[i - 1].end <= ms@[i as int].start));
            return false;
        }
        proof {
            let longer = ms@.take(i + 1);
            assert forall|k: int| 0 <= k < longer.len() implies (#[trigger] longer[k]).start <= longer[k].end <= len by {
                if k < i {
                    assert(longer[k] == shown[k]);
                }
            }
            assert forall|j: int, k: int| 0 <= j < k < longer.len() implies (#[trigger] longer[j]).end <= (#[trigger] longer[k]).start by {
                assert(longer[j] == shown[j]);
                if k < i {
                    assert(longer[k] == shown[k]);
                } else if j < i - 1 {
                    assert(shown[j].end <= shown[i - 1].start);
                    assert(shown[i - 1].start <= shown[i - 1].end);
                }
            }
        }
        i = i + 1;
    }
    assert(ms@.take(i as int) =~= ms@);
    true
}

/// Ordering matches puts those first that start first, and loses none.
pub proof fn ordering_sorts(ms: Seq<Match>, n: int)
    requires
        0 <= n <= ms.len(),
    ensures
        forall|j: int, k: int|
            0 <= j < k < ordered(ms, n).len() ==> (#[trigger] ordered(ms, n)[j]).start <= (#[trigger] ordered(ms, n)[k]).start,
        ordered(ms, n).to_multiset() == ms.take(n).to_multiset(),
    decreases n,
{
    broadcast use vstd::seq_lib::group_to_multiset_ensures;

    if n > 0 {
        ordering_sorts(ms, n - 1);
        let before = ordered(ms, n - 1);
        let m = ms[n - 1];
        slot_bounds(before, m);
        slot_parts(before, m);
        let after = before.insert(slot(before, m), m);
        assert(ms.take(n) =~= ms.take(n - 1).push(m));
        assert(after.to_multiset() =~= before.to_multiset().insert(m));
    } else {
        assert(ms.take(0) =~= Seq::empty());
    }
}

/// What stands behind the slot of `m` starts later.
proof fn slot_parts(ms: Seq<Match>, m: Match)
    requires
        forall|j: int, k: int| 0 <= j < k < ms.len() ==> (#[trigger] ms[j]).start <= (#[trigger] ms[k]).start,
    ensures
        forall|j: int| slot(ms, m) <= j < ms.len() ==> (#[trigger] ms[j]).start > m.start,
        forall|j: int| 0 <= j < slot(ms, m) ==> (#[trigger] ms[j]).start <= m.start,
    decreases ms.len(),
{
    if ms.len() > 0 && ms.last().start > m.start {
        let rest = ms.drop_last();
        slot_parts(rest, m);
        slot_bounds(rest, m);
        assert forall|j: int| slot(ms, m) <= j < ms.len() implies (#[trigger] ms[j]).start > m.start by {
            if j < ms.len() - 1 {
                assert(rest[j] == ms[j]);
            }
        }
        assert forall|j: int| 0 <= j < slot(ms, m) implies (#[trigger] ms[j]).start <= m.start by {
            assert(rest[j] == ms[j]);
        }
    }
}

/// The text of a file with every match replaced.
pub fn replace_in_text(content: &str, ms: &[Match], replacement: &str) -> (r: String)
    requires
        search::in_order(ms@, content@.len() as int),
    ensures
        r@ == search::all_replaced(content@, ms@, replacement@),
{
    let mut doc: Document = Document { rope: rope_from_str(content), path: String::new(), dirty: false };
    replace_matches(&mut doc, ms, replacement);
    let len: usize = rope_len(&doc.rope);
    let r: String = rope_slice(&doc.rope, 0, len);
    assert(r@ =~= doc.chars());
    r
}

impl SearchResults {
    /// The places of the matches in file `i`: of all, or of those on one of its lines.
    pub open spec fn edits(self, i: int, hit: Option<usize>) -> Seq<Match> {
        let hits = self.results@[i].hits@;
        match hit {
            Some(h) => line_matches(hits[h as int], hits[h as int].ranges@.len() as int),
            None => ordered(file_matches(hits, hits.len() as int), file_matches(hits, hits.len() as int).len() as int),
        }
    }

    /// The places of the matches in file `i`: of all, or of those on one of its lines.
    pub fn file_edits(&self, i: usize, hit: Option<usize>) -> (ms: Vec<Match>)
        requires
            self.wf(),
            i < self.results@.len(),
            hit matches Some(h) ==> h < self.results@[i as int].hits@.len(),
        ensures
            ms@ == self.edits(i as int, hit),
    {
        assert forall|k: int| 0 <= k < self.results@[i as int].hits@.len() implies places_fit(
            #[trigger] self.results@[i as int].hits@[k],
        ) by {}
        match hit {
            Some(h) => hit_matches(&self.results[i].hits[h]),
            None => ordered_matches(self.results[i].hits.as_slice()),
        }
    }

    /// The text `content` of file `i` with matches replaced: all, or those on one of its lines.
    /// Nothing where the matches do not fit the text, which may have changed since the search.
    pub fn replaced_file(&self, i: usize, hit: Option<usize>, content: &str, replacement: &str) -> (r: Option<String>)
        requires
            self.wf(),
            i < self.results@.len(),
            hit matches Some(h) ==> h < self.results@[i as int].hits@.len(),
        ensures
            r is Some <==> search::in_order(self.edits(i as int, hit), content@.len() as int),
            r matches Some(s) ==> s@ == search::all_replaced(content@, self.edits(i as int, hit), replacement@),
    {
        let ms: Vec<Match> = self.file_edits(i, hit);
        if !is_in_order(ms.as_slice(), content.unicode_len()) {
            return None;
        }
        Some(replace_in_text(content, ms.as_slice(), replacement))
    }
}

// ── Rows as they are shown ────────────────────────────────────────────────────

/// A stretch of a line, and whether it is a match.
#[derive(Debug)]
pub struct PreviewSpan {
    pub text: String,
    pub matched: bool,
}

/// A stretch of a line by its values.
pub open spec fn span_views(spans: Seq<PreviewSpan>) -> Seq<(Seq<char>, bool)> {
    spans.map_values(|s: PreviewSpan| (s.text@, s.matched))
}

/// How far the first `n` matches reach.
pub open spec fn reached(s: Seq<char>, ranges: Seq<Match>, n: int) -> int {
    if n <= 0 { 0 } else { least(ranges[n - 1].end as int, s.len() as int) }
}

/// The stretches of a line up to the end of its first `n` matches.
pub open spec fn spans_up_to(s: Seq<char>, ranges: Seq<Match>, n: int) -> Seq<(Seq<char>, bool)>
    decreases n,
{
    if n <= 0 {
        Seq::empty()
    } else {
        let before = spans_up_to(s, ranges, n - 1);
        let pos = reached(s, ranges, n - 1);
        let start = least(ranges[n - 1].start as int, s.len() as int);
        let end = least(ranges[n - 1].end as int, s.len() as int);
        let gap = if pos < start { before.push((s.subrange(pos, start), false)) } else { before };
        if start < end { gap.push((s.subrange(start, end), true)) } else { gap }
    }
}

/// The stretches of a line: its matches, and what stands between them. A line without matches is
/// one stretch.
pub open spec fn preview_spans(s: Seq<char>, ranges: Seq<Match>) -> Seq<(Seq<char>, bool)> {
    if ranges.len() == 0 {
        seq![(s, false)]
    } else {
        let spans = spans_up_to(s, ranges, ranges.len() as int);
        let pos = reached(s, ranges, ranges.len() as int);
        if pos < s.len() { spans.push((s.subrange(pos, s.len() as int), false)) } else { spans }
    }
}

/// The stretches of a line.
pub fn build_preview_spans(preview: &str, ranges: &[Match]) -> (spans: Vec<PreviewSpan>)
    ensures
        span_views(spans@) == preview_spans(preview@, ranges@),
{
    let mut spans: Vec<PreviewSpan> = Vec::new();
    if ranges.len() == 0 {
        spans.push(PreviewSpan { text: preview.to_owned(), matched: false });
        assert(span_views(spans@) =~= preview_spans(preview@, ranges@));
        return spans;
    }
    let chars: Vec<char> = chars_of(preview);
    let len: usize = chars.len();
    let mut pos: usize = 0;
    let mut n: usize = 0;
    assert(span_views(spans@) =~= Seq::empty());
    while n < ranges.len()
        invariant
            n <= ranges@.len(),
            chars@ == preview@,
            len == chars@.len(),
            pos <= len,
            pos == reached(preview@, ranges@, n as int),
            span_views(spans@) == spans_up_to(preview@, ranges@, n as int),
        decreases ranges@.len() - n,
    {
        let r: Match = ranges[n];
        let start: usize = if r.start < len { r.start } else { len };
        let end: usize = if r.end < len { r.end } else { len };
        if pos < start {
            let ghost before = spans@;
            let text: String = string_of(chars.as_slice(), pos, start);
            spans.push(PreviewSpan { text, matched: false });
            assert(span_views(spans@) =~= span_views(before).push((preview@.subrange(pos as int, start as int), false)));
        }
        if start < end {
            let ghost before = spans@;
            let text: String = string_of(chars.as_slice(), start, end);
            spans.push(PreviewSpan { text, matched: true });
            assert(span_views(spans@) =~= span_views(before).push((preview@.subrange(start as int, end as int), true)));
        }
        pos = end;
        n = n + 1;
    }
    if pos < len {
        let ghost before = spans@;
        let text: String = string_of(chars.as_slice(), pos, len);
        spans.push(PreviewSpan { text, matched: false });
        assert(span_views(spans@) =~= span_views(before).push((preview@.subrange(pos as int, len as int), false)));
    }
    spans
}

/// A row of the results as it is shown.
#[derive(Debug)]
pub enum RowView {
    /// The header of a file: its name, its path, how many lines have matches, whether they are
    /// hidden, and where the first one is.
    Header { name: String, rel_path: String, hits: usize, collapsed: bool, line: usize, col: usize },
    MoreAbove,
    MoreBelow,
    /// A line of context, with its number counted from one.
    Context { number: String, text: String, line: usize },
    /// A line with matches.
    Hit { number: String, spans: Vec<PreviewSpan>, line: usize, col: usize },
}

/// The number of a line, counted from one.
fn line_number_text(line: usize) -> (s: String)
    requires
        line < usize::MAX,
    ensures
        s@ == text::decimal((line + 1) as nat),
{
    let mut s: String = String::new();
    push_decimal(&mut s, (line + 1) as u64);
    assert(s@ =~= text::decimal((line + 1) as nat));
    s
}

/// The path of a file as its header shows it: within the project, or else all of it.
pub open spec fn header_path(path: Seq<char>, relative: Option<Seq<char>>) -> Seq<char> {
    match relative {
        Some(r) => r,
        None => path,
    }
}

/// A line of a file whose lines are known; nothing where it is not among them.
pub open spec fn known_line(m: Map<Seq<Seq<u8>>, Vec<String>>, key: Seq<Seq<u8>>, line: int) -> Seq<char> {
    if m.dom().contains(key) && line < m[key]@.len() { m[key]@[line]@ } else { Seq::empty() }
}

impl SearchResults {
    /// Whether a row belongs to the results.
    pub open spec fn row_fits(self, row: ResultRow) -> bool {
        &&& Self::file_of(row) < self.results@.len()
        &&& row matches ResultRow::Hit { file_idx, hit_idx } ==> hit_idx < self.results@[file_idx as int].hits@.len()
        &&& row matches ResultRow::ContextLine { line_number, .. } ==> line_number < usize::MAX
    }

    /// Whether `v` is how a row is shown. `name` is the name of its file, and `relative` its path
    /// within the project.
    pub open spec fn shows_row(self, row: ResultRow, name: Option<Seq<char>>, relative: Option<Seq<char>>, v: RowView) -> bool {
        let f = self.results@[Self::file_of(row) as int];
        match row {
            ResultRow::FileHeader { .. } => v matches RowView::Header { name: n, rel_path, hits, collapsed, line, col } && {
                &&& n@ == match name {
                    Some(x) => x,
                    None => Seq::empty(),
                }
                &&& rel_path@ == header_path(f.path@, relative)
                &&& hits == f.hits@.len()
                &&& collapsed == self.collapsed@.dom().contains(f.key())
                &&& line == if f.hits@.len() > 0 { f.hits@[0].line } else { 0 }
                &&& col == if f.hits@.len() > 0 { f.hits@[0].col } else { 0 }
            },
            ResultRow::ExpandAbove { .. } => v is MoreAbove,
            ResultRow::ExpandBelow { .. } => v is MoreBelow,
            ResultRow::ContextLine { line_number, .. } => v matches RowView::Context { number, text: t, line } && {
                &&& number@ == text::decimal((line_number + 1) as nat)
                &&& t@ == known_line(self.file_contents@, f.key(), line_number as int)
                &&& line == line_number
            },
            ResultRow::Hit { hit_idx, .. } => v matches RowView::Hit { number, spans, line, col } && {
                let h = f.hits@[hit_idx as int];
                &&& number@ == text::decimal((h.line + 1) as nat)
                &&& span_views(spans@) == preview_spans(h.preview@, h.ranges@)
                &&& line == h.line
                &&& col == h.col
            },
        }
    }

    /// How a row is shown. `root` is the folder of the project.
    pub fn result_row(&self, row: ResultRow, root: Option<&str>) -> (v: RowView)
        requires
            self.wf(),
            self.row_fits(row),
        ensures
            ({
                let path = self.results@[Self::file_of(row) as int].path@;
                self.shows_row(
                    row,
                    paths::file_name_of(path),
                    match root {
                        Some(r) => paths::relative_path_of(path, r@),
                        None => None,
                    },
                    v,
                )
            }),
    {
        match row {
            ResultRow::FileHeader { file_idx } => {
                let path: &str = self.results[file_idx].path.as_str();
                let relative: Option<String> = match root {
                    Some(r) => path_relative(path, r),
                    None => None,
                };
                self.row_shown(row, path_file_name(path), relative)
            },
            _ => self.row_shown(row, None, None),
        }
    }

    /// How a row is shown, where `name` is the name of its file and `relative` its path within
    /// the project.
    pub fn row_shown(&self, row: ResultRow, name: Option<String>, relative: Option<String>) -> (v: RowView)
        requires
            self.wf(),
            self.row_fits(row),
        ensures
            self.shows_row(row, paths::text_view(name), paths::text_view(relative), v),
    {
        match row {
            ResultRow::FileHeader { file_idx } => {
                let f: &FileSearchResult = &self.results[file_idx];
                let (line, col): (usize, usize) = if f.hits.len() > 0 { (f.hits[0].line, f.hits[0].col) } else { (0, 0) };
                RowView::Header {
                    name: match name {
                        Some(n) => n,
                        None => String::new(),
                    },
                    rel_path: match relative {
                        Some(r) => r,
                        None => f.path.clone(),
                    },
                    hits: f.hits.len(),
                    collapsed: self.collapsed.contains_key(f.path.as_str()),
                    line,
                    col,
                }
            },
            ResultRow::ExpandAbove { .. } => RowView::MoreAbove,
            ResultRow::ExpandBelow { .. } => RowView::MoreBelow,
            ResultRow::ContextLine { file_idx, line_number } => {
                let f: &FileSearchResult = &self.results[file_idx];
                let text: String = match self.file_contents.get(f.path.as_str()) {
                    Some(lines) => if line_number < lines.len() { lines[line_number].clone() } else { String::new() },
                    None => String::new(),
                };
                RowView::Context { number: line_number_text(line_number), text, line: line_number }
            },
            ResultRow::Hit { file_idx, hit_idx } => {
                let h: &SearchHit = &self.results[file_idx].hits[hit_idx];
                assert(self.results@[file_idx as int].hits@[hit_idx as int].line < usize::MAX);
                RowView::Hit {
                    number: line_number_text(h.line),
                    spans: build_preview_spans(h.preview.as_str(), h.ranges.as_slice()),
                    line: h.line,
                    col: h.col,
                }
            },
        }
    }
}

/// The rows of a file belong to it.
proof fn file_rows_fit(list: SearchResults, i: int, k: int)
    requires
        list.wf(),
        0 <= i < list.results@.len(),
        0 <= k < list.file_rows(i).len(),
    ensures
        list.row_fits(list.file_rows(i)[k]),
{
    assert(list.results.len() == list.results@.len());
    let f = list.results@[i];
    assert(f.hits.len() == f.hits@.len());
    if f.hits@.len() > 0 {
        assert(f.hits@[0].line < usize::MAX);
        assert(f.hits@.last().line < usize::MAX);
    }
    if list.file_contents@.dom().contains(f.key()) {
        assert(list.file_contents@[f.key()].len() == list.file_contents@[f.key()]@.len());
    }
}

/// Every row of the results belongs to one of its files, and to one of its matches where it is
/// the row of a match: each can be shown.
pub proof fn rows_fit(list: SearchResults, n: int, k: int)
    requires
        list.wf(),
        0 <= n <= list.results@.len(),
        0 <= k < list.all_rows(n).len(),
    ensures
        list.row_fits(list.all_rows(n)[k]),
    decreases n,
{
    if n > 0 {
        let before = list.all_rows(n - 1);
        if k < before.len() {
            rows_fit(list, n - 1, k);
        } else {
            file_rows_fit(list, n - 1, k - before.len());
        }
    }
}

} // verus!
