//! The finder of symbols in a project.
use vstd::prelude::*;

use crate::cycle;
use crate::file_finder;
use crate::keys::KeyPress;
use crate::paths;
use crate::paths::path_join;
use crate::text;
use crate::text::{push_char, push_decimal};
use crate::text_input::{FinderKey, TextInput};

verus! {

/// How many symbols are listed at most.
pub const RESULT_LIMIT: usize = 100;

/// Milliseconds that typing waits before symbols are looked for.
pub const FILTER_DEBOUNCE_MS: u64 = 30;

/// A symbol that an index has found.
#[derive(Debug)]
pub struct SymbolMatch {
    pub name: String,
    pub rel_path: String,
    pub source_line: usize,
    pub positions: Vec<u32>,
}

/// A row of the finder.
#[derive(Debug)]
pub struct SymbolRow {
    pub name: String,
    pub rel_path: String,
    pub source_line: usize,
    /// The file and the line, counted from one.
    pub path_and_line: String,
    /// The characters of `name` that the query matches.
    pub positions: Vec<u32>,
}

/// The finder of symbols.
#[derive(Debug)]
pub struct SymbolFinderView {
    pub query: TextInput,
    pub selected: usize,
    pub rows: Vec<SymbolRow>,
    pub filtering: bool,
    /// Counts the searches: what an earlier one finds is dropped.
    pub filter_generation: u64,
}

/// What the finder shows.
#[derive(Debug, Clone, Copy, PartialEq, Eq, Structural)]
pub enum SymbolList {
    /// No folder is open.
    OpenFolder,
    Indexing,
    NoMatches,
    Rows,
}

/// A file and a line, counted from zero, as they are shown.
pub open spec fn place_label(path: Seq<char>, line: int) -> Seq<char> {
    path.push(':') + text::decimal((line + 1) as nat)
}

impl SymbolRow {
    /// The row of a symbol.
    pub fn from_match(m: SymbolMatch) -> (r: SymbolRow)
        requires
            m.source_line < usize::MAX,
        ensures
            r.name == m.name,
            r.rel_path == m.rel_path,
            r.source_line == m.source_line,
            r.path_and_line@ == place_label(m.rel_path@, m.source_line as int),
            r.positions == m.positions,
    {
        let mut label: String = m.rel_path.clone();
        push_char(&mut label, ':');
        push_decimal(&mut label, (m.source_line + 1) as u64);
        SymbolRow {
            name: m.name,
            rel_path: m.rel_path,
            source_line: m.source_line,
            path_and_line: label,
            positions: m.positions,
        }
    }
}

/// Whether `rows` are those of what was found, in order.
pub open spec fn rows_of(found: Seq<SymbolMatch>, rows: Seq<SymbolRow>) -> bool {
    &&& rows.len() == found.len()
    &&& forall|i: int|
        0 <= i < rows.len() ==> {
            &&& (#[trigger] rows[i]).name == found[i].name
            &&& rows[i].rel_path == found[i].rel_path
            &&& rows[i].source_line == found[i].source_line
            &&& rows[i].path_and_line@ == place_label(found[i].rel_path@, found[i].source_line as int)
            &&& rows[i].positions == found[i].positions
        }
}

/// The rows of what was found.
fn make_rows(found: Vec<SymbolMatch>) -> (rows: Vec<SymbolRow>)
    requires
        forall|i: int| 0 <= i < found@.len() ==> (#[trigger] found@[i]).source_line < usize::MAX,
    ensures
        rows_of(found@, rows@),
{
    let ghost all = found@;
    let mut left: Vec<SymbolMatch> = found;
    let mut back: Vec<SymbolRow> = Vec::new();
    while left.len() > 0
        invariant
            left@.len() <= all.len(),
            left@ == all.take(left@.len() as int),
            back@.len() == all.len() - left@.len(),
            forall|i: int| 0 <= i < all.len() ==> (#[trigger] all[i]).source_line < usize::MAX,
            forall|k: int|
                0 <= k < back@.len() ==> {
                    let m = all[all.len() - 1 - k];
                    &&& (#[trigger] back@[k]).name == m.name
                    &&& back@[k].rel_path == m.rel_path
                    &&& back@[k].source_line == m.source_line
                    &&& back@[k].path_and_line@ == place_label(m.rel_path@, m.source_line as int)
                    &&& back@[k].positions == m.positions
                },
        decreases left@.len(),
    {
        let ghost n = left@.len() as int;
        match left.pop() {
            Some(m) => {
                assert(m == all[n - 1]);
                assert(left@ =~= all.take(n - 1));
                back.push(SymbolRow::from_match(m));
            },
            None => {},
        }
    }
    let ghost turned = back@;
    let mut rows: Vec<SymbolRow> = Vec::new();
    while back.len() > 0
        invariant
            turned.len() == all.len(),
            back@.len() <= turned.len(),
            back@ == turned.take(back@.len() as int),
            rows@.len() == turned.len() - back@.len(),
            forall|i: int| 0 <= i < rows@.len() ==> #[trigger] rows@[i] == turned[turned.len() - 1 - i],
        decreases back@.len(),
    {
        let ghost n = back@.len() as int;
        match back.pop() {
            Some(r) => {
                assert(r == turned[n - 1]);
                assert(back@ =~= turned.take(n - 1));
                rows.push(r);
            },
            None => {},
        }
    }
    rows
}

impl SymbolFinderView {
    /// Whether the caret lies within the query.
    pub open spec fn wf(self) -> bool {
        self.query.wf()
    }

    /// A finder with an empty query.
    pub fn new() -> (v: SymbolFinderView)
        ensures
            v.query.empty(),
            v.selected == 0,
            v.rows@.len() == 0,
            !v.filtering,
            v.filter_generation == 0,
            v.wf(),
    {
        SymbolFinderView {
            query: TextInput::new(),
            selected: 0,
            rows: Vec::new(),
            filtering: false,
            filter_generation: 0,
        }
    }

    /// Starts a search and gives its number; where there is no index, there is nothing to list.
    pub fn schedule_filter(&mut self, has_index: bool) -> (generation: Option<u64>)
        requires
            old(self).wf(),
            old(self).filter_generation < u64::MAX,
        ensures
            has_index ==> generation == Some((old(self).filter_generation + 1) as u64) && *final(self)
                == (SymbolFinderView {
                filter_generation: (old(self).filter_generation + 1) as u64,
                filtering: true,
                ..*old(self)
            }),
            !has_index ==> {
                &&& generation is None
                &&& final(self).rows@.len() == 0
                &&& *final(self) == (SymbolFinderView {
                    filter_generation: (old(self).filter_generation + 1) as u64,
                    filtering: false,
                    rows: final(self).rows,
                    ..*old(self)
                })
            },
            final(self).wf(),
    {
        self.filter_generation = self.filter_generation + 1;
        if !has_index {
            self.rows = Vec::new();
            self.filtering = false;
            return None;
        }
        self.filtering = true;
        Some(self.filter_generation)
    }

    /// Takes over what the search `generation` has found, if no other was started since. Says
    /// whether it did.
    pub fn apply_matches(&mut self, generation: u64, found: Vec<SymbolMatch>) -> (taken: bool)
        requires
            old(self).wf(),
            forall|i: int| 0 <= i < found@.len() ==> (#[trigger] found@[i]).source_line < usize::MAX,
        ensures
            taken == (generation == old(self).filter_generation),
            !taken ==> *final(self) == *old(self),
            taken ==> {
                &&& rows_of(found@, final(self).rows@)
                &&& *final(self) == (SymbolFinderView {
                    rows: final(self).rows,
                    filtering: false,
                    selected: if old(self).selected < file_finder::last_ix(found@.len() as int) {
                        old(self).selected
                    } else {
                        file_finder::last_ix(found@.len() as int) as usize
                    },
                    ..*old(self)
                })
            },
            final(self).wf(),
    {
        if self.filter_generation != generation {
            return false;
        }
        let last: usize = if found.len() > 0 { found.len() - 1 } else { 0 };
        self.rows = make_rows(found);
        if self.selected >= last {
            self.selected = last;
        }
        self.filtering = false;
        true
    }

    /// The place of the selected symbol: the path of its file in the folder `root`, and its line.
    pub fn confirm(&self, root: Option<&str>) -> (r: Option<(String, usize)>)
        ensures
            r is Some <==> self.selected < self.rows@.len() && root is Some,
            r matches Some((path, line)) ==> {
                let row = self.rows@[self.selected as int];
                path@ == paths::joined_path_of(root->0@, row.rel_path@) && line == row.source_line
            },
    {
        if self.selected >= self.rows.len() {
            return None;
        }
        match root {
            Some(r) => {
                let row: &SymbolRow = &self.rows[self.selected];
                Some((path_join(r, row.rel_path.as_str()), row.source_line))
            },
            None => None,
        }
    }

    /// Selects the next symbol, or the previous one, round at the ends.
    pub fn move_selection(&mut self, forward: bool) -> (moved: bool)
        requires
            old(self).wf(),
            old(self).selected < usize::MAX,
        ensures
            moved == (old(self).rows@.len() > 0),
            !moved ==> *final(self) == *old(self),
            moved ==> {
                &&& final(self).selected == cycle::moved(
                    old(self).rows@.len() as int,
                    old(self).selected as int,
                    if forward { 1 } else { -1 },
                )
                &&& *final(self) == (SymbolFinderView { selected: final(self).selected, ..*old(self) })
            },
            final(self).wf(),
    {
        let len: usize = self.rows.len();
        if len == 0 {
            return false;
        }
        self.selected = cycle::step(len, self.selected, forward);
        true
    }

    /// Selects the symbol under the mouse. Says whether another one was selected before.
    pub fn hover_row(&mut self, ix: usize) -> (changed: bool)
        requires
            old(self).wf(),
        ensures
            changed == (old(self).selected != ix),
            *final(self) == (SymbolFinderView { selected: ix, ..*old(self) }),
            final(self).wf(),
    {
        if self.selected == ix {
            return false;
        }
        self.selected = ix;
        true
    }

    /// A key is pressed. Where it changes the query, symbols are to be looked for anew, and the
    /// first one is selected.
    pub fn on_key_down(&mut self, key: &KeyPress) -> (r: FinderKey)
        requires
            old(self).wf(),
        ensures
            old(self).query.finder_keyed(final(self).query, *key, r),
            *final(self) == (SymbolFinderView {
                query: final(self).query,
                selected: if r != FinderKey::Nothing { 0 } else { old(self).selected },
                ..*old(self)
            }),
            final(self).wf(),
    {
        let r: FinderKey = self.query.press_in_finder(key);
        if r != FinderKey::Nothing {
            self.selected = 0;
        }
        r
    }

    /// Deletes the character before the caret. Says whether the query has changed.
    pub fn on_backspace(&mut self) -> (changed: bool)
        requires
            old(self).wf(),
        ensures
            changed == (old(self).query.cursor > 0),
            old(self).query.backspaced(final(self).query),
            *final(self) == (SymbolFinderView {
                query: final(self).query,
                selected: if changed { 0 } else { old(self).selected },
                ..*old(self)
            }),
            final(self).wf(),
    {
        if self.query.backspace() {
            self.selected = 0;
            return true;
        }
        false
    }

    /// What the finder shows.
    pub open spec fn list(self, has_root: bool, has_index: bool) -> SymbolList {
        if !has_root {
            SymbolList::OpenFolder
        } else if !has_index || (self.filtering && self.rows@.len() == 0) {
            SymbolList::Indexing
        } else if !self.filtering && self.rows@.len() == 0 && self.query.text@.len() > 0 {
            SymbolList::NoMatches
        } else {
            SymbolList::Rows
        }
    }

    /// What the finder shows.
    pub fn list_state(&self, has_root: bool, has_index: bool) -> (l: SymbolList)
        ensures
            l == self.list(has_root, has_index),
    {
        if !has_root {
            SymbolList::OpenFolder
        } else if !has_index || (self.filtering && self.rows.len() == 0) {
            SymbolList::Indexing
        } else if !self.filtering && self.rows.len() == 0 && !self.query.text.as_str().is_empty() {
            SymbolList::NoMatches
        } else {
            SymbolList::Rows
        }
    }
}

} // verus!
