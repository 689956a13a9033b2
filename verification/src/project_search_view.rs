//! The search in all files of a project: its inputs, its options, and when it is run.
use vstd::prelude::*;

use crate::buffer_view::ColorRole;
use crate::keys;
use crate::keys::{swap_case, KeyPress};
use crate::search;
use crate::search::FindQuery;
use crate::search_results::{hits_in, FileSearchResult, ResultRow, SearchResults};
use crate::search_results;
use crate::text::{push_char, push_decimal};
use crate::text_input::{CaretMove, InputView, TextInput};

verus! {

/// Milliseconds that typing waits before files are searched.
pub const SEARCH_DEBOUNCE_MS: u64 = 150;

/// The inputs of the search.
#[derive(Debug, Clone, Copy, PartialEq, Eq, Structural)]
pub enum ActiveInput {
    Query,
    Replace,
    Include,
    Exclude,
}

/// What stands in the inputs.
#[derive(Debug)]
pub struct SearchInputs {
    pub query: TextInput,
    pub replace: TextInput,
    pub included: TextInput,
    pub excluded: TextInput,
}

/// What can be switched about a search.
#[derive(Debug, Clone, Copy, PartialEq, Eq, Structural)]
pub enum SearchOption {
    Case,
    Word,
    Regex,
    Ignored,
    OpenFiles,
}

/// How files are searched.
#[derive(Debug, Clone, Copy, PartialEq, Eq, Structural)]
pub struct SearchOptions {
    pub case_sensitive: bool,
    pub whole_word: bool,
    pub regex: bool,
    pub include_ignored: bool,
    pub open_files_only: bool,
}

/// What is looked for in the files of a project, how, and in which of them.
#[derive(Debug)]
pub struct ProjectQuery {
    pub find: FindQuery,
    pub include_ignored: bool,
    /// The patterns of the files that are searched, and of those that are not.
    pub included: String,
    pub excluded: String,
    /// The only files that are searched, where the search is restricted to some.
    pub scope: Option<Vec<String>>,
}

/// The search in all files of a project.
#[derive(Debug)]
pub struct ProjectSearchView {
    pub inputs: SearchInputs,
    pub options: SearchOptions,
    pub filters_open: bool,
    pub replace_open: bool,
    pub list: SearchResults,
    pub active_row: Option<usize>,
    pub total_matches: usize,
    pub limit_reached: bool,
    /// Counts the searches: what an earlier one finds is dropped.
    pub search_generation: u64,
    pub is_searching: bool,
    pub has_searched: bool,
}

/// What a key has done.
#[derive(Debug, Clone, Copy, PartialEq, Eq, Structural)]
pub enum SearchKey {
    Nothing,
    /// No input is to have the keyboard.
    Leave,
    /// Another input is to have the keyboard.
    Focus { input: ActiveInput },
    /// More context is wanted.
    ExpandContext,
    /// A search is to be started.
    Search,
    /// An input has changed that starts no search.
    Edited,
}

/// What the toolbar says of the results.
#[derive(Debug, Clone, Copy, PartialEq, Eq, Structural)]
pub enum ProjectSearchInfo {
    Blank,
    Searching,
    NoResults,
    LimitReached { matches: usize },
    Counts { matches: usize, files: usize },
}

/// What a tip is about.
#[derive(Debug, Clone, Copy, PartialEq, Eq, Structural)]
pub enum TipKind {
    Case,
    Word,
    Regex,
    Filters,
    Replace,
}

/// A tip on how to search, with the colors of what stands for it.
#[derive(Debug, Clone, Copy, PartialEq, Eq, Structural)]
pub struct Tip {
    pub kind: TipKind,
    pub active: bool,
    pub color: ColorRole,
    pub background: ColorRole,
}

/// What is shown below the toolbar.
#[derive(Debug, Clone, Copy, PartialEq, Eq, Structural)]
pub enum SearchBody {
    Results,
    Searching,
    NoResults,
    Tips,
}

impl SearchInputs {
    /// Whether the carets lie within their inputs.
    pub open spec fn wf(self) -> bool {
        self.query.wf() && self.replace.wf() && self.included.wf() && self.excluded.wf()
    }

    /// An input.
    pub open spec fn input(self, a: ActiveInput) -> TextInput {
        match a {
            ActiveInput::Query => self.query,
            ActiveInput::Replace => self.replace,
            ActiveInput::Include => self.included,
            ActiveInput::Exclude => self.excluded,
        }
    }

    /// The inputs with another in the place of `a`.
    pub open spec fn with(self, a: ActiveInput, input: TextInput) -> SearchInputs {
        match a {
            ActiveInput::Query => SearchInputs { query: input, ..self },
            ActiveInput::Replace => SearchInputs { replace: input, ..self },
            ActiveInput::Include => SearchInputs { included: input, ..self },
            ActiveInput::Exclude => SearchInputs { excluded: input, ..self },
        }
    }

    /// Inserts at the caret of an input.
    fn insert(&mut self, a: ActiveInput, typed: &str)
        requires
            old(self).wf(),
        ensures
            old(self).input(a).typed_into(final(self).input(a), typed@),
            *final(self) == old(self).with(a, final(self).input(a)),
            final(self).wf(),
    {
        match a {
            ActiveInput::Query => self.query.insert(typed),
            ActiveInput::Replace => self.replace.insert(typed),
            ActiveInput::Include => self.included.insert(typed),
            ActiveInput::Exclude => self.excluded.insert(typed),
        }
    }

    /// What deleting before the caret does to an input: everything there goes, or the last word.
    pub open spec fn deleted(self, after: SearchInputs, a: ActiveInput, whole: bool, changed: bool) -> bool {
        let input = self.input(a);
        let now = after.input(a);
        &&& changed == if whole { input.cursor > 0 } else { input.has_word_before() }
        &&& after == self.with(a, now)
        &&& if !changed {
            now == input
        } else if whole {
            now.text@ == input.text@.skip(input.cursor as int) && now.cursor == 0
        } else {
            input.word_deleted(now)
        }
    }

    /// Deletes before the caret of an input.
    fn delete(&mut self, a: ActiveInput, whole: bool) -> (changed: bool)
        requires
            old(self).wf(),
        ensures
            old(self).deleted(*final(self), a, whole, changed),
            final(self).wf(),
    {
        if whole {
            match a {
                ActiveInput::Query => self.query.delete_to_start(),
                ActiveInput::Replace => self.replace.delete_to_start(),
                ActiveInput::Include => self.included.delete_to_start(),
                ActiveInput::Exclude => self.excluded.delete_to_start(),
            }
        } else {
            match a {
                ActiveInput::Query => self.query.delete_word(),
                ActiveInput::Replace => self.replace.delete_word(),
                ActiveInput::Include => self.included.delete_word(),
                ActiveInput::Exclude => self.excluded.delete_word(),
            }
        }
    }

    /// Moves the caret of an input.
    fn move_in(&mut self, a: ActiveInput, to: CaretMove)
        requires
            old(self).wf(),
        ensures
            ({
                let input = old(self).input(a);
                *final(self) == old(self).with(a, input.caret_moved(to))
            }),
            final(self).wf(),
    {
        match a {
            ActiveInput::Query => self.query.move_caret(to),
            ActiveInput::Replace => self.replace.move_caret(to),
            ActiveInput::Include => self.included.move_caret(to),
            ActiveInput::Exclude => self.excluded.move_caret(to),
        }
    }

    /// Deletes the character before the caret of an input.
    fn backspace(&mut self, a: ActiveInput) -> (changed: bool)
        requires
            old(self).wf(),
        ensures
            changed == (old(self).input(a).cursor > 0),
            old(self).input(a).backspaced(final(self).input(a)),
            *final(self) == old(self).with(a, final(self).input(a)),
            final(self).wf(),
    {
        match a {
            ActiveInput::Query => self.query.backspace(),
            ActiveInput::Replace => self.replace.backspace(),
            ActiveInput::Include => self.included.backspace(),
            ActiveInput::Exclude => self.excluded.backspace(),
        }
    }
}

impl SearchOptions {
    /// The options with one of them switched.
    pub open spec fn flipped(self, option: SearchOption) -> SearchOptions {
        match option {
            SearchOption::Case => SearchOptions { case_sensitive: !self.case_sensitive, ..self },
            SearchOption::Word => SearchOptions { whole_word: !self.whole_word, ..self },
            SearchOption::Regex => SearchOptions { regex: !self.regex, ..self },
            SearchOption::Ignored => SearchOptions { include_ignored: !self.include_ignored, ..self },
            SearchOption::OpenFiles => SearchOptions { open_files_only: !self.open_files_only, ..self },
        }
    }

    /// Switches one of the options.
    fn flip(&mut self, option: SearchOption)
        ensures
            *final(self) == old(self).flipped(option),
    {
        match option {
            SearchOption::Case => {
                self.case_sensitive = !self.case_sensitive;
            },
            SearchOption::Word => {
                self.whole_word = !self.whole_word;
            },
            SearchOption::Regex => {
                self.regex = !self.regex;
            },
            SearchOption::Ignored => {
                self.include_ignored = !self.include_ignored;
            },
            SearchOption::OpenFiles => {
                self.open_files_only = !self.open_files_only;
            },
        }
    }
}

/// Texts by their values.
pub open spec fn path_texts(v: Seq<String>) -> Seq<Seq<char>> {
    Seq::new(v.len(), |i: int| v[i]@)
}

/// The first `n` paths without the empty ones.
pub open spec fn with_path(paths: Seq<Seq<char>>, n: int) -> Seq<Seq<char>>
    decreases n,
{
    if n <= 0 {
        Seq::empty()
    } else if paths[n - 1].len() > 0 {
        with_path(paths, n - 1).push(paths[n - 1])
    } else {
        with_path(paths, n - 1)
    }
}

impl ProjectSearchView {
    /// Whether the inputs and the results are well-formed.
    pub open spec fn wf(self) -> bool {
        self.inputs.wf() && self.list.wf()
    }

    /// The view with the number of another search.
    pub open spec fn searching_anew(self) -> ProjectSearchView {
        ProjectSearchView { search_generation: (self.search_generation + 1) as u64, ..self }
    }

    /// A search that was not started yet. `prefill` is what to search for.
    pub fn new(prefill: String) -> (v: ProjectSearchView)
        ensures
            v.inputs.query.text@ == prefill@,
            v.inputs.query.cursor == prefill@.len(),
            v.inputs.replace.empty() && v.inputs.included.empty() && v.inputs.excluded.empty(),
            v.options == (SearchOptions {
                case_sensitive: false,
                whole_word: false,
                regex: false,
                include_ignored: false,
                open_files_only: false,
            }),
            !v.filters_open && !v.replace_open,
            v.list.results@.len() == 0,
            v.list.rows_match(),
            v.list.collapsed@ == Map::<Seq<Seq<u8>>, ()>::empty(),
            v.active_row is None,
            v.total_matches == 0,
            !v.limit_reached && !v.is_searching && !v.has_searched,
            v.search_generation == 0,
            v.wf(),
    {
        ProjectSearchView {
            inputs: SearchInputs {
                query: TextInput::filled(prefill),
                replace: TextInput::new(),
                included: TextInput::new(),
                excluded: TextInput::new(),
            },
            options: SearchOptions {
                case_sensitive: false,
                whole_word: false,
                regex: false,
                include_ignored: false,
                open_files_only: false,
            },
            filters_open: false,
            replace_open: false,
            list: SearchResults::new(),
            active_row: None,
            total_matches: 0,
            limit_reached: false,
            search_generation: 0,
            is_searching: false,
            has_searched: false,
        }
    }

    /// Searches for `text` from now on. A search is to be started.
    pub fn set_query(&mut self, text: String)
        requires
            old(self).wf(),
            old(self).search_generation < u64::MAX,
        ensures
            final(self).inputs.query.text@ == text@,
            final(self).inputs.query.cursor == text@.len(),
            final(self).inputs == old(self).inputs.with(ActiveInput::Query, final(self).inputs.query),
            *final(self) == (ProjectSearchView { inputs: final(self).inputs, ..old(self).searching_anew() }),
            final(self).wf(),
    {
        self.inputs.query = TextInput::filled(text);
        self.search_generation = self.search_generation + 1;
    }

    // ── Searching ─────────────────────────────────────────────────────────────

    /// What starting a search does. An empty query finds nothing; without a folder nothing is
    /// searched.
    pub open spec fn scheduled(self, after: ProjectSearchView, has_root: bool, generation: Option<u64>) -> bool {
        if self.inputs.query.text@.len() == 0 {
            &&& generation is None
            &&& after.list.results@.len() == 0
            &&& after.list.rows@.len() == 0
            &&& after.list == (SearchResults { results: after.list.results, rows: after.list.rows, ..self.list })
            &&& after == (ProjectSearchView {
                list: after.list,
                total_matches: 0,
                is_searching: false,
                has_searched: false,
                ..self
            })
        } else {
            &&& after.list.context_above@ == Map::<Seq<Seq<u8>>, usize>::empty()
            &&& after.list.context_below@ == Map::<Seq<Seq<u8>>, usize>::empty()
            &&& after.list.collapsed == self.list.collapsed
            &&& after.list.file_contents == self.list.file_contents
            &&& if has_root {
                &&& generation == Some(self.search_generation)
                &&& after.list.results@.len() == 0
                &&& after.list.rows@.len() == 0
                &&& after == (ProjectSearchView {
                    list: after.list,
                    is_searching: true,
                    has_searched: false,
                    ..self
                })
            } else {
                &&& generation is None
                &&& after.list.results == self.list.results
                &&& after.list.rows == self.list.rows
                &&& after == (ProjectSearchView { list: after.list, ..self })
            }
        }
    }

    /// Starts a search and gives its number.
    pub fn schedule_search(&mut self, has_root: bool) -> (generation: Option<u64>)
        requires
            old(self).wf(),
        ensures
            old(self).scheduled(*final(self), has_root, generation),
            final(self).wf(),
    {
        if self.inputs.query.text.as_str().is_empty() {
            self.list.drop_results();
            self.total_matches = 0;
            self.is_searching = false;
            self.has_searched = false;
            return None;
        }
        self.list.drop_context();
        if !has_root {
            return None;
        }
        self.is_searching = true;
        self.has_searched = false;
        self.list.drop_results();
        Some(self.search_generation)
    }

    /// The open files that a search is restricted to, if it is restricted to them: those that
    /// have a path.
    pub fn scope_paths(&self, open: &[String]) -> (r: Option<Vec<String>>)
        ensures
            r is Some <==> self.options.open_files_only,
            r matches Some(v) ==> path_texts(v@) == with_path(path_texts(open@), open@.len() as int),
    {
        if !self.options.open_files_only {
            return None;
        }
        let mut v: Vec<String> = Vec::new();
        let mut i: usize = 0;
        assert(path_texts(v@) =~= Seq::empty());
        while i < open.len()
            invariant
                i <= open@.len(),
                path_texts(v@) == with_path(path_texts(open@), i as int),
            decreases open@.len() - i,
        {
            let ghost before = v@;
            if !open[i].as_str().is_empty() {
                v.push(open[i].clone());
                assert(path_texts(v@) =~= path_texts(before).push(open@[i as int]@));
            }
            i = i + 1;
        }
        Some(v)
    }

    /// Takes over what the search `generation` has found, if no other was started since. Says
    /// whether it did.
    pub fn apply_results(&mut self, generation: u64, results: Vec<FileSearchResult>, limit_reached: bool) -> (taken: bool)
        requires
            old(self).wf(),
            search_results::lines_fit(results@),
            search_results::count_hits(results@, results@.len() as int) <= usize::MAX,
        ensures
            taken == (generation == old(self).search_generation),
            !taken ==> *final(self) == *old(self),
            taken ==> {
                &&& final(self).list == (SearchResults { results, rows: final(self).list.rows, ..old(self).list })
                &&& final(self).list.rows_match()
                &&& *final(self) == (ProjectSearchView {
                    list: final(self).list,
                    total_matches: search_results::count_hits(results@, results@.len() as int) as usize,
                    limit_reached,
                    has_searched: true,
                    is_searching: false,
                    ..*old(self)
                })
            },
            final(self).wf(),
    {
        if self.search_generation != generation {
            return false;
        }
        self.total_matches = hits_in(results.as_slice());
        self.list.set_results(results);
        self.limit_reached = limit_reached;
        self.has_searched = true;
        self.is_searching = false;
        true
    }

    /// What the search looks for, where `open` are the paths of the open documents.
    pub fn project_query(&self, open: &[String]) -> (q: ProjectQuery)
        ensures
            q.find.text@ == self.inputs.query.text@,
            q.find.case_sensitive == self.options.case_sensitive,
            q.find.whole_word == self.options.whole_word,
            q.find.regex == self.options.regex,
            q.include_ignored == self.options.include_ignored,
            q.included@ == self.inputs.included.text@,
            q.excluded@ == self.inputs.excluded.text@,
            q.scope is Some <==> self.options.open_files_only,
            q.scope matches Some(v) ==> path_texts(v@) == with_path(path_texts(open@), open@.len() as int),
    {
        ProjectQuery {
            find: FindQuery {
                text: self.inputs.query.text.clone(),
                case_sensitive: self.options.case_sensitive,
                whole_word: self.options.whole_word,
                regex: self.options.regex,
            },
            include_ignored: self.options.include_ignored,
            included: self.inputs.included.text.clone(),
            excluded: self.inputs.excluded.text.clone(),
            scope: self.scope_paths(open),
        }
    }

    /// The file that more context is wanted of: that of the active row, or the first.
    pub open spec fn active_file(self) -> Option<usize> {
        let n = self.list.results@.len();
        let i = match self.active_row {
            Some(r) => if r < self.list.rows@.len() { SearchResults::file_of(self.list.rows@[r as int]) } else { 0 },
            None => 0,
        };
        if i < n { Some(i) } else { None }
    }

    /// The file that more context is wanted of.
    pub fn context_target(&self) -> (r: Option<usize>)
        ensures
            r == self.active_file(),
    {
        let mut i: usize = 0;
        if let Some(r) = self.active_row {
            if r < self.list.rows.len() {
                i = match self.list.rows[r] {
                    ResultRow::FileHeader { file_idx } => file_idx,
                    ResultRow::ExpandAbove { file_idx } => file_idx,
                    ResultRow::ContextLine { file_idx, .. } => file_idx,
                    ResultRow::Hit { file_idx, .. } => file_idx,
                    ResultRow::ExpandBelow { file_idx } => file_idx,
                };
            }
        }
        if i < self.list.results.len() { Some(i) } else { None }
    }

    /// Whether `after` is the view with more context around the matches of the active file, whose
    /// text is `content` where it could be read.
    pub open spec fn active_expanded(self, after: ProjectSearchView, content: Option<&str>) -> bool {
        match self.active_file() {
            None => after == self,
            Some(i) => {
                let loaded = SearchResults { file_contents: after.list.file_contents, ..self.list };
                &&& self.list.content_loaded(loaded, i as int, content)
                &&& loaded.context_expanded(after.list, i as int, true, true)
                &&& after == (ProjectSearchView { list: after.list, ..self })
            },
        }
    }

    /// Whether the lines of context of the active file can be counted on.
    pub open spec fn can_expand_active(self) -> bool {
        self.active_file() matches Some(i) ==> self.list.can_expand(i as int)
    }

    /// Shows more context around the matches of the active file, unless its lines can no longer
    /// be counted. `content` is its text, where it could be read. Says whether it did.
    pub fn try_expand_context_for_active(&mut self, content: Option<&str>) -> (shown: bool)
        requires
            old(self).wf(),
        ensures
            shown == old(self).can_expand_active(),
            !shown ==> *final(self) == *old(self),
            shown ==> old(self).active_expanded(*final(self), content),
            final(self).wf(),
    {
        if let Some(i) = self.context_target() {
            if !self.list.has_room(i) {
                return false;
            }
        }
        self.expand_context_for_active(content);
        true
    }

    /// Shows more context around the matches of the active file. `content` is its text, where it
    /// could be read.
    pub fn expand_context_for_active(&mut self, content: Option<&str>)
        requires
            old(self).wf(),
            old(self).can_expand_active(),
        ensures
            old(self).active_expanded(*final(self), content),
            final(self).wf(),
    {
        if let Some(i) = self.context_target() {
            self.list.load_file_content(i, content);
            self.list.expand_context(i, true, true);
        }
    }

    // ── Keys ──────────────────────────────────────────────────────────────────

    /// The input that the tabulator leads to.
    pub open spec fn next_input(self, a: ActiveInput) -> ActiveInput {
        match a {
            ActiveInput::Query => if self.filters_open { ActiveInput::Include } else { ActiveInput::Query },
            ActiveInput::Include => ActiveInput::Exclude,
            _ => ActiveInput::Query,
        }
    }

    /// The view with other inputs, and a search to be started.
    pub open spec fn retyped(self, inputs: SearchInputs) -> ProjectSearchView {
        ProjectSearchView { inputs, ..self.searching_anew() }
    }

    /// What a key that types does in an input.
    pub open spec fn typed(self, after: ProjectSearchView, a: ActiveInput, typed: Seq<char>, r: SearchKey) -> bool {
        &&& self.inputs.input(a).typed_into(after.inputs.input(a), typed)
        &&& after.inputs == self.inputs.with(a, after.inputs.input(a))
        &&& if a == ActiveInput::Replace {
            after == (ProjectSearchView { inputs: after.inputs, ..self }) && r == SearchKey::Edited
        } else {
            after == self.retyped(after.inputs) && r == SearchKey::Search
        }
    }

    /// What a key does in an input.
    pub open spec fn keyed(self, after: ProjectSearchView, a: ActiveInput, key: KeyPress, caps_lock: bool, r: SearchKey) -> bool {
        if key.key@ == "escape"@ {
            after == self && r == SearchKey::Leave
        } else if key.key@ == "enter"@ {
            if key.shift {
                after == self && r == SearchKey::ExpandContext
            } else if a == ActiveInput::Query {
                after == self.searching_anew() && r == SearchKey::Search
            } else {
                after == self && r == SearchKey::Nothing
            }
        } else if key.key@ == "tab"@ {
            after == self && r == (SearchKey::Focus { input: self.next_input(a) })
        } else if key.key@ == "backspace"@ && (key.platform || key.alt) {
            let changed = r == SearchKey::Search;
            &&& changed || r == SearchKey::Nothing
            &&& self.inputs.deleted(after.inputs, a, key.platform, changed)
            &&& after == if changed { self.retyped(after.inputs) } else { self }
        } else {
            match key.typed() {
                None => after == self && r == SearchKey::Nothing,
                Some(t) => self.typed(after, a, if caps_lock { keys::caps_locked(t) } else { t }, r),
            }
        }
    }

    /// A key is pressed in the input `focused`.
    pub fn on_key_down(&mut self, focused: Option<ActiveInput>, key: &KeyPress, caps_lock: bool) -> (r: SearchKey)
        requires
            old(self).wf(),
            old(self).search_generation < u64::MAX,
        ensures
            match focused {
                None => *final(self) == *old(self) && r == SearchKey::Nothing,
                Some(a) => old(self).keyed(*final(self), a, *key, caps_lock, r),
            },
            final(self).wf(),
    {
        let a: ActiveInput = match focused {
            Some(a) => a,
            None => return SearchKey::Nothing,
        };
        if key.is("escape") {
            return SearchKey::Leave;
        }
        if key.is("enter") {
            if key.shift {
                return SearchKey::ExpandContext;
            }
            if a == ActiveInput::Query {
                self.search_generation = self.search_generation + 1;
                return SearchKey::Search;
            }
            return SearchKey::Nothing;
        }
        if key.is("tab") {
            let input: ActiveInput = match a {
                ActiveInput::Query => if self.filters_open { ActiveInput::Include } else { ActiveInput::Query },
                ActiveInput::Include => ActiveInput::Exclude,
                _ => ActiveInput::Query,
            };
            return SearchKey::Focus { input };
        }
        if key.is("backspace") && (key.platform || key.alt) {
            if !self.inputs.delete(a, key.platform) {
                return SearchKey::Nothing;
            }
            self.search_generation = self.search_generation + 1;
            return SearchKey::Search;
        }
        match key.typed_text() {
            None => SearchKey::Nothing,
            Some(typed) => {
                let t: String = if caps_lock { swap_case(typed) } else { typed.to_owned() };
                self.inputs.insert(a, t.as_str());
                if a == ActiveInput::Replace {
                    return SearchKey::Edited;
                }
                self.search_generation = self.search_generation + 1;
                SearchKey::Search
            },
        }
    }

    /// The input that has the keyboard: the query where none has.
    pub open spec fn active(focused: Option<ActiveInput>) -> ActiveInput {
        match focused {
            Some(a) => a,
            None => ActiveInput::Query,
        }
    }

    /// Deletes the character before the caret of the active input. Says whether a search is to be
    /// started.
    pub fn on_ps_backspace(&mut self, focused: Option<ActiveInput>) -> (search: bool)
        requires
            old(self).wf(),
            old(self).search_generation < u64::MAX,
        ensures
            ({
                let a = Self::active(focused);
                &&& search == (old(self).inputs.input(a).cursor > 0)
                &&& old(self).inputs.input(a).backspaced(final(self).inputs.input(a))
                &&& final(self).inputs == old(self).inputs.with(a, final(self).inputs.input(a))
                &&& *final(self) == if search {
                    old(self).retyped(final(self).inputs)
                } else {
                    ProjectSearchView { inputs: final(self).inputs, ..*old(self) }
                }
            }),
            final(self).wf(),
    {
        let a: ActiveInput = match focused {
            Some(f) => f,
            None => ActiveInput::Query,
        };
        let changed: bool = self.inputs.backspace(a);
        if changed {
            self.search_generation = self.search_generation + 1;
        }
        changed
    }

    /// Moves the caret of the active input.
    pub fn on_ps_move(&mut self, focused: Option<ActiveInput>, to: CaretMove)
        requires
            old(self).wf(),
        ensures
            ({
                let a = Self::active(focused);
                let input = old(self).inputs.input(a);
                *final(self) == (ProjectSearchView {
                    inputs: old(self).inputs.with(a, input.caret_moved(to)),
                    ..*old(self)
                })
            }),
            final(self).wf(),
    {
        let a: ActiveInput = match focused {
            Some(f) => f,
            None => ActiveInput::Query,
        };
        self.inputs.move_in(a, to);
    }

    // ── Options ───────────────────────────────────────────────────────────────

    /// Switches one of the options. `from_tips` says that it was done before any search: nothing
    /// is searched then as long as there is no query. Says whether a search is to be started.
    pub fn toggle(&mut self, option: SearchOption, from_tips: bool) -> (search: bool)
        requires
            old(self).wf(),
            old(self).search_generation < u64::MAX,
        ensures
            search == (!from_tips || old(self).inputs.query.text@.len() > 0),
            *final(self) == (ProjectSearchView {
                options: old(self).options.flipped(option),
                ..if search { old(self).searching_anew() } else { *old(self) }
            }),
            final(self).wf(),
    {
        self.options.flip(option);
        if from_tips && self.inputs.query.text.as_str().is_empty() {
            return false;
        }
        self.search_generation = self.search_generation + 1;
        true
    }

    /// Shows or hides the row of filters.
    pub fn toggle_filters(&mut self)
        ensures
            *final(self) == (ProjectSearchView { filters_open: !old(self).filters_open, ..*old(self) }),
    {
        self.filters_open = !self.filters_open;
    }

    /// Shows or hides the replace row. Says whether its input is to have the keyboard.
    pub fn toggle_replace(&mut self) -> (focus: bool)
        ensures
            *final(self) == (ProjectSearchView { replace_open: !old(self).replace_open, ..*old(self) }),
            focus == !old(self).replace_open,
    {
        self.replace_open = !self.replace_open;
        self.replace_open
    }

    // ── Tips ──────────────────────────────────────────────────────────────────

    /// Whether what a tip is about is switched on.
    pub open spec fn tip_active(self, kind: TipKind) -> bool {
        match kind {
            TipKind::Case => self.options.case_sensitive,
            TipKind::Word => self.options.whole_word,
            TipKind::Regex => self.options.regex,
            TipKind::Filters => self.filters_open,
            TipKind::Replace => self.replace_open,
        }
    }

    /// How a tip is shown.
    pub open spec fn tip(self, kind: TipKind) -> Tip {
        let active = self.tip_active(kind);
        Tip {
            kind,
            active,
            color: if active { ColorRole::TextOnAccent } else { ColorRole::TextSubtle },
            background: if active { ColorRole::Accent } else { ColorRole::BgSunken },
        }
    }

    /// How a tip is shown.
    fn tip_about(&self, kind: TipKind) -> (t: Tip)
        ensures
            t == self.tip(kind),
    {
        let active: bool = match kind {
            TipKind::Case => self.options.case_sensitive,
            TipKind::Word => self.options.whole_word,
            TipKind::Regex => self.options.regex,
            TipKind::Filters => self.filters_open,
            TipKind::Replace => self.replace_open,
        };
        Tip {
            kind,
            active,
            color: if active { ColorRole::TextOnAccent } else { ColorRole::TextSubtle },
            background: if active { ColorRole::Accent } else { ColorRole::BgSunken },
        }
    }

    /// The tips that are shown before anything was searched for.
    pub fn tips(&self) -> (r: Vec<Tip>)
        ensures
            r@ == seq![
                self.tip(TipKind::Case),
                self.tip(TipKind::Word),
                self.tip(TipKind::Regex),
                self.tip(TipKind::Filters),
                self.tip(TipKind::Replace),
            ],
    {
        vec![
            self.tip_about(TipKind::Case),
            self.tip_about(TipKind::Word),
            self.tip_about(TipKind::Regex),
            self.tip_about(TipKind::Filters),
            self.tip_about(TipKind::Replace),
        ]
    }

    /// Follows a tip: switches what it is about.
    pub fn follow_tip(&mut self, kind: TipKind) -> (r: SearchKey)
        requires
            old(self).wf(),
            old(self).search_generation < u64::MAX,
        ensures
            final(self).wf(),
            final(self).tip_active(kind) == !old(self).tip_active(kind),
            ({
                let option = match kind {
                    TipKind::Case => Some(SearchOption::Case),
                    TipKind::Word => Some(SearchOption::Word),
                    TipKind::Regex => Some(SearchOption::Regex),
                    _ => None,
                };
                let search = option is Some && old(self).inputs.query.text@.len() > 0;
                &&& *final(self) == match option {
                    Some(o) => ProjectSearchView {
                        options: old(self).options.flipped(o),
                        ..if search { old(self).searching_anew() } else { *old(self) }
                    },
                    None => ProjectSearchView {
                        filters_open: old(self).filters_open != (kind == TipKind::Filters),
                        replace_open: old(self).replace_open != (kind == TipKind::Replace),
                        ..*old(self)
                    },
                }
                &&& r == if search {
                    SearchKey::Search
                } else if kind == TipKind::Replace && !old(self).replace_open {
                    SearchKey::Focus { input: ActiveInput::Replace }
                } else {
                    SearchKey::Edited
                }
            }),
    {
        let search: bool = match kind {
            TipKind::Case => self.toggle(SearchOption::Case, true),
            TipKind::Word => self.toggle(SearchOption::Word, true),
            TipKind::Regex => self.toggle(SearchOption::Regex, true),
            TipKind::Filters => {
                self.toggle_filters();
                false
            },
            TipKind::Replace => {
                if self.toggle_replace() {
                    return SearchKey::Focus { input: ActiveInput::Replace };
                }
                false
            },
        };
        if search { SearchKey::Search } else { SearchKey::Edited }
    }

    // ── Replacing ─────────────────────────────────────────────────────────────

    /// Whether replacing everything does anything: there are results, and something to put in
    /// their place.
    pub fn can_replace_all(&self) -> (b: bool)
        ensures
            b == (self.list.results@.len() > 0 && self.inputs.replace.text@.len() > 0),
    {
        self.list.results.len() > 0 && !self.inputs.replace.text.as_str().is_empty()
    }

    /// The line whose matches are replaced alone: that of the active row; for the header of a
    /// file, its first.
    pub open spec fn single_target(self) -> Option<(usize, usize)> {
        let row = match self.active_row {
            Some(r) => if r < self.list.rows@.len() { Some(self.list.rows@[r as int]) } else { None },
            None => None,
        };
        let target = match row {
            Some(ResultRow::Hit { file_idx, hit_idx }) => Some((file_idx, hit_idx)),
            Some(ResultRow::FileHeader { file_idx }) => Some((file_idx, 0usize)),
            _ => None,
        };
        match target {
            Some((f, h)) => if f < self.list.results@.len() && h < self.list.results@[f as int].hits@.len() {
                target
            } else {
                None
            },
            None => None,
        }
    }

    /// The line whose matches are replaced alone: its file, and which of its lines it is.
    pub fn replace_one_target(&self) -> (r: Option<(usize, usize)>)
        ensures
            r == self.single_target(),
    {
        let row: usize = match self.active_row {
            Some(r) => r,
            None => return None,
        };
        if row >= self.list.rows.len() {
            return None;
        }
        let (file, hit): (usize, usize) = match self.list.rows[row] {
            ResultRow::Hit { file_idx, hit_idx } => (file_idx, hit_idx),
            ResultRow::FileHeader { file_idx } => (file_idx, 0),
            _ => return None,
        };
        if file < self.list.results.len() && hit < self.list.results[file].hits.len() {
            Some((file, hit))
        } else {
            None
        }
    }

    /// Takes note that matches were replaced: a search is to be started, and what an earlier one
    /// still finds is dropped.
    pub fn replaced(&mut self)
        requires
            old(self).wf(),
            old(self).search_generation < u64::MAX,
        ensures
            *final(self) == old(self).searching_anew(),
            final(self).wf(),
    {
        self.search_generation = self.search_generation + 1;
    }

    // ── What is shown ─────────────────────────────────────────────────────────

    /// What the toolbar says of the results.
    pub open spec fn info(self) -> ProjectSearchInfo {
        if self.is_searching {
            ProjectSearchInfo::Searching
        } else if self.has_searched && self.inputs.query.text@.len() > 0 {
            if self.total_matches == 0 {
                ProjectSearchInfo::NoResults
            } else if self.limit_reached {
                ProjectSearchInfo::LimitReached { matches: self.total_matches }
            } else {
                ProjectSearchInfo::Counts { matches: self.total_matches, files: self.list.results@.len() as usize }
            }
        } else {
            ProjectSearchInfo::Blank
        }
    }

    /// What the toolbar says of the results.
    pub fn match_info(&self) -> (i: ProjectSearchInfo)
        ensures
            i == self.info(),
    {
        if self.is_searching {
            ProjectSearchInfo::Searching
        } else if self.has_searched && !self.inputs.query.text.as_str().is_empty() {
            if self.total_matches == 0 {
                ProjectSearchInfo::NoResults
            } else if self.limit_reached {
                ProjectSearchInfo::LimitReached { matches: self.total_matches }
            } else {
                ProjectSearchInfo::Counts { matches: self.total_matches, files: self.list.results.len() }
            }
        } else {
            ProjectSearchInfo::Blank
        }
    }

    /// What is shown below the toolbar.
    pub open spec fn body(self) -> SearchBody {
        if self.list.rows@.len() > 0 {
            SearchBody::Results
        } else if self.is_searching {
            SearchBody::Searching
        } else if self.has_searched {
            SearchBody::NoResults
        } else {
            SearchBody::Tips
        }
    }

    /// What is shown below the toolbar.
    pub fn body_state(&self) -> (b: SearchBody)
        ensures
            b == self.body(),
    {
        if self.list.rows.len() > 0 {
            SearchBody::Results
        } else if self.is_searching {
            SearchBody::Searching
        } else if self.has_searched {
            SearchBody::NoResults
        } else {
            SearchBody::Tips
        }
    }
}

/// What the rows above the results show.
#[derive(Debug)]
pub struct ToolbarView {
    pub query: InputView,
    /// The replace row, where it is shown.
    pub replace: Option<InputView>,
    /// The filters, where they are shown.
    pub filters: Option<(InputView, InputView)>,
    pub options: SearchOptions,
    pub info: ProjectSearchInfo,
    /// Whether the results can be folded, and replaced.
    pub has_results: bool,
    /// Whether folding shows the matches of all files again.
    pub unfolds: bool,
}

impl ProjectSearchView {
    /// What the rows above the results show while `focused` has the keyboard.
    pub fn toolbar(&self, focused: Option<ActiveInput>, blink_on: bool) -> (v: ToolbarView)
        requires
            self.wf(),
        ensures
            self.inputs.query.showing(v.query, focused == Some(ActiveInput::Query), blink_on),
            v.replace is Some <==> self.replace_open,
            v.replace matches Some(r) ==> self.inputs.replace.showing(r, focused == Some(ActiveInput::Replace), blink_on),
            v.filters is Some <==> self.filters_open,
            v.filters matches Some(f) ==> {
                &&& self.inputs.included.showing(f.0, focused == Some(ActiveInput::Include), blink_on)
                &&& self.inputs.excluded.showing(f.1, focused == Some(ActiveInput::Exclude), blink_on)
            },
            v.options == self.options,
            v.info == self.info(),
            v.has_results == (self.list.results@.len() > 0),
            v.unfolds == (v.has_results && self.list.collapsed_up_to(self.list.results@.len() as int)),
    {
        let (q, r, i, e): (bool, bool, bool, bool) = match focused {
            Some(ActiveInput::Query) => (true, false, false, false),
            Some(ActiveInput::Replace) => (false, true, false, false),
            Some(ActiveInput::Include) => (false, false, true, false),
            Some(ActiveInput::Exclude) => (false, false, false, true),
            None => (false, false, false, false),
        };
        ToolbarView {
            query: self.inputs.query.shown(q, blink_on),
            replace: if self.replace_open { Some(self.inputs.replace.shown(r, blink_on)) } else { None },
            filters: if self.filters_open {
                Some((self.inputs.included.shown(i, blink_on), self.inputs.excluded.shown(e, blink_on)))
            } else {
                None
            },
            options: self.options,
            info: self.match_info(),
            has_results: self.list.results.len() > 0,
            unfolds: self.list.all_collapsed(),
        }
    }
}

impl ProjectSearchInfo {
    /// The text that the toolbar says it with. `searching`, `no_results` and `limit` are the
    /// messages for these states.
    pub fn label(&self, searching: &str, no_results: &str, limit: &str) -> (s: String)
        ensures
            s@ == match *self {
                ProjectSearchInfo::Blank => Seq::empty(),
                ProjectSearchInfo::Searching => searching@,
                ProjectSearchInfo::NoResults => no_results@,
                ProjectSearchInfo::LimitReached { .. } => limit@,
                ProjectSearchInfo::Counts { matches, files } => search::match_label(matches as int, files as int),
            },
    {
        match self {
            ProjectSearchInfo::Blank => String::new(),
            ProjectSearchInfo::Searching => searching.to_owned(),
            ProjectSearchInfo::NoResults => no_results.to_owned(),
            ProjectSearchInfo::LimitReached { .. } => limit.to_owned(),
            ProjectSearchInfo::Counts { matches, files } => {
                let mut s: String = String::new();
                push_decimal(&mut s, *matches as u64);
                push_char(&mut s, '/');
                push_decimal(&mut s, *files as u64);
                assert(s@ =~= search::match_label(*matches as int, *files as int));
                s
            },
        }
    }
}

} // verus!
