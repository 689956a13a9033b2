//! The completion menu: what it lists as one types, and what accepting an entry does.
use ropey::Rope;
use vstd::prelude::*;

use crate::buffer_view::ColorRole;
use crate::completion_logic;
use crate::completion_logic::{
    compute_word_prefix, fuzzy_filter, is_word_char, resolve_empty_filter, EmptyFilterAction, FuzzyMatch, LspPosition,
    ParsedCompletion,
};
use crate::cycle;
use crate::cycle::{next_ix, prev_ix};
use crate::document::Change;
use crate::editing::EditBuffer;
use crate::markdown::{copy_text, SyntaxToken};
use crate::rope;
use crate::rope::{rope_len, rope_line_of, rope_slice};
use crate::text::{chars_of, same_text};

verus! {

/// The completion menu of an editor.
#[derive(Debug)]
pub struct CompletionMenu {
    pub items: Vec<ParsedCompletion>,
    /// The items that the query matches, best first.
    pub filtered: Vec<usize>,
    /// The selected one among `filtered`.
    pub selected_ix: usize,
    /// Where the word that is completed starts.
    pub word_start: usize,
    pub query: String,
    /// The query that the items were requested for.
    pub initial_query: String,
    pub is_incomplete: bool,
    /// The documentation that the server gave for the selected item.
    pub doc_text: Option<String>,
}

/// What stands in `s` from `word_start` to the caret at `head`, as far as the text goes.
pub open spec fn word_to_caret(s: Seq<char>, word_start: int, head: int) -> Seq<char> {
    s.subrange(word_start, if head < s.len() { head } else { s.len() as int })
}

/// What stands in a text from `word_start` to the caret at `head`, as far as the text goes.
fn query_at(rope: &Rope, word_start: usize, head: usize) -> (q: String)
    requires
        word_start <= head,
        word_start <= rope::rope_chars(*rope).len(),
    ensures
        q@ == word_to_caret(rope::rope_chars(*rope), word_start as int, head as int),
{
    let len: usize = rope_len(rope);
    rope_slice(rope, word_start, if head < len { head } else { len })
}

/// Whether `ix` are the items that a query matches, best first.
pub open spec fn lists(items: Seq<ParsedCompletion>, query: Seq<char>, ix: Seq<usize>) -> bool {
    exists|r: Seq<FuzzyMatch>|
        #[trigger] completion_logic::ranked(items, query, r) && ix == Seq::new(r.len(), |i: int| r[i].item_ix)
}

/// The items that a query matches, best first.
fn matching(items: &[ParsedCompletion], query: &str) -> (ix: Vec<usize>)
    ensures
        lists(items@, query@, ix@),
{
    let found: Vec<FuzzyMatch> = fuzzy_filter(items, query);
    let mut ix: Vec<usize> = Vec::new();
    let mut i: usize = 0;
    while i < found.len()
        invariant
            i <= found@.len(),
            ix@ == Seq::new(i as nat, |k: int| found@[k].item_ix),
        decreases found@.len() - i,
    {
        ix.push(found[i].item_ix);
        i = i + 1;
        assert(ix@ =~= Seq::new(i as nat, |k: int| found@[k].item_ix));
    }
    ix
}

/// What a query lists are places in the list of items.
pub proof fn listed_in_range(items: Seq<ParsedCompletion>, query: Seq<char>, ix: Seq<usize>)
    requires
        lists(items, query, ix),
    ensures
        forall|k: int| 0 <= k < ix.len() ==> #[trigger] ix[k] < items.len(),
{
    let r = choose|r: Seq<FuzzyMatch>|
        #[trigger] completion_logic::ranked(items, query, r) && ix == Seq::new(r.len(), |i: int| r[i].item_ix);
    assert forall|k: int| 0 <= k < ix.len() implies #[trigger] ix[k] < items.len() by {
        assert(r[k].item_ix == ix[k]);
    }
}

/// The first entry of `ix` from `from` on that has the label `label`; the number of entries where
/// none has.
pub open spec fn label_position(items: Seq<ParsedCompletion>, ix: Seq<usize>, label: Seq<char>, from: int) -> int
    decreases ix.len() - from,
{
    if from >= ix.len() || items[ix[from] as int].label@ == label {
        from
    } else {
        label_position(items, ix, label, from + 1)
    }
}

/// The documentation of an item, or its detail.
pub open spec fn item_doc(item: ParsedCompletion) -> Option<Seq<char>> {
    match (item.documentation, item.detail) {
        (Some(d), _) => Some(d@),
        (None, Some(d)) => Some(d@),
        (None, None) => None,
    }
}

impl CompletionMenu {
    /// Whether what is listed is among the items, and one of the listed is selected.
    pub open spec fn wf(self) -> bool {
        &&& forall|k: int| 0 <= k < self.filtered@.len() ==> #[trigger] self.filtered@[k] < self.items@.len()
        &&& self.selected_ix < self.filtered@.len() || (self.filtered@.len() == 0 && self.selected_ix == 0)
    }

    /// The selected item.
    pub open spec fn selected(self) -> Option<ParsedCompletion> {
        if self.selected_ix < self.filtered@.len() {
            Some(self.items@[self.filtered@[self.selected_ix as int] as int])
        } else {
            None
        }
    }

    /// The selected item.
    pub fn selected_item(&self) -> (r: Option<&ParsedCompletion>)
        requires
            self.wf(),
        ensures
            self.selected() == match r {
                Some(item) => Some(*item),
                None => None,
            },
    {
        if self.selected_ix < self.filtered.len() {
            Some(&self.items[self.filtered[self.selected_ix]])
        } else {
            None
        }
    }

    /// A menu that waits for the answer to a request.
    pub fn requested(word_start: usize, query: String) -> (m: CompletionMenu)
        ensures
            m.items@.len() == 0,
            m.filtered@.len() == 0,
            m.selected_ix == 0,
            m.word_start == word_start,
            m.query@ == query@,
            m.initial_query@ == query@,
            !m.is_incomplete,
            m.doc_text is None,
            m.wf(),
    {
        CompletionMenu {
            items: Vec::new(),
            filtered: Vec::new(),
            selected_ix: 0,
            word_start,
            query: query.clone(),
            initial_query: query,
            is_incomplete: false,
            doc_text: None,
        }
    }

    /// Selects the next entry, round from the last to the first.
    pub fn select_next(&mut self)
        requires
            old(self).wf(),
        ensures
            old(self).filtered@.len() == 0 ==> *final(self) == *old(self),
            old(self).filtered@.len() > 0 ==> {
                &&& final(self).selected_ix == cycle::next(old(self).filtered@.len() as int, old(self).selected_ix as int)
                &&& *final(self) == (CompletionMenu { selected_ix: final(self).selected_ix, ..*old(self) })
            },
            final(self).wf(),
    {
        if self.filtered.len() > 0 {
            self.selected_ix = next_ix(self.filtered.len(), self.selected_ix);
        }
    }

    /// Selects the previous entry, round from the first to the last.
    pub fn select_prev(&mut self)
        requires
            old(self).wf(),
        ensures
            old(self).filtered@.len() == 0 ==> *final(self) == *old(self),
            old(self).filtered@.len() > 0 ==> {
                &&& final(self).selected_ix == cycle::prev(old(self).filtered@.len() as int, old(self).selected_ix as int)
                &&& *final(self) == (CompletionMenu { selected_ix: final(self).selected_ix, ..*old(self) })
            },
            final(self).wf(),
    {
        if self.filtered.len() > 0 {
            self.selected_ix = prev_ix(self.filtered.len(), self.selected_ix);
        }
    }

    /// Selects the first entry.
    pub fn select_first(&mut self)
        requires
            old(self).wf(),
        ensures
            *final(self) == (CompletionMenu { selected_ix: 0, ..*old(self) }),
            final(self).wf(),
    {
        self.selected_ix = 0;
    }

    /// Selects the last entry.
    pub fn select_last(&mut self)
        requires
            old(self).wf(),
        ensures
            old(self).filtered@.len() == 0 ==> *final(self) == *old(self),
            old(self).filtered@.len() > 0 ==> *final(self) == (CompletionMenu {
                selected_ix: (old(self).filtered@.len() - 1) as usize,
                ..*old(self)
            }),
            final(self).wf(),
    {
        if self.filtered.len() > 0 {
            self.selected_ix = self.filtered.len() - 1;
        }
    }

    /// Selects the entry that was clicked.
    pub fn select(&mut self, list_ix: usize)
        requires
            old(self).wf(),
            list_ix < old(self).filtered@.len(),
        ensures
            *final(self) == (CompletionMenu { selected_ix: list_ix, ..*old(self) }),
            final(self).wf(),
    {
        self.selected_ix = list_ix;
    }
}

// ── Answers of the server ─────────────────────────────────────────────────────

/// What the answer to a request for completions leads to.
#[derive(Debug)]
pub enum Answer {
    /// The caret has left the word: the answer comes too late.
    Stale,
    /// The answer fits nothing; what the menu lists already stays.
    Kept,
    /// The menu is closed.
    Dismissed,
    /// The server is to be asked again, for the query as it is now.
    Rerequest { query: String },
    /// The menu lists the answer. `doc` is the documentation of the selected entry.
    Shown { doc: Option<String> },
}

/// The entry that is selected in a new list: the first with the label of the one that was
/// selected before, or the first of all.
pub open spec fn kept_selection(before: Option<CompletionMenu>, items: Seq<ParsedCompletion>, ix: Seq<usize>) -> int {
    match before {
        Some(m) => match m.selected() {
            Some(item) => {
                let p = label_position(items, ix, item.label@, 0);
                if p < ix.len() { p } else { 0 }
            },
            None => 0,
        },
        None => 0,
    }
}

/// How an answer changes the menu. `s` is the text, `word_start` where the word started when the
/// completion was requested, for `initial`.
pub open spec fn answered(
    before: Option<CompletionMenu>,
    after: Option<CompletionMenu>,
    s: Seq<char>,
    head: int,
    word_start: int,
    initial: Seq<char>,
    items: Seq<ParsedCompletion>,
    is_incomplete: bool,
    r: Answer,
) -> bool {
    let query = word_to_caret(s, word_start, head);
    if head < word_start {
        after == before && r is Stale
    } else if lists(items, query, Seq::empty()) {
        if before matches Some(m) && m.filtered@.len() > 0 {
            after == Some(CompletionMenu { is_incomplete: false, ..before->0 }) && r is Kept
        } else if query == initial {
            after is None && r is Dismissed
        } else {
            after == before && (r matches Answer::Rerequest { query: q } && q@ == query)
        }
    } else {
        &&& after matches Some(m)
        &&& m.items@ == items
        &&& lists(items, query, m.filtered@)
        &&& m.selected_ix == kept_selection(before, items, m.filtered@)
        &&& m.word_start == word_start
        &&& m.query@ == query
        &&& m.initial_query@ == initial
        &&& m.is_incomplete == is_incomplete
        &&& m.doc_text is None
        &&& r matches Answer::Shown { doc }
        &&& m.selected() matches Some(item)
        &&& item_doc(item) == match doc {
            Some(d) => Some(d@),
            None => None,
        }
    }
}

/// Two lists of what a query matches are the same list: deleting what was typed lists again what
/// was listed before.
pub proof fn listing_is_unique(items: Seq<ParsedCompletion>, query: Seq<char>, a: Seq<usize>, b: Seq<usize>)
    requires
        lists(items, query, a),
        lists(items, query, b),
    ensures
        a == b,
{
    let ra = choose|r: Seq<FuzzyMatch>|
        #[trigger] completion_logic::ranked(items, query, r) && a == Seq::new(r.len(), |i: int| r[i].item_ix);
    let rb = choose|r: Seq<FuzzyMatch>|
        #[trigger] completion_logic::ranked(items, query, r) && b == Seq::new(r.len(), |i: int| r[i].item_ix);
    completion_logic::ranking_is_unique(items, query, ra, rb);
    assert forall|i: int| 0 <= i < a.len() implies a[i] == b[i] by {
        assert(ra[i].item_ix == rb[i].item_ix);
    }
    assert(a =~= b);
}

/// The first entry that has the label `label`.
fn find_label(items: &[ParsedCompletion], ix: &[usize], label: &str) -> (p: usize)
    requires
        forall|k: int| 0 <= k < ix@.len() ==> #[trigger] ix@[k] < items@.len(),
    ensures
        p == label_position(items@, ix@, label@, 0),
        p <= ix@.len(),
{
    let mut p: usize = 0;
    while p < ix.len()
        invariant
            p <= ix@.len(),
            forall|k: int| 0 <= k < ix@.len() ==> #[trigger] ix@[k] < items@.len(),
            label_position(items@, ix@, label@, 0) == label_position(items@, ix@, label@, p as int),
        decreases ix@.len() - p,
    {
        if same_text(items[ix[p]].label.as_str(), label) {
            return p;
        }
        p = p + 1;
    }
    p
}

/// The documentation of an item, or its detail.
fn doc_of(item: &ParsedCompletion) -> (r: Option<String>)
    ensures
        item_doc(*item) == match r {
            Some(d) => Some(d@),
            None => None,
        },
{
    match &item.documentation {
        Some(d) => Some(d.clone()),
        None => copy_text(&item.detail),
    }
}

/// Takes over the answer to a request for completions of the word at `word_start`, which was
/// requested for `initial_query`. The caret is at `head` now.
pub fn on_answer(
    menu: &mut Option<CompletionMenu>,
    rope: &Rope,
    head: usize,
    word_start: usize,
    initial_query: String,
    items: Vec<ParsedCompletion>,
    is_incomplete: bool,
) -> (r: Answer)
    requires
        word_start <= head ==> word_start <= rope::rope_chars(*rope).len(),
        *old(menu) matches Some(m) ==> m.wf(),
    ensures
        answered(
            *old(menu),
            *final(menu),
            rope::rope_chars(*rope),
            head as int,
            word_start as int,
            initial_query@,
            items@,
            is_incomplete,
            r,
        ),
        *final(menu) matches Some(m) ==> m.wf(),
{
    if head < word_start {
        return Answer::Stale;
    }
    let query: String = query_at(rope, word_start, head);
    let filtered: Vec<usize> = matching(items.as_slice(), query.as_str());
    proof {
        listed_in_range(items@, query@, filtered@);
        if lists(items@, query@, Seq::empty()) {
            listing_is_unique(items@, query@, Seq::empty(), filtered@);
        }
    }
    if filtered.len() == 0 {
        assert(filtered@ =~= Seq::empty());
        if let Some(m) = menu {
            if m.filtered.len() > 0 {
                m.is_incomplete = false;
                return Answer::Kept;
            }
        }
        return match resolve_empty_filter(is_incomplete, initial_query.as_str(), query.as_str()) {
            EmptyFilterAction::Dismiss => {
                *menu = None;
                Answer::Dismissed
            },
            EmptyFilterAction::Rerequest => Answer::Rerequest { query },
        };
    }
    let selected_ix: usize = match &*menu {
        Some(m) => match m.selected_item() {
            Some(item) => {
                let p: usize = find_label(items.as_slice(), filtered.as_slice(), item.label.as_str());
                if p < filtered.len() { p } else { 0 }
            },
            None => 0,
        },
        None => 0,
    };
    let doc: Option<String> = doc_of(&items[filtered[selected_ix]]);
    *menu = Some(
        CompletionMenu {
            items,
            filtered,
            selected_ix,
            word_start,
            query,
            initial_query,
            is_incomplete,
            doc_text: None,
        },
    );
    Answer::Shown { doc }
}

// ── Typing ────────────────────────────────────────────────────────────────────

/// Whether every character of `s` can stand in an identifier.
pub open spec fn all_word(s: Seq<char>) -> bool {
    forall|i: int| 0 <= i < s.len() ==> completion_logic::word_char(#[trigger] s[i])
}

/// Whether every character of `s` can stand in an identifier.
fn is_all_word(s: &str) -> (b: bool)
    ensures
        b == all_word(s@),
{
    let chars: Vec<char> = chars_of(s);
    let mut i: usize = 0;
    while i < chars.len()
        invariant
            i <= chars@.len(),
            chars@ == s@,
            forall|k: int| 0 <= k < i ==> completion_logic::word_char(#[trigger] s@[k]),
        decreases chars@.len() - i,
    {
        if !is_word_char(chars[i]) {
            assert(!completion_logic::word_char(s@[i as int]));
            return false;
        }
        i = i + 1;
    }
    true
}

/// How the menu follows the caret after an edit: it goes where the caret has left the word, and
/// otherwise lists what the word matches now. A menu that lists nothing stays, and lists again
/// what the word matches once some of it is deleted.
pub open spec fn refreshed(before: CompletionMenu, after: Option<CompletionMenu>, s: Seq<char>, head: int) -> bool {
    let query = word_to_caret(s, before.word_start as int, head);
    if head < before.word_start || !all_word(query) {
        after is None
    } else {
        &&& after matches Some(m)
        &&& m.query@ == query
        &&& lists(before.items@, query, m.filtered@)
        &&& m.selected_ix == if m.filtered@.len() == 0 {
            0
        } else if before.selected_ix < m.filtered@.len() {
            before.selected_ix as int
        } else {
            m.filtered@.len() - 1
        }
        &&& m == (CompletionMenu {
            query: m.query,
            filtered: m.filtered,
            selected_ix: m.selected_ix,
            ..before
        })
    }
}

/// Lets the menu follow the caret after an edit.
pub fn refresh_completion_filter_or_dismiss(menu: &mut Option<CompletionMenu>, rope: &Rope, head: usize)
    requires
        *old(menu) matches Some(m) ==> m.wf() && (m.word_start <= head ==> m.word_start <= rope::rope_chars(
            *rope,
        ).len()),
    ensures
        *old(menu) is None ==> *final(menu) is None,
        *old(menu) matches Some(m) ==> refreshed(m, *final(menu), rope::rope_chars(*rope), head as int),
        *final(menu) matches Some(m) ==> m.wf(),
{
    let taken: Option<CompletionMenu> = menu.take();
    if let Some(mut m) = taken {
        let word_start: usize = m.word_start;
        if head < word_start {
            return;
        }
        let query: String = query_at(rope, word_start, head);
        if !is_all_word(query.as_str()) {
            return;
        }
        let filtered: Vec<usize> = matching(m.items.as_slice(), query.as_str());
        proof {
            listed_in_range(m.items@, query@, filtered@);
        }
        if filtered.len() == 0 {
            m.selected_ix = 0;
        } else if m.selected_ix >= filtered.len() {
            m.selected_ix = filtered.len() - 1;
        }
        m.query = query;
        m.filtered = filtered;
        *menu = Some(m);
    }
}

/// Typing on and deleting again leads back to the list that one started from, even where nothing
/// was listed in between.
pub proof fn delete_back_restores(
    a: CompletionMenu,
    b: CompletionMenu,
    c: CompletionMenu,
    longer: Seq<char>,
    longer_head: int,
    s: Seq<char>,
    head: int,
)
    requires
        lists(a.items@, a.query@, a.filtered@),
        refreshed(a, Some(b), longer, longer_head),
        refreshed(b, Some(c), s, head),
        word_to_caret(s, a.word_start as int, head) == a.query@,
    ensures
        c.items == a.items,
        c.query@ == a.query@,
        c.filtered@ == a.filtered@,
{
    listing_is_unique(a.items@, a.query@, a.filtered@, c.filtered@);
}

/// What typing leads to.
#[derive(Debug)]
pub enum InputStep {
    Nothing,
    Dismissed,
    /// Completions are to be requested for the word at `word_start`, as far as it is `query`.
    Request { word_start: usize, query: String, trigger_char: Option<String> },
}

/// Whether `typed` is one of the texts that trigger completion.
pub open spec fn triggers(trigger_chars: Seq<String>, typed: Seq<char>) -> bool {
    exists|i: int| 0 <= i < trigger_chars.len() && (#[trigger] trigger_chars[i])@ == typed
}

/// What typing `typed` leads to, with the caret behind it at `head`.
pub open spec fn input_step(
    before: Option<CompletionMenu>,
    after: Option<CompletionMenu>,
    s: Seq<char>,
    head: int,
    typed: Seq<char>,
    trigger_chars: Seq<String>,
    r: InputStep,
) -> bool {
    if triggers(trigger_chars, typed) {
        &&& after == before
        &&& r matches InputStep::Request { word_start, query, trigger_char: Some(ch) }
        &&& word_start == head
        &&& query@.len() == 0
        &&& ch@ == typed
    } else if !all_word(typed) || head == 0 || !completion_logic::word_char(s[head - 1]) {
        after is None && r == if before is Some { InputStep::Dismissed } else { InputStep::Nothing }
    } else if before matches Some(m) && (!m.is_incomplete || m.items@.len() > 0) {
        after == before && r is Nothing
    } else {
        &&& after == before
        &&& r matches InputStep::Request { word_start, query, trigger_char: None }
        &&& completion_logic::prefix_starts(s, head, word_start as int)
        &&& word_start < head
        &&& query@ == s.subrange(word_start as int, head)
    }
}

/// What typing `typed` leads to. The items that the menu has are not requested again.
pub fn schedule_completion_on_input(
    menu: &mut Option<CompletionMenu>,
    rope: &Rope,
    head: usize,
    typed: &str,
    trigger_chars: &[String],
) -> (r: InputStep)
    requires
        head <= rope::rope_chars(*rope).len(),
    ensures
        input_step(
            *old(menu),
            *final(menu),
            rope::rope_chars(*rope),
            head as int,
            typed@,
            trigger_chars@,
            r,
        ),
{
    let mut i: usize = 0;
    while i < trigger_chars.len()
        invariant
            i <= trigger_chars@.len(),
            *menu == *old(menu),
            head <= rope::rope_chars(*rope).len(),
            forall|k: int| 0 <= k < i ==> (#[trigger] trigger_chars@[k])@ != typed@,
        decreases trigger_chars@.len() - i,
    {
        if same_text(trigger_chars[i].as_str(), typed) {
            assert(trigger_chars@[i as int]@ == typed@);
            return InputStep::Request {
                word_start: head,
                query: String::new(),
                trigger_char: Some(typed.to_owned()),
            };
        }
        i = i + 1;
    }
    if !is_all_word(typed) {
        return dismiss_step(menu);
    }
    match compute_word_prefix(rope, head) {
        None => dismiss_step(menu),
        Some((word_start, query)) => {
            if let Some(m) = &*menu {
                if !m.is_incomplete || m.items.len() > 0 {
                    return InputStep::Nothing;
                }
            }
            InputStep::Request { word_start, query, trigger_char: None }
        },
    }
}

/// Closes the menu.
fn dismiss_step(menu: &mut Option<CompletionMenu>) -> (r: InputStep)
    ensures
        *final(menu) is None,
        r == if *old(menu) is Some { InputStep::Dismissed } else { InputStep::Nothing },
{
    let open: bool = menu.is_some();
    *menu = None;
    if open { InputStep::Dismissed } else { InputStep::Nothing }
}

/// The word that completion is asked for by hand: the one before the caret, or an empty one.
pub open spec fn asked_word(s: Seq<char>, head: int, word_start: int, query: Seq<char>) -> bool {
    if head == 0 || !completion_logic::word_char(s[head - 1]) {
        word_start == head && query.len() == 0
    } else {
        &&& completion_logic::prefix_starts(s, head, word_start)
        &&& word_start < head
        &&& query == s.subrange(word_start, head)
    }
}

/// The word that completion is asked for by hand.
pub fn do_show_completions(rope: &Rope, head: usize) -> (r: (usize, String))
    requires
        head <= rope::rope_chars(*rope).len(),
    ensures
        asked_word(rope::rope_chars(*rope), head as int, r.0 as int, r.1@),
{
    match compute_word_prefix(rope, head) {
        Some(p) => p,
        None => (head, String::new()),
    }
}

/// What completion is requested for after a backspace: the word before the caret, where there is
/// one and no menu is open.
pub open spec fn reopens(menu: Option<CompletionMenu>, s: Seq<char>, head: int, r: InputStep) -> bool {
    if menu is Some || head == 0 || !completion_logic::word_char(s[head - 1]) {
        r is Nothing
    } else {
        &&& r matches InputStep::Request { word_start, query, trigger_char: None }
        &&& asked_word(s, head, word_start as int, query@)
    }
}

/// The word that completion is requested for after a backspace, where no menu is open.
pub fn after_backspace(menu: &Option<CompletionMenu>, rope: &Rope, head: usize) -> (r: InputStep)
    requires
        head <= rope::rope_chars(*rope).len(),
    ensures
        reopens(*menu, rope::rope_chars(*rope), head as int, r),
{
    if menu.is_some() {
        return InputStep::Nothing;
    }
    match compute_word_prefix(rope, head) {
        Some((word_start, query)) => InputStep::Request { word_start, query, trigger_char: None },
        None => InputStep::Nothing,
    }
}

// ── Accepting ─────────────────────────────────────────────────────────────────

/// A completion that was accepted.
#[derive(Debug)]
pub struct Accepted {
    pub word_start: usize,
    /// What the server wants replaced; without it, the word is.
    pub edit: Option<(LspPosition, LspPosition)>,
    pub text: String,
    /// Whether the text has placeholders, which are to be taken out.
    pub is_snippet: bool,
}

/// The text that an item stands for.
pub open spec fn item_text(item: ParsedCompletion) -> Seq<char> {
    match (item.text_edit, item.insert_text) {
        (Some(e), _) => e.new_text@,
        (None, Some(t)) => t@,
        (None, None) => item.label@,
    }
}

/// Closes the menu and gives the selected item, if there is one.
pub fn take_accepted(menu: &mut Option<CompletionMenu>) -> (r: Option<Accepted>)
    requires
        *old(menu) matches Some(m) ==> m.wf(),
    ensures
        *final(menu) is None,
        r is Some <==> (*old(menu) is Some && old(menu)->0.selected() is Some),
        r matches Some(a) ==> {
            let item = old(menu)->0.selected()->0;
            &&& a.word_start == old(menu)->0.word_start
            &&& a.edit == match item.text_edit {
                Some(e) => Some((e.start, e.end)),
                None => None,
            }
            &&& a.text@ == item_text(item)
            &&& a.is_snippet == item.is_snippet
        },
{
    let taken: Option<CompletionMenu> = menu.take();
    match &taken {
        None => None,
        Some(m) => match m.selected_item() {
            None => None,
            Some(item) => {
                let edit: Option<(LspPosition, LspPosition)> = match &item.text_edit {
                    Some(e) => Some((e.start, e.end)),
                    None => None,
                };
                let text: String = match &item.text_edit {
                    Some(e) => e.new_text.clone(),
                    None => match &item.insert_text {
                        Some(t) => t.clone(),
                        None => item.label.clone(),
                    },
                };
                Some(Accepted { word_start: m.word_start, edit, text, is_snippet: item.is_snippet })
            },
        },
    }
}

impl Accepted {
    /// What the completion replaces: the range that the server asked for, which starts and ends
    /// at `start` and `end` in the text where these positions exist, or the word up to the caret.
    pub open spec fn extent(self, head: usize, start: Option<usize>, end: Option<usize>) -> (usize, usize) {
        if self.edit is Some {
            (
                match start {
                    Some(p) => p,
                    None => self.word_start,
                },
                match end {
                    Some(p) => p,
                    None => head,
                },
            )
        } else {
            (self.word_start, head)
        }
    }

    /// What the completion replaces.
    pub fn range(&self, head: usize, start: Option<usize>, end: Option<usize>) -> (r: (usize, usize))
        ensures
            r == self.extent(head, start, end),
    {
        if self.edit.is_some() {
            (
                match start {
                    Some(p) => p,
                    None => self.word_start,
                },
                match end {
                    Some(p) => p,
                    None => head,
                },
            )
        } else {
            (self.word_start, head)
        }
    }

    /// Puts the completion into the text. `text` is its text without placeholders. The caret ends
    /// up behind it.
    pub fn insert(&self, buf: &mut EditBuffer, start: Option<usize>, end: Option<usize>, text: &str) -> (inverse: Change)
        requires
            old(buf).wf(),
            self.extent(old(buf).sel.head, start, end).0 <= self.extent(old(buf).sel.head, start, end).1,
            self.extent(old(buf).sel.head, start, end).1 <= old(buf).chars().len(),
        ensures
            ({
                let (from, to) = self.extent(old(buf).sel.head, start, end);
                &&& old(buf).edited(*final(buf), from as int, to as int, text@, from + text@.len())
                &&& inverse.takes_back(old(buf).chars(), from as int, to as int, text@)
            }),
    {
        let (from, to): (usize, usize) = self.range(buf.sel.head, start, end);
        buf.replace_range(from, to, text)
    }
}

// ── Documentation of the selected entry ───────────────────────────────────────

/// What is to be done for the documentation of the selected entry.
#[derive(Debug)]
pub enum Resolve {
    Nothing,
    /// The item has its documentation.
    Show { doc: String },
    /// The server is to be asked about this item.
    Ask { item_ix: usize },
}

/// What is to be done for the documentation of the selected entry.
pub fn schedule_completion_resolve(menu: &Option<CompletionMenu>) -> (r: Resolve)
    requires
        menu matches Some(m) ==> m.wf(),
    ensures
        match r {
            Resolve::Nothing => *menu is None || menu->0.selected() is None,
            Resolve::Show { doc } => {
                &&& menu matches Some(m)
                &&& m.selected() matches Some(item)
                &&& item.documentation matches Some(d)
                &&& doc@ == d@
            },
            Resolve::Ask { item_ix } => {
                &&& menu matches Some(m)
                &&& m.selected_ix < m.filtered@.len()
                &&& item_ix == m.filtered@[m.selected_ix as int]
                &&& m.items@[item_ix as int].documentation is None
            },
        },
{
    match menu {
        None => Resolve::Nothing,
        Some(m) => {
            if m.selected_ix >= m.filtered.len() {
                return Resolve::Nothing;
            }
            let item_ix: usize = m.filtered[m.selected_ix];
            match &m.items[item_ix].documentation {
                Some(d) => Resolve::Show { doc: d.clone() },
                None => Resolve::Ask { item_ix },
            }
        },
    }
}

/// Forgets the documentation of the entry that was selected before, as the server is asked about
/// the one that is selected now; and takes over what the server gives.
pub fn set_doc_text(menu: &mut Option<CompletionMenu>, doc: Option<String>)
    requires
        *old(menu) matches Some(m) ==> m.wf(),
    ensures
        *old(menu) is None ==> *final(menu) is None,
        *old(menu) matches Some(m) ==> *final(menu) == Some(CompletionMenu { doc_text: doc, ..m }),
        *final(menu) matches Some(m) ==> m.wf(),
{
    if let Some(m) = menu {
        m.doc_text = doc;
    }
}

// ── What is shown ─────────────────────────────────────────────────────────────

/// How many entries are shown at least where there is little room, and at most.
pub const MIN_VISIBLE: usize = 3;

pub const MAX_VISIBLE: usize = 12;

/// How many entries are shown of `count` where there is room for `fit`.
pub open spec fn rows_shown(fit: int, count: int) -> int {
    let room = if fit < MIN_VISIBLE { MIN_VISIBLE as int } else if fit > MAX_VISIBLE { MAX_VISIBLE as int } else { fit };
    let rows = if room < count { room } else { count };
    if rows < 1 { 1 } else { rows }
}

/// How many entries are shown of `count` where there is room for `fit`.
pub fn visible_rows(fit: usize, count: usize) -> (n: usize)
    ensures
        n == rows_shown(fit as int, count as int),
        1 <= n <= MAX_VISIBLE,
{
    let room: usize = if fit < MIN_VISIBLE { MIN_VISIBLE } else if fit > MAX_VISIBLE { MAX_VISIBLE } else { fit };
    let rows: usize = if room < count { room } else { count };
    if rows < 1 { 1 } else { rows }
}

/// Whether the menu is shown: it lists something, and the line of its word is among the `visible`
/// lines from `top` on.
pub fn overlay_shown(menu: &Option<CompletionMenu>, rope: &Rope, top: usize, visible: usize) -> (b: bool)
    requires
        top + visible <= usize::MAX,
    ensures
        b == (*menu matches Some(m) && m.filtered@.len() > 0 && (top <= word_line(rope::rope_chars(*rope), m) < top
            + visible)),
{
    match menu {
        None => false,
        Some(m) => {
            if m.filtered.len() == 0 {
                return false;
            }
            let len: usize = rope_len(rope);
            let last: usize = if len > 0 { len - 1 } else { 0 };
            let line: usize = rope_line_of(rope, if m.word_start < last { m.word_start } else { last });
            top <= line && line < top + visible
        },
    }
}

/// The line of the word that a menu completes.
pub open spec fn word_line(s: Seq<char>, m: CompletionMenu) -> int {
    let last = if s.len() > 0 { s.len() - 1 } else { 0 };
    rope::line_of(s, if m.word_start < last { m.word_start as int } else { last })
}

/// One row of the menu.
#[derive(Debug)]
pub struct CompletionRow {
    pub glyph: String,
    pub color: ColorRole,
    pub label: String,
    pub detail: Option<String>,
    pub selected: bool,
}

/// The sign for a kind of completion, and its color.
pub open spec fn kind_sign(kind: Option<i32>) -> (ColorRole, Seq<char>) {
    match kind {
        Some(k) => if k == 1 {
            (ColorRole::Text, "ab"@)
        } else if k == 2 || k == 3 {
            (ColorRole::Syntax(SyntaxToken::Function), "fn"@)
        } else if k == 4 {
            (ColorRole::Text, "c"@)
        } else if k == 5 {
            (ColorRole::Syntax(SyntaxToken::Variable), "f"@)
        } else if k == 6 {
            (ColorRole::Syntax(SyntaxToken::Variable), "v"@)
        } else if k == 7 {
            (ColorRole::Syntax(SyntaxToken::Type), "C"@)
        } else if k == 8 {
            (ColorRole::Syntax(SyntaxToken::Type), "I"@)
        } else if k == 9 {
            (ColorRole::Syntax(SyntaxToken::Namespace), "ns"@)
        } else if k == 10 {
            (ColorRole::Syntax(SyntaxToken::Variable), "p"@)
        } else if k == 11 {
            (ColorRole::Text, "u"@)
        } else if k == 12 {
            (ColorRole::Syntax(SyntaxToken::Constant), "="@)
        } else if k == 13 {
            (ColorRole::Syntax(SyntaxToken::Type), "E"@)
        } else if k == 14 {
            (ColorRole::Syntax(SyntaxToken::Keyword), "kw"@)
        } else if k == 15 {
            (ColorRole::Text, "⋯"@)
        } else if k == 20 {
            (ColorRole::Text, "e"@)
        } else if k == 21 {
            (ColorRole::Syntax(SyntaxToken::Constant), "K"@)
        } else if k == 22 || k == 25 {
            (ColorRole::Syntax(SyntaxToken::Type), "T"@)
        } else if k == 23 {
            (ColorRole::Text, "!"@)
        } else if k == 24 {
            (ColorRole::Text, "op"@)
        } else {
            (ColorRole::Text, "·"@)
        },
        None => (ColorRole::Text, "·"@),
    }
}

/// The sign for a kind of completion, as the protocol numbers them, and its color.
pub fn kind_info(kind: Option<i32>) -> (r: (ColorRole, String))
    ensures
        (r.0, r.1@) == kind_sign(kind),
{
    match kind {
        Some(1) => (ColorRole::Text, "ab".to_owned()),
        Some(2) => (ColorRole::Syntax(SyntaxToken::Function), "fn".to_owned()),
        Some(3) => (ColorRole::Syntax(SyntaxToken::Function), "fn".to_owned()),
        Some(4) => (ColorRole::Text, "c".to_owned()),
        Some(5) => (ColorRole::Syntax(SyntaxToken::Variable), "f".to_owned()),
        Some(6) => (ColorRole::Syntax(SyntaxToken::Variable), "v".to_owned()),
        Some(7) => (ColorRole::Syntax(SyntaxToken::Type), "C".to_owned()),
        Some(8) => (ColorRole::Syntax(SyntaxToken::Type), "I".to_owned()),
        Some(9) => (ColorRole::Syntax(SyntaxToken::Namespace), "ns".to_owned()),
        Some(10) => (ColorRole::Syntax(SyntaxToken::Variable), "p".to_owned()),
        Some(11) => (ColorRole::Text, "u".to_owned()),
        Some(12) => (ColorRole::Syntax(SyntaxToken::Constant), "=".to_owned()),
        Some(13) => (ColorRole::Syntax(SyntaxToken::Type), "E".to_owned()),
        Some(14) => (ColorRole::Syntax(SyntaxToken::Keyword), "kw".to_owned()),
        Some(15) => (ColorRole::Text, "⋯".to_owned()),
        Some(20) => (ColorRole::Text, "e".to_owned()),
        Some(21) => (ColorRole::Syntax(SyntaxToken::Constant), "K".to_owned()),
        Some(22) => (ColorRole::Syntax(SyntaxToken::Type), "T".to_owned()),
        Some(23) => (ColorRole::Text, "!".to_owned()),
        Some(24) => (ColorRole::Text, "op".to_owned()),
        Some(25) => (ColorRole::Syntax(SyntaxToken::Type), "T".to_owned()),
        _ => (ColorRole::Text, "·".to_owned()),
    }
}

/// Whether `row` shows entry `k` of a menu.
pub open spec fn shows_entry(m: CompletionMenu, k: int, row: CompletionRow) -> bool {
    let item = m.items@[m.filtered@[k] as int];
    &&& (row.color, row.glyph@) == kind_sign(item.kind)
    &&& row.label == item.label
    &&& row.detail == item.detail
    &&& row.selected == (k == m.selected_ix)
}

/// The rows of a menu.
pub fn completion_rows(m: &CompletionMenu) -> (rows: Vec<CompletionRow>)
    requires
        m.wf(),
    ensures
        rows@.len() == m.filtered@.len(),
        forall|k: int| 0 <= k < rows@.len() ==> shows_entry(*m, k, #[trigger] rows@[k]),
{
    let mut rows: Vec<CompletionRow> = Vec::new();
    let mut k: usize = 0;
    while k < m.filtered.len()
        invariant
            k <= m.filtered@.len(),
            m.wf(),
            rows@.len() == k,
            forall|j: int| 0 <= j < k ==> shows_entry(*m, j, #[trigger] rows@[j]),
        decreases m.filtered@.len() - k,
    {
        let item: &ParsedCompletion = &m.items[m.filtered[k]];
        let (color, glyph): (ColorRole, String) = kind_info(item.kind);
        rows.push(
            CompletionRow {
                glyph,
                color,
                label: item.label.clone(),
                detail: copy_text(&item.detail),
                selected: k == m.selected_ix,
            },
        );
        k = k + 1;
    }
    rows
}

} // verus!
