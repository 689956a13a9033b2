//! Search and replace within a document: the state of the search bar, and the way through the
//! matches.
use vstd::prelude::*;

use crate::cycle;
use crate::cycle::{next_ix, prev_ix};
use crate::document;
use crate::document::{Change, Document, Selection};
use crate::text;
use crate::text::{push_char, push_decimal};
use crate::text_input::{CaretMove, InputView, TextInput};

verus! {

/// What is to have the keyboard.
#[derive(Debug, Clone, Copy, PartialEq, Eq, Structural)]
pub enum InputFocus {
    Editor,
    Search,
    Replace,
    Outline,
    Other,
}

/// A match: where it starts and where it ends.
#[derive(Debug, Clone, Copy, PartialEq, Eq, Structural)]
pub struct Match {
    pub start: usize,
    pub end: usize,
}

/// What is looked for in a text, and how.
#[derive(Debug)]
pub struct FindQuery {
    pub text: String,
    pub case_sensitive: bool,
    pub whole_word: bool,
    pub regex: bool,
}

impl FindQuery {
    /// Looks for the occurrences of a word: as it is written, and where it is a whole word.
    pub fn of_word(word: String) -> (q: FindQuery)
        ensures
            q.text@ == word@,
            q.case_sensitive && q.whole_word && !q.regex,
    {
        FindQuery { text: word, case_sensitive: true, whole_word: true, regex: false }
    }
}

/// The search bar of an editor.
#[derive(Debug)]
pub struct SearchState {
    pub show_search: bool,
    pub show_replace: bool,
    pub query: TextInput,
    pub replace: TextInput,
    pub matches: Vec<Match>,
    pub match_idx: usize,
    pub case_sensitive: bool,
    pub whole_word: bool,
    pub regex: bool,
}

/// Whether matches lie within a text of `len` characters, one behind the other.
pub open spec fn in_order(ms: Seq<Match>, len: int) -> bool {
    &&& forall|i: int| 0 <= i < ms.len() ==> (#[trigger] ms[i]).start <= ms[i].end <= len
    &&& forall|i: int, j: int| 0 <= i < j < ms.len() ==> (#[trigger] ms[i]).end <= (#[trigger] ms[j]).start
}

/// What takes the place of the first `n` matches and of what stands between them.
pub open spec fn between_replaced(s: Seq<char>, ms: Seq<Match>, text: Seq<char>, n: int) -> Seq<char>
    decreases n,
{
    if n <= 0 {
        Seq::empty()
    } else if n == 1 {
        text
    } else {
        between_replaced(s, ms, text, n - 1) + s.subrange(ms[n - 2].end as int, ms[n - 1].start as int) + text
    }
}

/// `s` with every match replaced by `text`.
pub open spec fn all_replaced(s: Seq<char>, ms: Seq<Match>, text: Seq<char>) -> Seq<char> {
    if ms.len() == 0 {
        s
    } else {
        document::replaced(
            s,
            ms[0].start as int,
            ms.last().end as int,
            between_replaced(s, ms, text, ms.len() as int),
        )
    }
}

/// Replaces every match in a document by `text`. The change returned takes that back.
pub fn replace_matches(doc: &mut Document, ms: &[Match], text: &str) -> (inverse: Option<Change>)
    requires
        in_order(ms@, old(doc).chars().len() as int),
    ensures
        final(doc).chars() == all_replaced(old(doc).chars(), ms@, text@),
        final(doc).path == old(doc).path,
        ms@.len() == 0 ==> *final(doc) == *old(doc) && inverse is None,
        ms@.len() > 0 ==> final(doc).dirty && inverse is Some && inverse->0.takes_back(
            old(doc).chars(),
            ms@[0].start as int,
            ms@.last().end as int,
            between_replaced(old(doc).chars(), ms@, text@, ms@.len() as int),
        ),
{
    if ms.len() == 0 {
        return None;
    }
    let ghost s = doc.chars();
    let mut middle: String = text.to_owned();
    let mut i: usize = 1;
    while i < ms.len()
        invariant
            1 <= i <= ms@.len(),
            s == doc.chars(),
            *doc == *old(doc),
            in_order(ms@, s.len() as int),
            middle@ == between_replaced(s, ms@, text@, i as int),
        decreases ms@.len() - i,
    {
        assert(ms@[i - 1].end <= ms@[i as int].start);
        let gap: String = doc.text_in(ms[i - 1].end, ms[i].start);
        middle.append(gap.as_str());
        middle.append(text);
        i = i + 1;
    }
    let first: usize = ms[0].start;
    let last: usize = ms[ms.len() - 1].end;
    proof {
        if ms@.len() > 1 {
            assert(ms@[0].end <= ms@[ms@.len() - 1].start);
        }
    }
    Some(doc.replace(first, last, middle.as_str()))
}

/// What the search bar says of the matches.
#[derive(Debug, Clone, Copy, PartialEq, Eq, Structural)]
pub enum MatchInfo {
    /// Nothing is searched for.
    Blank,
    NoMatches,
    /// The current match, counted from one, and how many there are.
    Current { number: usize, total: usize },
}

/// The current match and how many there are, as text.
pub open spec fn match_label(number: int, total: int) -> Seq<char> {
    text::decimal(number as nat).push('/') + text::decimal(total as nat)
}

impl MatchInfo {
    /// The text that the search bar says it with. `no_matches` says that there are none.
    pub fn label(&self, no_matches: &str) -> (s: String)
        ensures
            s@ == match *self {
                MatchInfo::Blank => Seq::empty(),
                MatchInfo::NoMatches => no_matches@,
                MatchInfo::Current { number, total } => match_label(number as int, total as int),
            },
    {
        match self {
            MatchInfo::Blank => String::new(),
            MatchInfo::NoMatches => no_matches.to_owned(),
            MatchInfo::Current { number, total } => {
                let mut s: String = String::new();
                push_decimal(&mut s, *number as u64);
                push_char(&mut s, '/');
                push_decimal(&mut s, *total as u64);
                assert(s@ =~= match_label(*number as int, *total as int));
                s
            },
        }
    }
}

/// What the search bar shows.
#[derive(Debug)]
pub struct SearchBarView {
    pub query: InputView,
    /// The replace row, where it is shown.
    pub replace: Option<InputView>,
    pub info: MatchInfo,
    pub case_sensitive: bool,
    pub whole_word: bool,
    pub regex: bool,
}

impl SearchState {
    /// What the search bar says of the matches.
    pub open spec fn info(self) -> MatchInfo {
        if self.query.text@.len() == 0 {
            MatchInfo::Blank
        } else if self.matches@.len() == 0 {
            MatchInfo::NoMatches
        } else {
            MatchInfo::Current { number: (self.match_idx + 1) as usize, total: self.matches@.len() as usize }
        }
    }

    /// What the search bar says of the matches.
    pub fn match_info(&self) -> (i: MatchInfo)
        requires
            self.wf(),
        ensures
            i == self.info(),
    {
        if self.query.text.as_str().is_empty() {
            MatchInfo::Blank
        } else if self.matches.len() == 0 {
            MatchInfo::NoMatches
        } else {
            MatchInfo::Current { number: self.match_idx + 1, total: self.matches.len() }
        }
    }

    /// What the search bar shows while `focus` has the keyboard.
    pub fn bar(&self, focus: InputFocus, blink_on: bool) -> (v: SearchBarView)
        requires
            self.wf(),
        ensures
            self.query.showing(v.query, focus == InputFocus::Search, blink_on),
            v.replace is Some == self.show_replace,
            v.replace matches Some(r) ==> self.replace.showing(r, focus == InputFocus::Replace, blink_on),
            v.info == self.info(),
            v.case_sensitive == self.case_sensitive,
            v.whole_word == self.whole_word,
            v.regex == self.regex,
    {
        let replace: Option<InputView> = if self.show_replace {
            Some(self.replace.shown(focus == InputFocus::Replace, blink_on))
        } else {
            None
        };
        SearchBarView {
            query: self.query.shown(focus == InputFocus::Search, blink_on),
            replace,
            info: self.match_info(),
            case_sensitive: self.case_sensitive,
            whole_word: self.whole_word,
            regex: self.regex,
        }
    }

    /// Whether the current match is one of the matches, where there are any, and the carets lie
    /// within their inputs.
    pub open spec fn wf(self) -> bool {
        &&& self.query.wf()
        &&& self.replace.wf()
        &&& self.match_idx < self.matches@.len() || self.matches@.len() == 0
    }

    /// A search bar that is closed and empty.
    pub fn new() -> (r: SearchState)
        ensures
            !r.show_search,
            !r.show_replace,
            r.query.text@ == Seq::<char>::empty(),
            r.replace.text@ == Seq::<char>::empty(),
            r.query.cursor == 0,
            r.replace.cursor == 0,
            r.matches@.len() == 0,
            r.match_idx == 0,
            !r.case_sensitive,
            !r.whole_word,
            !r.regex,
            r.wf(),
    {
        SearchState {
            show_search: false,
            show_replace: false,
            query: TextInput::new(),
            replace: TextInput::new(),
            matches: Vec::new(),
            match_idx: 0,
            case_sensitive: false,
            whole_word: false,
            regex: false,
        }
    }

    /// What the search bar looks for. A closed one looks for nothing.
    pub fn find_query(&self) -> (q: Option<FindQuery>)
        ensures
            q is Some <==> self.show_search || self.show_replace,
            q matches Some(f) ==> {
                &&& f.text@ == self.query.text@
                &&& f.case_sensitive == self.case_sensitive
                &&& f.whole_word == self.whole_word
                &&& f.regex == self.regex
            },
    {
        if !self.show_search && !self.show_replace {
            return None;
        }
        Some(
            FindQuery {
                text: self.query.text.clone(),
                case_sensitive: self.case_sensitive,
                whole_word: self.whole_word,
                regex: self.regex,
            },
        )
    }

    /// Takes over what a search has found. A closed search bar has no matches. The current match
    /// stays, or becomes the last where there are fewer.
    pub fn update_matches(&mut self, found: Vec<Match>)
        requires
            old(self).wf(),
        ensures
            final(self).matches@ == if old(self).show_search || old(self).show_replace { found@ } else { Seq::empty() },
            final(self).match_idx == if final(self).matches@.len() == 0 {
                0
            } else if old(self).match_idx < final(self).matches@.len() {
                old(self).match_idx as int
            } else {
                final(self).matches@.len() - 1
            },
            *final(self) == (SearchState {
                matches: final(self).matches,
                match_idx: final(self).match_idx,
                ..*old(self)
            }),
            final(self).wf(),
    {
        self.matches = if self.show_search || self.show_replace { found } else { Vec::new() };
        if self.matches.len() == 0 {
            self.match_idx = 0;
        } else if self.match_idx >= self.matches.len() {
            self.match_idx = self.matches.len() - 1;
        }
    }

    /// Moves the caret of the input that has the keyboard, if one of the two has.
    pub fn on_input_move(&mut self, focus: InputFocus, to: CaretMove)
        requires
            old(self).wf(),
        ensures
            *final(self) == match focus {
                InputFocus::Search => SearchState { query: old(self).query.caret_moved(to), ..*old(self) },
                InputFocus::Replace => SearchState { replace: old(self).replace.caret_moved(to), ..*old(self) },
                _ => *old(self),
            },
            final(self).wf(),
    {
        match focus {
            InputFocus::Search => self.query.move_caret(to),
            InputFocus::Replace => self.replace.move_caret(to),
            _ => {},
        }
    }

    /// The selection of the current match.
    pub open spec fn current(self) -> Selection {
        Selection {
            anchor: self.matches@[self.match_idx as int].start,
            head: self.matches@[self.match_idx as int].end,
            goal_col: 0,
        }
    }

    /// Goes on to the next match, round from the last to the first, and selects it.
    pub fn do_find_next(&mut self) -> (sel: Option<Selection>)
        requires
            old(self).wf(),
        ensures
            old(self).matches@.len() == 0 ==> *final(self) == *old(self) && sel is None,
            old(self).matches@.len() > 0 ==> {
                &&& final(self).match_idx == cycle::next(old(self).matches@.len() as int, old(self).match_idx as int)
                &&& *final(self) == (SearchState { match_idx: final(self).match_idx, ..*old(self) })
                &&& sel == Some(final(self).current())
            },
            final(self).wf(),
    {
        if self.matches.len() == 0 {
            return None;
        }
        self.match_idx = next_ix(self.matches.len(), self.match_idx);
        let m: Match = self.matches[self.match_idx];
        Some(Selection { anchor: m.start, head: m.end, goal_col: 0 })
    }

    /// Goes back to the previous match, round from the first to the last, and selects it.
    pub fn do_find_prev(&mut self) -> (sel: Option<Selection>)
        requires
            old(self).wf(),
        ensures
            old(self).matches@.len() == 0 ==> *final(self) == *old(self) && sel is None,
            old(self).matches@.len() > 0 ==> {
                &&& final(self).match_idx == cycle::prev(old(self).matches@.len() as int, old(self).match_idx as int)
                &&& *final(self) == (SearchState { match_idx: final(self).match_idx, ..*old(self) })
                &&& sel == Some(final(self).current())
            },
            final(self).wf(),
    {
        if self.matches.len() == 0 {
            return None;
        }
        self.match_idx = prev_ix(self.matches.len(), self.match_idx);
        let m: Match = self.matches[self.match_idx];
        Some(Selection { anchor: m.start, head: m.end, goal_col: 0 })
    }

    /// Opens the search bar without its replace row; where it is open already, closes it. Says
    /// what is to have the keyboard.
    pub fn open_search(&mut self) -> (focus: InputFocus)
        requires
            old(self).wf(),
        ensures
            old(self).show_search ==> final(self).closed() && focus == InputFocus::Editor,
            !old(self).show_search ==> *final(self) == (SearchState {
                show_search: true,
                show_replace: false,
                ..*old(self)
            }) && focus == InputFocus::Search,
            final(self).wf(),
    {
        if self.show_search {
            return self.close_search();
        }
        self.show_search = true;
        self.show_replace = false;
        InputFocus::Search
    }

    /// Opens the search bar with its replace row. Says what is to have the keyboard.
    pub fn open_replace(&mut self) -> (focus: InputFocus)
        requires
            old(self).wf(),
        ensures
            *final(self) == (SearchState { show_search: true, show_replace: true, ..*old(self) }),
            focus == InputFocus::Search,
            final(self).wf(),
    {
        self.show_search = true;
        self.show_replace = true;
        InputFocus::Search
    }

    /// Whether the search bar is closed and has forgotten everything.
    pub open spec fn closed(self) -> bool {
        &&& !self.show_search && !self.show_replace
        &&& self.query.text@.len() == 0 && self.query.cursor == 0
        &&& self.replace.text@.len() == 0 && self.replace.cursor == 0
        &&& !self.case_sensitive && !self.whole_word && !self.regex
        &&& self.matches@.len() == 0 && self.match_idx == 0
    }

    /// Closes the search bar and forgets what was typed and found. Says what is to have the
    /// keyboard.
    pub fn close_search(&mut self) -> (focus: InputFocus)
        ensures
            final(self).closed(),
            focus == InputFocus::Editor,
            final(self).wf(),
    {
        self.show_search = false;
        self.show_replace = false;
        self.query.clear();
        self.replace.clear();
        self.case_sensitive = false;
        self.whole_word = false;
        self.regex = false;
        self.matches = Vec::new();
        self.match_idx = 0;
        InputFocus::Editor
    }

    /// Shows or hides the replace row. Says what is to have the keyboard.
    pub fn toggle_replace(&mut self) -> (focus: InputFocus)
        requires
            old(self).wf(),
        ensures
            *final(self) == (SearchState { show_replace: !old(self).show_replace, ..*old(self) }),
            focus == if final(self).show_replace { InputFocus::Replace } else { InputFocus::Search },
            final(self).wf(),
    {
        self.show_replace = !self.show_replace;
        if self.show_replace { InputFocus::Replace } else { InputFocus::Search }
    }

    /// Switches the distinction of upper and lower case.
    pub fn toggle_case(&mut self)
        requires
            old(self).wf(),
        ensures
            *final(self) == (SearchState { case_sensitive: !old(self).case_sensitive, ..*old(self) }),
            final(self).wf(),
    {
        self.case_sensitive = !self.case_sensitive;
    }

    /// Switches the restriction to whole words.
    pub fn toggle_whole_word(&mut self)
        requires
            old(self).wf(),
        ensures
            *final(self) == (SearchState { whole_word: !old(self).whole_word, ..*old(self) }),
            final(self).wf(),
    {
        self.whole_word = !self.whole_word;
    }

    /// Switches regular expressions.
    pub fn toggle_regex(&mut self)
        requires
            old(self).wf(),
        ensures
            *final(self) == (SearchState { regex: !old(self).regex, ..*old(self) }),
            final(self).wf(),
    {
        self.regex = !self.regex;
    }
}

} // verus!
