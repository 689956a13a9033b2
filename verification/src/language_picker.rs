//! The list from which the language of a document is picked.
use vstd::prelude::*;

use crate::buffer_view::ColorRole;
use crate::cycle;
use crate::cycle::{next_ix, prev_ix};
use crate::text::same_text;

verus! {

/// A language.
#[derive(Debug)]
pub struct Language {
    pub id: String,
    pub name: String,
}

/// The list from which a language is picked.
#[derive(Debug)]
pub struct LanguagePickerView {
    pub languages: Vec<Language>,
    pub current_lang_id: Option<String>,
    pub cursor: usize,
}

/// One row of the list.
#[derive(Debug)]
pub struct LanguageRow {
    pub name: String,
    pub selected: bool,
    /// Whether the document is in this language already.
    pub current: bool,
    pub color: ColorRole,
}

/// The first language from `i` on that is called `id`; their number where none is.
pub open spec fn language_from(languages: Seq<Language>, id: Seq<char>, i: int) -> int
    decreases languages.len() - i,
{
    if i >= languages.len() || languages[i].id@ == id { i } else { language_from(languages, id, i + 1) }
}

/// Whether `id` is the language that the document is in.
pub open spec fn is_current(current: Option<String>, id: Seq<char>) -> bool {
    current matches Some(c) && c@ == id
}

impl LanguagePickerView {
    /// Whether the cursor is on a language, if there is any.
    pub open spec fn wf(self) -> bool {
        self.cursor < self.languages@.len() || (self.languages@.len() == 0 && self.cursor == 0)
    }

    /// A list with the cursor on the language that the document is in, or on the first.
    pub fn new(languages: Vec<Language>, current_lang_id: Option<String>) -> (p: LanguagePickerView)
        ensures
            p.languages == languages,
            p.current_lang_id == current_lang_id,
            p.cursor == match current_lang_id {
                Some(id) => {
                    let i = language_from(languages@, id@, 0);
                    if i < languages@.len() { i } else { 0 }
                },
                None => 0,
            },
            p.wf(),
    {
        let mut cursor: usize = 0;
        if let Some(id) = &current_lang_id {
            let mut i: usize = 0;
            while i < languages.len() && !same_text(languages[i].id.as_str(), id.as_str())
                invariant
                    i <= languages@.len(),
                    language_from(languages@, id@, 0) == language_from(languages@, id@, i as int),
                ensures
                    i <= languages@.len(),
                    i == language_from(languages@, id@, 0),
                decreases languages@.len() - i,
            {
                i = i + 1;
            }
            if i < languages.len() {
                cursor = i;
            }
        }
        LanguagePickerView { languages, current_lang_id, cursor }
    }

    /// Goes on to the next language, round from the last to the first.
    pub fn select_next(&mut self)
        requires
            old(self).wf(),
        ensures
            old(self).languages@.len() == 0 ==> *final(self) == *old(self),
            old(self).languages@.len() > 0 ==> {
                &&& final(self).cursor == cycle::next(old(self).languages@.len() as int, old(self).cursor as int)
                &&& *final(self) == (LanguagePickerView { cursor: final(self).cursor, ..*old(self) })
            },
            final(self).wf(),
    {
        if self.languages.len() > 0 {
            self.cursor = next_ix(self.languages.len(), self.cursor);
        }
    }

    /// Goes back to the previous language, round from the first to the last.
    pub fn select_prev(&mut self)
        requires
            old(self).wf(),
        ensures
            old(self).languages@.len() == 0 ==> *final(self) == *old(self),
            old(self).languages@.len() > 0 ==> {
                &&& final(self).cursor == cycle::prev(old(self).languages@.len() as int, old(self).cursor as int)
                &&& *final(self) == (LanguagePickerView { cursor: final(self).cursor, ..*old(self) })
            },
            final(self).wf(),
    {
        if self.languages.len() > 0 {
            self.cursor = prev_ix(self.languages.len(), self.cursor);
        }
    }

    /// The language that is picked.
    pub fn picked(&self) -> (r: Option<&Language>)
        requires
            self.wf(),
        ensures
            r is Some <==> self.languages@.len() > 0,
            r matches Some(l) ==> *l == self.languages@[self.cursor as int],
    {
        if self.cursor < self.languages.len() { Some(&self.languages[self.cursor]) } else { None }
    }

    /// Whether `row` shows language `i`.
    pub open spec fn shows(self, i: int, row: LanguageRow) -> bool {
        &&& row.name == self.languages@[i].name
        &&& row.selected == (i == self.cursor)
        &&& row.current == is_current(self.current_lang_id, self.languages@[i].id@)
        &&& row.color == if i == self.cursor { ColorRole::Text } else { ColorRole::TextMuted }
    }

    /// The rows of the list.
    pub fn rows(&self) -> (rows: Vec<LanguageRow>)
        ensures
            rows@.len() == self.languages@.len(),
            forall|i: int| 0 <= i < rows@.len() ==> self.shows(i, #[trigger] rows@[i]),
    {
        let mut rows: Vec<LanguageRow> = Vec::new();
        let mut i: usize = 0;
        while i < self.languages.len()
            invariant
                i <= self.languages@.len(),
                rows@.len() == i,
                forall|k: int| 0 <= k < i ==> self.shows(k, #[trigger] rows@[k]),
            decreases self.languages@.len() - i,
        {
            let selected: bool = i == self.cursor;
            let current: bool = match &self.current_lang_id {
                Some(c) => same_text(c.as_str(), self.languages[i].id.as_str()),
                None => false,
            };
            rows.push(
                LanguageRow {
                    name: self.languages[i].name.clone(),
                    selected,
                    current,
                    color: if selected { ColorRole::Text } else { ColorRole::TextMuted },
                },
            );
            i = i + 1;
        }
        rows
    }
}

} // verus!
