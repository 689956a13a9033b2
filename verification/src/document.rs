//! A document and the selection in it, and the changes that edits make.
use ropey::Rope;
use vstd::prelude::*;

use crate::rope;
use crate::rope::{col_of, rope_insert, rope_len, rope_remove, rope_slice};

verus! {

/// `s` with the characters from `start` to `end` replaced by `text`.
pub open spec fn replaced(s: Seq<char>, start: int, end: int, text: Seq<char>) -> Seq<char> {
    s.take(start) + text + s.skip(end)
}

/// A replacement of the characters from `start` to `end` by `text`.
#[derive(Debug)]
pub struct Change {
    pub start: usize,
    pub end: usize,
    pub text: String,
}

impl Change {
    /// Whether the change can be made to `s`.
    pub open spec fn fits(self, s: Seq<char>) -> bool {
        self.start <= self.end <= s.len()
    }

    /// `s` after the change.
    pub open spec fn applied(self, s: Seq<char>) -> Seq<char> {
        replaced(s, self.start as int, self.end as int, self.text@)
    }

    /// Whether the change takes back the replacement of the characters from `start` to `end` of
    /// `s` by `text`.
    pub open spec fn takes_back(self, s: Seq<char>, start: int, end: int, text: Seq<char>) -> bool {
        &&& self.start == start
        &&& self.end == start + text.len()
        &&& self.text@ == s.subrange(start, end)
    }
}

/// A change that takes back a replacement restores the text.
pub proof fn taking_back_restores(c: Change, s: Seq<char>, start: int, end: int, text: Seq<char>)
    requires
        0 <= start <= end <= s.len(),
        c.takes_back(s, start, end, text),
    ensures
        c.fits(replaced(s, start, end, text)),
        c.applied(replaced(s, start, end, text)) == s,
{
    assert(c.applied(replaced(s, start, end, text)) =~= s);
}

/// A document: its text, where it is stored, and whether it has unsaved changes.
pub struct Document {
    pub rope: Rope,
    pub path: String,
    pub dirty: bool,
}

impl Document {
    /// The text of the document.
    pub open spec fn chars(self) -> Seq<char> {
        rope::rope_chars(self.rope)
    }

    /// How many characters the document has.
    pub fn len_chars(&self) -> (n: usize)
        ensures
            n == self.chars().len(),
    {
        rope_len(&self.rope)
    }

    /// The characters from `start` to `end`.
    pub fn text_in(&self, start: usize, end: usize) -> (s: String)
        requires
            start <= end <= self.chars().len(),
        ensures
            s@ == self.chars().subrange(start as int, end as int),
    {
        rope_slice(&self.rope, start, end)
    }

    /// Replaces the characters from `start` to `end` by `text`. The change returned takes that
    /// back.
    pub fn replace(&mut self, start: usize, end: usize, text: &str) -> (inverse: Change)
        requires
            start <= end <= old(self).chars().len(),
        ensures
            final(self).chars() == replaced(old(self).chars(), start as int, end as int, text@),
            final(self).path == old(self).path,
            final(self).dirty,
            inverse.takes_back(old(self).chars(), start as int, end as int, text@),
    {
        let ghost s = self.chars();
        let removed: String = rope_slice(&self.rope, start, end);
        rope_remove(&mut self.rope, start, end);
        assert(self.chars().take(start as int) =~= s.take(start as int));
        assert(self.chars().skip(start as int) =~= s.skip(end as int));
        rope_insert(&mut self.rope, start, text);
        self.dirty = true;
        let total: usize = rope_len(&self.rope);
        assert(self.chars().len() == start + text@.len() + (s.len() - end));
        let count: usize = text.unicode_len();
        Change { start, end: start + count, text: removed }
    }

    /// Makes a change. The one returned takes it back.
    pub fn apply(&mut self, change: &Change) -> (inverse: Change)
        requires
            change.fits(old(self).chars()),
        ensures
            final(self).chars() == change.applied(old(self).chars()),
            final(self).path == old(self).path,
            final(self).dirty,
            inverse.takes_back(old(self).chars(), change.start as int, change.end as int, change.text@),
    {
        self.replace(change.start, change.end, change.text.as_str())
    }
}

/// A selection: where it was started, where it has been taken, and the column that moves up and
/// down aim at.
#[derive(Debug, Clone, Copy, PartialEq, Eq, Structural)]
pub struct Selection {
    pub anchor: usize,
    pub head: usize,
    pub goal_col: usize,
}

impl Selection {
    /// Where the selection starts.
    pub open spec fn first(self) -> int {
        if self.anchor < self.head { self.anchor as int } else { self.head as int }
    }

    /// Where the selection ends.
    pub open spec fn last(self) -> int {
        if self.anchor < self.head { self.head as int } else { self.anchor as int }
    }

    /// Whether the selection lies within `s`.
    pub open spec fn within(self, s: Seq<char>) -> bool {
        self.anchor <= s.len() && self.head <= s.len()
    }

    /// Whether the selection is a caret at `pos` in `s`.
    pub open spec fn caret_at(self, s: Seq<char>, pos: int) -> bool {
        self.anchor == pos && self.head == pos && self.goal_col == rope::column_of(s, pos)
    }

    /// Where the selection starts.
    pub fn start(&self) -> (n: usize)
        ensures
            n == self.first(),
    {
        if self.anchor < self.head { self.anchor } else { self.head }
    }

    /// Where the selection ends.
    pub fn end(&self) -> (n: usize)
        ensures
            n == self.last(),
    {
        if self.anchor < self.head { self.head } else { self.anchor }
    }

    /// Whether nothing is selected.
    pub fn is_empty(&self) -> (b: bool)
        ensures
            b == (self.anchor == self.head),
    {
        self.anchor == self.head
    }

    /// A caret at `pos`.
    pub fn collapsed(pos: usize, rope: &Rope) -> (sel: Selection)
        requires
            pos <= rope::rope_chars(*rope).len(),
        ensures
            sel.caret_at(rope::rope_chars(*rope), pos as int),
    {
        Selection { anchor: pos, head: pos, goal_col: col_of(rope, pos) }
    }
}

} // verus!
