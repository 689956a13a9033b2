//! Edits at the selection: typing, deleting, replacing.
use vstd::prelude::*;

use crate::document;
use crate::document::{Change, Document, Selection};
use crate::rope;
use crate::rope::{line_string, rope_line_count, rope_line_of, start_of_line};
use crate::text;
use crate::text::chars_of;

verus! {

/// A document with the selection in it.
pub struct EditBuffer {
    pub doc: Document,
    pub sel: Selection,
}

/// How many characters `s` has before the line feeds and carriage returns at its end.
pub open spec fn content_len(s: Seq<char>) -> int
    decreases s.len(),
{
    if s.len() > 0 && (s.last() == '\n' || s.last() == '\r') { content_len(s.drop_last()) } else { s.len() as int }
}

/// `s` without the line feeds and carriage returns at its end.
pub open spec fn content(s: Seq<char>) -> Seq<char> {
    s.take(content_len(s))
}

/// The content of a text is no longer than the text.
pub proof fn content_len_bounds(s: Seq<char>)
    ensures
        0 <= content_len(s) <= s.len(),
    decreases s.len(),
{
    if s.len() > 0 && (s.last() == '\n' || s.last() == '\r') {
        content_len_bounds(s.drop_last());
    }
}

/// How many characters `s` has before the line feeds and carriage returns at its end.
pub fn content_chars(s: &str) -> (n: usize)
    ensures
        n == content_len(s@),
        n <= s@.len(),
{
    let chars: Vec<char> = chars_of(s);
    let mut n: usize = chars.len();
    assert(s@.take(n as int) =~= s@);
    while n > 0 && (chars[n - 1] == '\n' || chars[n - 1] == '\r')
        invariant
            n <= chars@.len(),
            chars@ == s@,
            content_len(s@) == content_len(s@.take(n as int)),
        ensures
            n == content_len(s@),
        decreases n,
    {
        assert(s@.take(n as int).drop_last() =~= s@.take(n - 1));
        n = n - 1;
    }
    n
}

/// The last position of `s` that is not beyond `pos` and has a character, or the start.
pub open spec fn on_char(s: Seq<char>, pos: int) -> int {
    if pos < s.len() { pos } else if s.len() > 0 { s.len() - 1 } else { 0 }
}

impl EditBuffer {
    /// The text of the document.
    pub open spec fn chars(self) -> Seq<char> {
        self.doc.chars()
    }

    /// Whether the selection lies within the text.
    pub open spec fn wf(self) -> bool {
        self.sel.within(self.chars())
    }

    /// Whether nothing is selected.
    pub open spec fn no_selection(self) -> bool {
        self.sel.anchor == self.sel.head
    }

    /// Whether `after` is this buffer with the characters from `start` to `end` replaced by
    /// `text` and the caret at `caret`.
    pub open spec fn edited(self, after: EditBuffer, start: int, end: int, text: Seq<char>, caret: int) -> bool {
        &&& 0 <= start <= end <= self.chars().len()
        &&& after.chars() == document::replaced(self.chars(), start, end, text)
        &&& after.sel.caret_at(after.chars(), caret)
        &&& after.doc.path == self.doc.path
        &&& after.doc.dirty
        &&& after.wf()
    }

    /// Replaces the characters from `start` to `end` and puts the caret at `caret`.
    fn edit(&mut self, start: usize, end: usize, text: &str, caret: usize) -> (inverse: Change)
        requires
            start <= end <= old(self).chars().len(),
            caret <= document::replaced(old(self).chars(), start as int, end as int, text@).len(),
        ensures
            old(self).edited(*final(self), start as int, end as int, text@, caret as int),
            inverse.takes_back(old(self).chars(), start as int, end as int, text@),
    {
        let inverse: Change = self.doc.replace(start, end, text);
        self.sel = Selection::collapsed(caret, &self.doc.rope);
        inverse
    }

    /// Deletes what is selected.
    fn delete_selection(&mut self) -> (inverse: Change)
        requires
            old(self).wf(),
        ensures
            old(self).edited(*final(self), old(self).sel.first(), old(self).sel.last(), Seq::empty(), old(self).sel.first()),
            inverse.takes_back(old(self).chars(), old(self).sel.first(), old(self).sel.last(), Seq::empty()),
    {
        proof {
            reveal_strlit("");
            assert(""@ =~= Seq::<char>::empty());
        }
        let start: usize = self.sel.start();
        let end: usize = self.sel.end();
        self.edit(start, end, "", start)
    }

    /// Deletes the characters from `start` to `end`.
    fn delete_range(&mut self, start: usize, end: usize) -> (inverse: Change)
        requires
            start <= end <= old(self).chars().len(),
        ensures
            old(self).edited(*final(self), start as int, end as int, Seq::empty(), start as int),
            inverse.takes_back(old(self).chars(), start as int, end as int, Seq::empty()),
    {
        proof {
            reveal_strlit("");
            assert(""@ =~= Seq::<char>::empty());
        }
        self.edit(start, end, "", start)
    }

    /// Types `text` in place of what is selected. The caret ends up behind it.
    pub fn insert_text(&mut self, text: &str) -> (inverse: Change)
        requires
            old(self).wf(),
        ensures
            old(self).edited(
                *final(self),
                old(self).sel.first(),
                old(self).sel.last(),
                text@,
                old(self).sel.first() + text@.len(),
            ),
            inverse.takes_back(old(self).chars(), old(self).sel.first(), old(self).sel.last(), text@),
    {
        let start: usize = self.sel.start();
        let end: usize = self.sel.end();
        self.replace_range(start, end, text)
    }

    /// Replaces the characters from `start` to `end` by `text`. The caret ends up behind it.
    pub fn replace_range(&mut self, start: usize, end: usize, text: &str) -> (inverse: Change)
        requires
            start <= end <= old(self).chars().len(),
        ensures
            old(self).edited(*final(self), start as int, end as int, text@, start + text@.len()),
            inverse.takes_back(old(self).chars(), start as int, end as int, text@),
    {
        let inverse: Change = self.doc.replace(start, end, text);
        self.sel = Selection::collapsed(inverse.end, &self.doc.rope);
        inverse
    }

    /// What a deletion removes: the selection, or, where nothing is selected, the given range,
    /// unless that is empty.
    pub open spec fn deletes(self, after: EditBuffer, start: int, end: int, inverse: Option<Change>) -> bool {
        if !self.no_selection() {
            &&& self.edited(after, self.sel.first(), self.sel.last(), Seq::empty(), self.sel.first())
            &&& inverse matches Some(c) && c.takes_back(self.chars(), self.sel.first(), self.sel.last(), Seq::empty())
        } else if start < end {
            &&& self.edited(after, start, end, Seq::empty(), start)
            &&& inverse matches Some(c) && c.takes_back(self.chars(), start, end, Seq::empty())
        } else {
            after == self && inverse is None
        }
    }

    /// Deletes what is selected, or the characters from `start` to `end` where nothing is.
    fn delete_or(&mut self, start: usize, end: usize) -> (inverse: Option<Change>)
        requires
            old(self).wf(),
            old(self).no_selection() && start < end ==> end <= old(self).chars().len(),
        ensures
            old(self).deletes(*final(self), start as int, end as int, inverse),
            final(self).wf(),
    {
        if !self.sel.is_empty() {
            Some(self.delete_selection())
        } else if start < end {
            Some(self.delete_range(start, end))
        } else {
            None
        }
    }

    /// Deletes what is selected, or the character before the caret.
    pub fn do_backspace(&mut self) -> (inverse: Option<Change>)
        requires
            old(self).wf(),
        ensures
            old(self).deletes(
                *final(self),
                if old(self).sel.head > 0 { old(self).sel.head - 1 } else { 0 },
                old(self).sel.head as int,
                inverse,
            ),
            final(self).wf(),
    {
        let head: usize = self.sel.head;
        self.delete_or(if head > 0 { head - 1 } else { 0 }, head)
    }

    /// Deletes what is selected, or the character behind the caret.
    pub fn do_delete_fwd(&mut self) -> (inverse: Option<Change>)
        requires
            old(self).wf(),
        ensures
            old(self).deletes(
                *final(self),
                old(self).sel.head as int,
                if old(self).sel.head < old(self).chars().len() { old(self).sel.head + 1 } else { old(self).sel.head as int },
                inverse,
            ),
            final(self).wf(),
    {
        let head: usize = self.sel.head;
        let len: usize = self.doc.len_chars();
        self.delete_or(head, if head < len { head + 1 } else { head })
    }

    /// Deletes what is selected, or what stands between `word_start`, where the word to the left
    /// starts, and the caret.
    pub fn do_delete_word_left(&mut self, word_start: usize) -> (inverse: Option<Change>)
        requires
            old(self).wf(),
        ensures
            old(self).deletes(*final(self), word_start as int, old(self).sel.head as int, inverse),
            final(self).wf(),
    {
        let head: usize = self.sel.head;
        self.delete_or(word_start, head)
    }

    /// Deletes what is selected, or what stands between the caret and `word_end`, where the word
    /// to the right ends.
    pub fn do_delete_word_right(&mut self, word_end: usize) -> (inverse: Option<Change>)
        requires
            old(self).wf(),
            word_end <= old(self).chars().len(),
        ensures
            old(self).deletes(*final(self), old(self).sel.head as int, word_end as int, inverse),
            final(self).wf(),
    {
        let head: usize = self.sel.head;
        self.delete_or(head, word_end)
    }

    /// The line that an edit of a whole line is about: that of the caret, or of the last
    /// character where the caret is at the end.
    pub open spec fn edit_line(self) -> int {
        rope::line_of(self.chars(), on_char(self.chars(), self.sel.head as int))
    }

    /// The line that an edit of a whole line is about.
    fn edit_line_index(&self) -> (n: usize)
        requires
            self.wf(),
        ensures
            n == self.edit_line(),
            n < rope::line_count(self.chars()),
    {
        let len: usize = self.doc.len_chars();
        let pos: usize = if self.sel.head < len { self.sel.head } else if len > 0 { len - 1 } else { 0 };
        proof {
            rope::position_on_its_line(self.chars(), pos as int);
        }
        rope_line_of(&self.doc.rope, pos)
    }

    /// Deletes what is selected, or what stands on the line before the caret.
    pub fn do_delete_to_line_start(&mut self) -> (inverse: Option<Change>)
        requires
            old(self).wf(),
        ensures
            old(self).deletes(
                *final(self),
                rope::line_start(old(self).chars(), old(self).edit_line()),
                old(self).sel.head as int,
                inverse,
            ),
            final(self).wf(),
    {
        let line: usize = self.edit_line_index();
        let start: usize = start_of_line(&self.doc.rope, line);
        let head: usize = self.sel.head;
        self.delete_or(start, head)
    }

    /// Where the content of line `n` ends.
    pub open spec fn content_end(self, n: int) -> int {
        rope::line_start(self.chars(), n) + content_len(rope::line_text(self.chars(), n))
    }

    /// Deletes what is selected, or what stands on the line behind the caret. The break that ends
    /// the line stays.
    pub fn do_delete_to_line_end(&mut self) -> (inverse: Option<Change>)
        requires
            old(self).wf(),
        ensures
            old(self).deletes(
                *final(self),
                old(self).sel.head as int,
                old(self).content_end(old(self).edit_line()),
                inverse,
            ),
            final(self).wf(),
    {
        let line: usize = self.edit_line_index();
        let start: usize = start_of_line(&self.doc.rope, line);
        let raw: String = line_string(&self.doc.rope, line);
        let n: usize = content_chars(raw.as_str());
        proof {
            rope::line_starts_ordered(self.chars(), line as int);
        }
        let len: usize = self.doc.len_chars();
        let head: usize = self.sel.head;
        self.delete_or(head, start + n)
    }

    /// The characters that the deletion of a line removes: the line with the break that ends it,
    /// or, for the last line, with the break before it.
    pub open spec fn line_extent(self) -> (int, int) {
        let n = self.edit_line();
        let start = rope::line_start(self.chars(), n);
        if n + 1 < rope::line_count(self.chars()) {
            (start, rope::line_start(self.chars(), n + 1))
        } else if start > 0 {
            (start - 1, self.chars().len() as int)
        } else {
            (0, self.chars().len() as int)
        }
    }

    /// Deletes the line of the caret. The caret ends up where the line was.
    pub fn do_delete_line(&mut self) -> (inverse: Option<Change>)
        requires
            old(self).wf(),
        ensures
            old(self).chars().len() == 0 ==> *final(self) == *old(self) && inverse is None,
            old(self).chars().len() > 0 ==> {
                let (start, end) = old(self).line_extent();
                &&& start < end
                &&& old(self).edited(*final(self), start, end, Seq::empty(), start)
                &&& inverse matches Some(c) && c.takes_back(old(self).chars(), start, end, Seq::empty())
            },
            final(self).wf(),
    {
        let len: usize = self.doc.len_chars();
        if len == 0 {
            return None;
        }
        let line: usize = self.edit_line_index();
        let line_count: usize = rope_line_count(&self.doc.rope);
        let line_start: usize = start_of_line(&self.doc.rope, line);
        proof {
            let pos = on_char(self.chars(), self.sel.head as int);
            rope::position_on_its_line(self.chars(), pos);
            rope::line_starts_ordered(self.chars(), line as int);
        }
        if line + 1 < line_count {
            let next: usize = start_of_line(&self.doc.rope, line + 1);
            Some(self.delete_range(line_start, next))
        } else if line_start > 0 {
            Some(self.delete_range(line_start - 1, len))
        } else {
            Some(self.delete_range(0, len))
        }
    }
}

/// What is typed, a backspace takes out again, one character at a time.
pub proof fn backspace_undoes_typing(a: EditBuffer, b: EditBuffer, c: EditBuffer, ch: char, inverse: Option<Change>)
    requires
        a.wf(),
        a.no_selection(),
        a.edited(b, a.sel.first(), a.sel.last(), seq![ch], a.sel.first() + 1),
        b.deletes(c, b.sel.head - 1, b.sel.head as int, inverse),
    ensures
        c.chars() == a.chars(),
        c.sel.head == a.sel.head,
{
    assert(c.chars() =~= a.chars());
}

} // verus!
