//! A one-line text input: its text and its caret.
use vstd::prelude::*;

use crate::input_helpers;
use crate::input_helpers::{delete_char_before, delete_char_range, insert_at, split_at_char, word_start_before};
use crate::keys::KeyPress;
use crate::text;
use crate::text::byte_len;

verus! {

/// The text of an input, and how many characters stand before its caret.
#[derive(Debug)]
pub struct TextInput {
    pub text: String,
    pub cursor: usize,
}

/// Where a caret moves.
#[derive(Debug, Clone, Copy, PartialEq, Eq, Structural)]
pub enum CaretMove {
    Left,
    Right,
    Start,
    End,
}

impl CaretMove {
    /// Where the caret is after the move, in a text of `len` characters.
    pub open spec fn moved(self, cursor: int, len: int) -> int {
        match self {
            CaretMove::Left => if cursor > 0 { cursor - 1 } else { 0 },
            CaretMove::Right => if cursor < len { cursor + 1 } else { len },
            CaretMove::Start => 0,
            CaretMove::End => len,
        }
    }
}

impl TextInput {
    /// Whether the caret lies within the text.
    pub open spec fn wf(self) -> bool {
        self.cursor <= self.text@.len()
    }

    /// An empty input.
    pub fn new() -> (r: TextInput)
        ensures
            r.text@ == Seq::<char>::empty(),
            r.cursor == 0,
            r.wf(),
    {
        TextInput { text: String::new(), cursor: 0 }
    }

    /// An input that holds `text`, with the caret at its end.
    pub fn filled(text: String) -> (r: TextInput)
        ensures
            r.text == text,
            r.cursor == text@.len(),
            r.wf(),
    {
        let cursor: usize = text.as_str().unicode_len();
        TextInput { text, cursor }
    }

    /// Empties the input.
    pub fn clear(&mut self)
        ensures
            final(self).text@ == Seq::<char>::empty(),
            final(self).cursor == 0,
            final(self).wf(),
    {
        self.text = String::new();
        self.cursor = 0;
    }

    /// Whether `after` is the input with `typed` typed at the caret.
    pub open spec fn typed_into(self, after: TextInput, typed: Seq<char>) -> bool {
        &&& after.text@ == input_helpers::inserted(self.text@, self.cursor as int, typed)
        &&& after.cursor == self.cursor + typed.len()
    }

    /// Whether `after` is the input without the character before the caret.
    pub open spec fn backspaced(self, after: TextInput) -> bool {
        if self.cursor > 0 {
            after.text@ == self.text@.remove(self.cursor - 1) && after.cursor == self.cursor - 1
        } else {
            after == self
        }
    }

    /// Whether there is a word before the caret.
    pub open spec fn has_word_before(self) -> bool {
        input_helpers::word_start(self.text@, self.cursor as int) < self.cursor
    }

    /// Whether `after` is the input without the word before the caret.
    pub open spec fn word_deleted(self, after: TextInput) -> bool {
        let start = input_helpers::word_start(self.text@, self.cursor as int);
        if start < self.cursor {
            after.text@ == input_helpers::range_deleted(self.text@, start, self.cursor as int) && after.cursor == start
        } else {
            after == self
        }
    }

    /// Whether the input is empty.
    pub open spec fn empty(self) -> bool {
        self.text@.len() == 0 && self.cursor == 0
    }

    /// Types `typed` at the caret.
    pub fn insert(&mut self, typed: &str)
        requires
            old(self).wf(),
        ensures
            old(self).typed_into(*final(self), typed@),
            final(self).wf(),
    {
        let text: String = insert_at(self.text.as_str(), self.cursor, typed);
        let total: usize = text.as_str().unicode_len();
        let count: usize = typed.unicode_len();
        self.cursor = self.cursor + count;
        self.text = text;
    }

    /// Deletes the character before the caret. Says whether there was one.
    pub fn backspace(&mut self) -> (changed: bool)
        requires
            old(self).wf(),
        ensures
            changed == (old(self).cursor > 0),
            old(self).backspaced(*final(self)),
            final(self).wf(),
    {
        if self.cursor == 0 {
            return false;
        }
        self.text = delete_char_before(self.text.as_str(), self.cursor);
        self.cursor = self.cursor - 1;
        true
    }

    /// Deletes the word before the caret. Says whether anything was deleted.
    pub fn delete_word(&mut self) -> (changed: bool)
        requires
            old(self).wf(),
        ensures
            changed == old(self).has_word_before(),
            old(self).word_deleted(*final(self)),
            final(self).wf(),
    {
        let start: usize = word_start_before(self.text.as_str(), self.cursor);
        if start >= self.cursor {
            return false;
        }
        self.text = delete_char_range(self.text.as_str(), start, self.cursor);
        self.cursor = start;
        true
    }

    /// Deletes what stands before the caret. Says whether anything was deleted.
    pub fn delete_to_start(&mut self) -> (changed: bool)
        requires
            old(self).wf(),
        ensures
            changed == (old(self).cursor > 0),
            changed ==> final(self).text@ == input_helpers::range_deleted(old(self).text@, 0, old(self).cursor as int)
                && final(self).cursor == 0,
            !changed ==> *final(self) == *old(self),
            final(self).wf(),
    {
        if self.cursor == 0 {
            return false;
        }
        self.text = delete_char_range(self.text.as_str(), 0, self.cursor);
        self.cursor = 0;
        true
    }

    /// Moves the caret one character to the left. Says whether it moved.
    pub fn move_left(&mut self) -> (moved: bool)
        requires
            old(self).wf(),
        ensures
            moved == (old(self).cursor > 0),
            final(self).text == old(self).text,
            final(self).cursor == if moved { old(self).cursor - 1 } else { 0 },
            final(self).wf(),
    {
        if self.cursor == 0 {
            return false;
        }
        self.cursor = self.cursor - 1;
        true
    }

    /// Moves the caret one character to the right. Says whether it moved.
    pub fn move_right(&mut self) -> (moved: bool)
        requires
            old(self).wf(),
        ensures
            moved == (old(self).cursor < old(self).text@.len()),
            final(self).text == old(self).text,
            final(self).cursor == if moved { old(self).cursor + 1 } else { old(self).cursor as int },
            final(self).wf(),
    {
        if self.cursor >= self.text.as_str().unicode_len() {
            return false;
        }
        self.cursor = self.cursor + 1;
        true
    }

    /// Moves the caret to the start.
    pub fn move_start(&mut self)
        ensures
            final(self).text == old(self).text,
            final(self).cursor == 0,
            final(self).wf(),
    {
        self.cursor = 0;
    }

    /// Moves the caret to the end.
    pub fn move_end(&mut self)
        ensures
            final(self).text == old(self).text,
            final(self).cursor == old(self).text@.len(),
            final(self).wf(),
    {
        self.cursor = self.text.as_str().unicode_len();
    }

    /// The input after its caret has moved.
    pub open spec fn caret_moved(self, to: CaretMove) -> TextInput {
        TextInput { cursor: to.moved(self.cursor as int, self.text@.len() as int) as usize, ..self }
    }

    /// Moves the caret.
    pub fn move_caret(&mut self, to: CaretMove)
        requires
            old(self).wf(),
        ensures
            *final(self) == old(self).caret_moved(to),
            final(self).wf(),
    {
        match to {
            CaretMove::Left => {
                self.move_left();
            },
            CaretMove::Right => {
                self.move_right();
            },
            CaretMove::Start => self.move_start(),
            CaretMove::End => self.move_end(),
        }
    }

    /// Whether `v` is what the input shows.
    pub open spec fn showing(self, v: InputView, focused: bool, blink_on: bool) -> bool {
        &&& v.text@ == self.text@
        &&& v.caret_byte == text::byte_pos(self.text@, self.cursor as int)
        &&& v.caret_shown == (focused && blink_on)
        &&& v.placeholder == (!focused && self.text@.len() == 0)
        &&& v.focused == focused
    }

    /// What the input shows.
    pub fn shown(&self, focused: bool, blink_on: bool) -> (v: InputView)
        requires
            self.wf(),
        ensures
            self.showing(v, focused, blink_on),
    {
        let (before, after): (String, String) = split_at_char(self.text.as_str(), self.cursor);
        let caret_byte: usize = byte_len(before.as_str());
        let mut whole: String = before;
        whole.append(after.as_str());
        assert(whole@ =~= self.text@);
        InputView {
            caret_byte,
            caret_shown: focused && blink_on,
            placeholder: !focused && whole.as_str().is_empty(),
            focused,
            text: whole,
        }
    }
}

/// What a key has done in the input of a finder.
#[derive(Debug, Clone, Copy, PartialEq, Eq, Structural)]
pub enum FinderKey {
    Nothing,
    /// Something was deleted.
    Deleted,
    /// Text was typed.
    Typed,
}

impl TextInput {
    /// What a key does in the input of a finder: with the platform key, backspace empties it; with
    /// alt, it deletes a word; and text is typed.
    pub open spec fn finder_keyed(self, after: TextInput, key: KeyPress, r: FinderKey) -> bool {
        if key.platform_only() && key.key@ == "backspace"@ {
            after.empty() && r == FinderKey::Deleted
        } else if key.alt_only() && key.key@ == "backspace"@ {
            self.word_deleted(after) && r == if self.has_word_before() { FinderKey::Deleted } else { FinderKey::Nothing }
        } else {
            match key.typed() {
                Some(t) => self.typed_into(after, t) && r == FinderKey::Typed,
                None => after == self && r == FinderKey::Nothing,
            }
        }
    }

    /// A key is pressed in the input of a finder.
    pub fn press_in_finder(&mut self, key: &KeyPress) -> (r: FinderKey)
        requires
            old(self).wf(),
        ensures
            old(self).finder_keyed(*final(self), *key, r),
            final(self).wf(),
    {
        let backspace: bool = key.is("backspace");
        if key.platform && !key.control && !key.alt && backspace {
            self.clear();
            return FinderKey::Deleted;
        }
        if key.alt && !key.platform && !key.control && !key.shift && backspace {
            return if self.delete_word() { FinderKey::Deleted } else { FinderKey::Nothing };
        }
        match key.typed_text() {
            Some(t) => {
                self.insert(t);
                FinderKey::Typed
            },
            None => FinderKey::Nothing,
        }
    }
}

/// What a text input shows.
#[derive(Debug)]
pub struct InputView {
    pub text: String,
    /// The byte of the text that the caret stands before.
    pub caret_byte: usize,
    pub caret_shown: bool,
    /// Whether a placeholder is shown in place of the text.
    pub placeholder: bool,
    pub focused: bool,
}

} // verus!
