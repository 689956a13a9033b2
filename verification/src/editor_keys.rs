//! What the keys do in an editor.
use vstd::prelude::*;

use crate::document::Change;
use crate::editor_view::EditorView;
use crate::keys;
use crate::keys::{swap_case, KeyPress};
use crate::outline_overlay;
use crate::outline_overlay::{first_matching_line, OutlineOverlay};
use crate::rope;
use crate::search::{InputFocus, SearchState};
use crate::text_input::TextInput;

verus! {

/// What a key has done.
#[derive(Debug)]
pub enum KeyOutcome {
    Nothing,
    HoverDismissed,
    /// The query of the outline has changed, or its caret.
    OutlineEdited,
    /// The outline is closed. The editor is to have the keyboard, and to show line `scroll_to`.
    OutlineClosed { scroll_to: Option<usize> },
    /// What is searched for has changed: matches are to be looked for anew.
    SearchEdited,
    ReplaceEdited,
    /// The text has changed.
    Edited { inverse: Option<Change> },
    /// Text was typed. `change` takes it back; `schedule` says whether it asks for completions.
    Typed { change: Change, text: String, schedule: bool },
}

impl EditorView {
    /// Whether the outline has the keyboard.
    pub open spec fn in_outline(self, focus: InputFocus) -> bool {
        self.overlay.open && focus == InputFocus::Outline
    }

    /// Whether the search input has the keyboard.
    pub open spec fn in_search(self, focus: InputFocus) -> bool {
        self.search.show_search && focus == InputFocus::Search
    }

    /// Whether the replace input has the keyboard.
    pub open spec fn in_replace(self, focus: InputFocus) -> bool {
        self.search.show_replace && focus == InputFocus::Replace
    }

    /// The editor with another search input.
    pub open spec fn with_query(self, query: TextInput) -> EditorView {
        EditorView { search: SearchState { query, ..self.search }, ..self }
    }

    /// The editor with another replace input.
    pub open spec fn with_replace(self, replace: TextInput) -> EditorView {
        EditorView { search: SearchState { replace, ..self.search }, ..self }
    }

    /// The editor with another outline input.
    pub open spec fn with_outline_input(self, input: TextInput, hover: Option<usize>) -> EditorView {
        EditorView { overlay: OutlineOverlay { input, hover, ..self.overlay }, ..self }
    }

    /// The editor with the outline closed.
    pub open spec fn outline_closed(self) -> EditorView {
        EditorView {
            overlay: OutlineOverlay { open: false, hover: None, highlight: None, ..self.overlay },
            ..self
        }
    }

    /// What the platform key with backspace, delete or k does: it empties the input that has the
    /// keyboard, or deletes the line up to the caret; the rest of the line; the whole line.
    pub open spec fn platform_key(self, after: EditorView, key: KeyPress, focus: InputFocus, r: KeyOutcome) -> bool {
        if key.key@ == "backspace"@ && !key.shift {
            if self.in_outline(focus) {
                &&& after == self.with_outline_input(after.overlay.input, self.overlay.hover)
                &&& after.overlay.input.empty()
                &&& r is OutlineEdited
            } else if self.in_search(focus) {
                &&& after == self.with_query(after.search.query)
                &&& after.search.query.empty()
                &&& r is SearchEdited
            } else if self.in_replace(focus) {
                &&& after == self.with_replace(after.search.replace)
                &&& after.search.replace.empty()
                &&& r is ReplaceEdited
            } else {
                &&& r matches KeyOutcome::Edited { inverse }
                &&& self.buf.deletes(
                    after.buf,
                    rope::line_start(self.chars(), self.buf.edit_line()),
                    self.buf.sel.head as int,
                    inverse,
                )
                &&& self.settled(after)
            }
        } else if key.key@ == "delete"@ && !key.shift {
            &&& r matches KeyOutcome::Edited { inverse }
            &&& self.buf.deletes(
                after.buf,
                self.buf.sel.head as int,
                self.buf.content_end(self.buf.edit_line()),
                inverse,
            )
            &&& self.settled(after)
        } else {
            &&& r matches KeyOutcome::Edited { inverse }
            &&& self.line_deleted(after, inverse)
        }
    }

    /// Whether a key with the platform key is one that `platform_key` tells of.
    pub open spec fn is_platform_key(key: KeyPress) -> bool {
        key.platform_only() && ((key.key@ == "backspace"@ && !key.shift) || (key.key@ == "delete"@ && !key.shift) || (
        key.key@ == "k"@ && key.shift))
    }

    /// What alt with backspace does in an input: it deletes the word before the caret.
    pub open spec fn alt_backspace(self, after: EditorView, focus: InputFocus, r: KeyOutcome) -> bool {
        if self.in_outline(focus) {
            if self.overlay.input.has_word_before() {
                &&& self.overlay.input.word_deleted(after.overlay.input)
                &&& after == self.with_outline_input(after.overlay.input, None)
                &&& r is OutlineEdited
            } else {
                after == self && r is Nothing
            }
        } else if self.in_search(focus) {
            if self.search.query.has_word_before() {
                &&& self.search.query.word_deleted(after.search.query)
                &&& after == self.with_query(after.search.query)
                &&& r is SearchEdited
            } else {
                after == self && r is Nothing
            }
        } else {
            if self.search.replace.has_word_before() {
                &&& self.search.replace.word_deleted(after.search.replace)
                &&& after == self.with_replace(after.search.replace)
                &&& r is ReplaceEdited
            } else {
                after == self && r is Nothing
            }
        }
    }

    /// What a key that types no text does in the outline.
    pub open spec fn outline_key(self, after: EditorView, key: KeyPress, r: KeyOutcome) -> bool {
        let input = self.overlay.input;
        if key.key@ == "backspace"@ {
            if input.cursor > 0 {
                &&& input.backspaced(after.overlay.input)
                &&& after == self.with_outline_input(after.overlay.input, None)
                &&& r is OutlineEdited
            } else {
                after == self && r is Nothing
            }
        } else if key.key@ == "left"@ {
            if input.cursor > 0 {
                &&& after == self.with_outline_input(
                    TextInput { text: input.text, cursor: (input.cursor - 1) as usize },
                    self.overlay.hover,
                )
                &&& r is OutlineEdited
            } else {
                after == self && r is Nothing
            }
        } else if key.key@ == "right"@ {
            if input.cursor < input.text@.len() {
                &&& after == self.with_outline_input(
                    TextInput { text: input.text, cursor: (input.cursor + 1) as usize },
                    self.overlay.hover,
                )
                &&& r is OutlineEdited
            } else {
                after == self && r is Nothing
            }
        } else if key.key@ == "enter"@ {
            &&& after == self.outline_closed()
            &&& r matches KeyOutcome::OutlineClosed { scroll_to }
            &&& outline_overlay::first_line(self.outline.items@, input.text@, scroll_to)
        } else {
            after == self && r is Nothing
        }
    }

    /// What typing does: it goes into the input that has the keyboard, or else into the text.
    pub open spec fn text_key(self, after: EditorView, focus: InputFocus, typed: Seq<char>, r: KeyOutcome) -> bool {
        if self.in_replace(focus) {
            &&& self.search.replace.typed_into(after.search.replace, typed)
            &&& after == self.with_replace(after.search.replace)
            &&& r is ReplaceEdited
        } else if self.in_search(focus) {
            &&& self.search.query.typed_into(after.search.query, typed)
            &&& after == self.with_query(after.search.query)
            &&& r is SearchEdited
        } else {
            let first = self.buf.sel.first();
            let last = self.buf.sel.last();
            &&& r matches KeyOutcome::Typed { change, text, schedule }
            &&& text@ == typed
            &&& schedule == !self.completion_suppress_once
            &&& self.buf.edited(after.buf, first, last, typed, first + typed.len())
            &&& change.takes_back(self.chars(), first, last, typed)
            &&& (EditorView { completion_suppress_once: false, ..self }).settled(after)
        }
    }

    /// What a key does, with `focus` having the keyboard.
    pub open spec fn key_effect(self, after: EditorView, key: KeyPress, focus: InputFocus, caps_lock: bool, r: KeyOutcome) -> bool {
        if key.key@ == "escape"@ && self.hover.content is Some {
            &&& after.hover.nothing()
            &&& after == (EditorView { hover: after.hover, ..self })
            &&& r is HoverDismissed
        } else if Self::is_platform_key(key) {
            self.platform_key(after, key, focus, r)
        } else if key.alt_only() && key.key@ == "backspace"@ && (self.in_outline(focus) || self.in_search(focus)
            || self.in_replace(focus)) {
            self.alt_backspace(after, focus, r)
        } else if self.overlay.open && key.key_char is None && key.key@ == "escape"@ {
            after == self.outline_closed() && (r matches KeyOutcome::OutlineClosed { scroll_to } && scroll_to is None)
        } else if self.in_outline(focus) && key.key_char is None {
            self.outline_key(after, key, r)
        } else {
            match key.typed() {
                None => after == self && r is Nothing,
                Some(typed) => if self.in_outline(focus) {
                    &&& self.overlay.input.typed_into(after.overlay.input, typed)
                    &&& after == self.with_outline_input(after.overlay.input, None)
                    &&& r is OutlineEdited
                } else {
                    self.text_key(after, focus, if caps_lock { keys::caps_locked(typed) } else { typed }, r)
                },
            }
        }
    }

    /// A key is pressed while `focus` has the keyboard.
    pub fn on_key_down(&mut self, key: &KeyPress, focus: InputFocus, caps_lock: bool) -> (r: KeyOutcome)
        requires
            old(self).wf(),
        ensures
            old(self).key_effect(*final(self), *key, focus, caps_lock, r),
            final(self).wf(),
    {
        let escape: bool = key.is("escape");
        if escape && self.hover.content.is_some() {
            self.hover.dismiss_hover();
            return KeyOutcome::HoverDismissed;
        }
        if is_platform_command(key) {
            return self.press_platform_key(key, focus);
        }
        if key.alt && !key.platform && !key.control && !key.shift && key.is("backspace") {
            if self.edits_outline(focus) || self.edits_search(focus) || self.edits_replace(focus) {
                return self.press_alt_backspace(focus);
            }
        }
        if self.overlay.open && key.key_char.is_none() && escape {
            self.overlay.close();
            return KeyOutcome::OutlineClosed { scroll_to: None };
        }
        if self.edits_outline(focus) && key.key_char.is_none() {
            return self.press_in_outline(key);
        }
        match key.typed_text() {
            None => KeyOutcome::Nothing,
            Some(typed) => {
                if self.edits_outline(focus) {
                    self.overlay.input.insert(typed);
                    self.overlay.hover = None;
                    return KeyOutcome::OutlineEdited;
                }
                let text: String = if caps_lock { swap_case(typed) } else { typed.to_owned() };
                self.type_text(text, focus)
            },
        }
    }

    /// Whether the outline has the keyboard.
    fn edits_outline(&self, focus: InputFocus) -> (b: bool)
        ensures
            b == self.in_outline(focus),
    {
        self.overlay.open && focus == InputFocus::Outline
    }

    /// Whether the search input has the keyboard.
    fn edits_search(&self, focus: InputFocus) -> (b: bool)
        ensures
            b == self.in_search(focus),
    {
        self.search.show_search && focus == InputFocus::Search
    }

    /// Whether the replace input has the keyboard.
    fn edits_replace(&self, focus: InputFocus) -> (b: bool)
        ensures
            b == self.in_replace(focus),
    {
        self.search.show_replace && focus == InputFocus::Replace
    }

    /// A key with the platform key.
    fn press_platform_key(&mut self, key: &KeyPress, focus: InputFocus) -> (r: KeyOutcome)
        requires
            old(self).wf(),
            Self::is_platform_key(*key),
        ensures
            old(self).platform_key(*final(self), *key, focus, r),
            final(self).wf(),
    {
        if key.is("backspace") && !key.shift {
            if self.edits_outline(focus) {
                self.overlay.input.clear();
                KeyOutcome::OutlineEdited
            } else if self.edits_search(focus) {
                self.search.query.clear();
                KeyOutcome::SearchEdited
            } else if self.edits_replace(focus) {
                self.search.replace.clear();
                KeyOutcome::ReplaceEdited
            } else {
                KeyOutcome::Edited { inverse: self.do_delete_to_line_start() }
            }
        } else if key.is("delete") && !key.shift {
            KeyOutcome::Edited { inverse: self.do_delete_to_line_end() }
        } else {
            KeyOutcome::Edited { inverse: self.do_delete_line() }
        }
    }

    /// Backspace with alt, in an input.
    fn press_alt_backspace(&mut self, focus: InputFocus) -> (r: KeyOutcome)
        requires
            old(self).wf(),
            old(self).in_outline(focus) || old(self).in_search(focus) || old(self).in_replace(focus),
        ensures
            old(self).alt_backspace(*final(self), focus, r),
            final(self).wf(),
    {
        if self.edits_outline(focus) {
            if self.overlay.input.delete_word() {
                self.overlay.hover = None;
                return KeyOutcome::OutlineEdited;
            }
        } else if self.edits_search(focus) {
            if self.search.query.delete_word() {
                return KeyOutcome::SearchEdited;
            }
        } else if self.search.replace.delete_word() {
            return KeyOutcome::ReplaceEdited;
        }
        KeyOutcome::Nothing
    }

    /// A key that types no text, in the outline.
    fn press_in_outline(&mut self, key: &KeyPress) -> (r: KeyOutcome)
        requires
            old(self).wf(),
        ensures
            old(self).outline_key(*final(self), *key, r),
            final(self).wf(),
    {
        if key.is("backspace") {
            if self.overlay.input.backspace() {
                self.overlay.hover = None;
                return KeyOutcome::OutlineEdited;
            }
            return KeyOutcome::Nothing;
        }
        if key.is("left") {
            return if self.overlay.input.move_left() { KeyOutcome::OutlineEdited } else { KeyOutcome::Nothing };
        }
        if key.is("right") {
            return if self.overlay.input.move_right() { KeyOutcome::OutlineEdited } else { KeyOutcome::Nothing };
        }
        if key.is("enter") {
            let scroll_to: Option<usize> = first_matching_line(&self.outline, self.overlay.input.text.as_str());
            self.overlay.close();
            return KeyOutcome::OutlineClosed { scroll_to };
        }
        KeyOutcome::Nothing
    }

    /// Types `text` where the keyboard leads.
    fn type_text(&mut self, text: String, focus: InputFocus) -> (r: KeyOutcome)
        requires
            old(self).wf(),
        ensures
            old(self).text_key(*final(self), focus, text@, r),
            final(self).wf(),
    {
        if self.edits_replace(focus) {
            self.search.replace.insert(text.as_str());
            return KeyOutcome::ReplaceEdited;
        }
        if self.edits_search(focus) {
            self.search.query.insert(text.as_str());
            return KeyOutcome::SearchEdited;
        }
        let schedule: bool = !self.completion_suppress_once;
        self.completion_suppress_once = false;
        let change: Change = self.insert_text(text.as_str());
        KeyOutcome::Typed { change, text, schedule }
    }
}

/// Whether a key with the platform key is one that edits.
fn is_platform_command(key: &KeyPress) -> (b: bool)
    ensures
        b == EditorView::is_platform_key(*key),
{
    if !key.platform || key.control || key.alt {
        return false;
    }
    if key.shift { key.is("k") } else { key.is("backspace") || key.is("delete") }
}

} // verus!
