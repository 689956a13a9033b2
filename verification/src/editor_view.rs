//! The editor: a document with its selection, its search bar, its outline, its popovers and its
//! completion menu, and what edits and the mouse do to them.
use vstd::prelude::*;

use crate::completion_menu;
use crate::completion_menu::{after_backspace, refresh_completion_filter_or_dismiss, Accepted, CompletionMenu, InputStep};
use crate::document;
use crate::document::{Change, Document, Selection};
use crate::editing;
use crate::editing::EditBuffer;
use crate::hover_popover;
use crate::hover_state;
use crate::hover_state::{HoverState, LinkState};
use crate::line_cache::LineCache;
use crate::locations::Location;
use crate::markdown::Outline;
use crate::outline_overlay::OutlineOverlay;
use crate::paths;
use crate::paths::{is_one_file, path_from};
use crate::rope;
use crate::rope::{col_of, line_string, rope_line_of, start_of_line};
use crate::search;
use crate::search::{replace_matches, Match, SearchState};
use crate::text;
use crate::text::{char_at_byte, push_char};

verus! {

/// What an editor tells the rest of the program.
#[derive(Debug, Clone, Copy, PartialEq, Eq, Structural)]
pub enum EditorEvent {
    Edited,
}

/// What a selection with the mouse is made of.
#[derive(Debug, Clone, Copy, PartialEq, Eq, Structural)]
pub enum SelectMode {
    Character,
    Word,
    Line,
}

/// A selection that is made with the mouse.
#[derive(Debug, Clone, Copy, PartialEq, Eq, Structural)]
pub struct MouseSelection {
    pub active: bool,
    pub mode: SelectMode,
    /// What the selection was started with.
    pub anchor_start: usize,
    pub anchor_end: usize,
}

/// An editor.
pub struct EditorView {
    pub buf: EditBuffer,
    pub lines: LineCache,
    pub search: SearchState,
    pub outline: Outline,
    pub overlay: OutlineOverlay,
    pub hover: HoverState,
    pub links: LinkState,
    pub completion: Option<CompletionMenu>,
    /// Whether the next text that is typed asks for no completions.
    pub completion_suppress_once: bool,
    pub mouse: MouseSelection,
    /// Whether the document is Markdown.
    pub markdown: bool,
    pub show_preview: bool,
    /// The occurrences of the word under the caret, and that word.
    pub word_occ: Vec<Match>,
    pub word_occ_key: Option<String>,
    pub flash_line: Option<usize>,
    pub last_scroll_line: usize,
}

/// What pressing enter does in a Markdown document.
#[derive(Debug)]
pub enum EnterAction {
    /// A list goes on with `insert`.
    ContinueList { insert: String },
    /// A list ends: the bytes of the line from `start` to `end` go.
    ExitList { start: usize, end: usize },
    Plain,
}

/// What a click leads to.
#[derive(Debug)]
pub enum MouseStep {
    Nothing,
    Selected,
    /// The definition of what is at the caret is to be requested.
    AskDefinition,
    Goto { location: Location },
}

/// What a move of the mouse leads to.
#[derive(Debug, Clone, Copy, PartialEq, Eq, Structural)]
pub enum MoveStep {
    Nothing,
    /// The popover is scrolled by its scroll bar.
    ScrollPopover,
    /// The selection in the popover goes to the mouse.
    SelectInPopover,
    /// The popover and the link under the mouse are to be looked after.
    Hover,
    /// The selection in the text goes to the mouse.
    Select,
}

/// A link in Markdown: `label` with `url`.
pub open spec fn markdown_link(label: Seq<char>, url: Seq<char>) -> Seq<char> {
    (seq!['['] + label + seq![']', '('] + url).push(')')
}

impl EditorView {
    /// The text of the document.
    pub open spec fn chars(self) -> Seq<char> {
        self.buf.chars()
    }

    /// Whether the parts of the editor fit its document.
    pub open spec fn wf(self) -> bool {
        self.buf.wf() && self.parts_wf()
    }

    /// Whether the parts of the editor fit its document, wherever the selection is.
    pub open spec fn parts_wf(self) -> bool {
        &&& self.lines.of(self.chars())
        &&& self.search.wf()
        &&& self.overlay.wf()
        &&& self.hover.wf()
        &&& self.completion matches Some(m) ==> m.wf()
    }

    /// An editor for a document, with the caret at its start.
    pub fn from_doc(doc: Document, outline: Outline, markdown: bool) -> (v: EditorView)
        ensures
            v.buf.doc == doc,
            v.buf.sel == (Selection { anchor: 0, head: 0, goal_col: 0 }),
            v.outline == outline,
            v.markdown == markdown,
            v.search.closed(),
            !v.overlay.open,
            v.overlay.input.empty(),
            v.overlay.hover is None,
            v.overlay.highlight is None,
            v.hover.nothing(),
            v.links.link is None,
            v.links.trigger is None,
            !v.links.pending,
            !v.links.cmd_held,
            v.completion is None,
            !v.completion_suppress_once,
            !v.mouse.active,
            v.mouse.mode == SelectMode::Character,
            v.mouse.anchor_start == 0,
            v.mouse.anchor_end == 0,
            !v.show_preview,
            v.word_occ@.len() == 0,
            v.word_occ_key is None,
            v.flash_line is None,
            v.last_scroll_line == 0,
            v.wf(),
    {
        let lines: LineCache = LineCache::build(&doc.rope);
        EditorView {
            buf: EditBuffer { doc, sel: Selection { anchor: 0, head: 0, goal_col: 0 } },
            lines,
            search: SearchState::new(),
            outline,
            overlay: OutlineOverlay::new(),
            hover: HoverState::new(),
            links: LinkState::new(),
            completion: None,
            completion_suppress_once: false,
            mouse: MouseSelection { active: false, mode: SelectMode::Character, anchor_start: 0, anchor_end: 0 },
            markdown,
            show_preview: false,
            word_occ: Vec::new(),
            word_occ_key: None,
            flash_line: None,
            last_scroll_line: 0,
        }
    }

    /// Whether the document is Markdown.
    pub fn is_markdown(&self) -> (b: bool)
        ensures
            b == self.markdown,
    {
        self.markdown
    }

    /// Brings the lines up to date with the document.
    pub fn rebuild_line_cache(&mut self)
        ensures
            final(self).lines.of(old(self).chars()),
            *final(self) == (EditorView { lines: final(self).lines, ..*old(self) }),
    {
        self.lines = LineCache::build(&self.buf.doc.rope);
    }

    /// Closes the hover popover. Says whether there was one.
    pub fn dismiss_hover(&mut self) -> (had_content: bool)
        ensures
            final(self).hover.nothing(),
            final(self).hover.wf(),
            *final(self) == (EditorView { hover: final(self).hover, ..*old(self) }),
            had_content == (old(self).hover.content is Some),
    {
        self.hover.dismiss_hover()
    }

    /// Closes the completion menu. Says whether there was one.
    pub fn dismiss_completion(&mut self) -> (had_menu: bool)
        ensures
            *final(self) == (EditorView { completion: None, ..*old(self) }),
            had_menu == (old(self).completion is Some),
    {
        let had_menu: bool = self.completion.is_some();
        self.completion = None;
        had_menu
    }

    /// Puts the ends of the selection that lie beyond the text at its end.
    pub fn clamp_sel(&mut self)
        ensures
            ({
                let len = old(self).chars().len();
                let sel = old(self).buf.sel;
                &&& final(self).buf.sel.head == if sel.head < len { sel.head as int } else { len as int }
                &&& final(self).buf.sel.anchor == if sel.anchor < len { sel.anchor as int } else { len as int }
                &&& final(self).buf.sel.goal_col == sel.goal_col
            }),
            final(self).buf.doc == old(self).buf.doc,
            *final(self) == (EditorView { buf: final(self).buf, ..*old(self) }),
            old(self).parts_wf() ==> final(self).wf(),
    {
        let len: usize = self.buf.doc.len_chars();
        let sel: Selection = self.buf.sel;
        self.buf.sel = Selection {
            anchor: if sel.anchor < len { sel.anchor } else { len },
            head: if sel.head < len { sel.head } else { len },
            goal_col: sel.goal_col,
        };
    }

    // ── Edits ─────────────────────────────────────────────────────────────────

    /// What an edit does besides changing the text: the popover and the link go, the completion
    /// menu follows the caret, the occurrences of a word are forgotten, and the lines are brought
    /// up to date. All else stays.
    pub open spec fn settled(self, after: EditorView) -> bool {
        &&& after.hover.nothing()
        &&& self.links.cleared(after.links)
        &&& match self.completion {
            Some(m) => completion_menu::refreshed(m, after.completion, after.chars(), after.buf.sel.head as int),
            None => after.completion is None,
        }
        &&& after.word_occ@.len() == 0
        &&& after.word_occ_key is None
        &&& after.lines.of(after.chars())
        &&& after == (EditorView {
            buf: after.buf,
            lines: after.lines,
            hover: after.hover,
            links: after.links,
            completion: after.completion,
            word_occ: after.word_occ,
            word_occ_key: after.word_occ_key,
            ..self
        })
    }

    /// Whether the completion menu can follow the caret.
    pub open spec fn menu_in_text(self) -> bool {
        self.completion matches Some(m) ==> m.wf() && (m.word_start <= self.buf.sel.head ==> m.word_start
            <= self.chars().len())
    }

    /// Does what every edit does besides changing the text. Matches of a search are to be looked
    /// for anew, and a Markdown document is to be parsed anew.
    pub fn after_edit(&mut self) -> (e: EditorEvent)
        requires
            old(self).menu_in_text(),
            old(self).search.wf(),
            old(self).overlay.wf(),
        ensures
            old(self).settled(*final(self)),
            final(self).buf == old(self).buf,
            final(self).parts_wf(),
            e == EditorEvent::Edited,
    {
        self.hover.dismiss_hover();
        self.links.clear_hovered_link();
        refresh_completion_filter_or_dismiss(&mut self.completion, &self.buf.doc.rope, self.buf.sel.head);
        self.word_occ = Vec::new();
        self.word_occ_key = None;
        self.lines = LineCache::build(&self.buf.doc.rope);
        EditorEvent::Edited
    }

    /// Types `text` in place of what is selected.
    pub fn insert_text(&mut self, text: &str) -> (inverse: Change)
        requires
            old(self).wf(),
        ensures
            old(self).buf.edited(
                final(self).buf,
                old(self).buf.sel.first(),
                old(self).buf.sel.last(),
                text@,
                old(self).buf.sel.first() + text@.len(),
            ),
            inverse.takes_back(old(self).chars(), old(self).buf.sel.first(), old(self).buf.sel.last(), text@),
            old(self).settled(*final(self)),
            final(self).wf(),
    {
        let inverse: Change = self.buf.insert_text(text);
        self.after_edit();
        inverse
    }

    /// Deletes what is selected, or the character before the caret.
    pub fn do_backspace(&mut self) -> (inverse: Option<Change>)
        requires
            old(self).wf(),
        ensures
            old(self).buf.deletes(
                final(self).buf,
                if old(self).buf.sel.head > 0 { old(self).buf.sel.head - 1 } else { 0 },
                old(self).buf.sel.head as int,
                inverse,
            ),
            old(self).settled(*final(self)),
            final(self).wf(),
    {
        let inverse: Option<Change> = self.buf.do_backspace();
        self.after_edit();
        inverse
    }

    /// Backspace: deletes, and gives what completion is to be requested for, where no menu is open
    /// and a word is left before the caret.
    pub fn on_backspace(&mut self) -> (r: (Option<Change>, InputStep))
        requires
            old(self).wf(),
        ensures
            ({
                let before = EditorView { completion_suppress_once: false, ..*old(self) };
                let head = before.buf.sel.head;
                &&& before.buf.deletes(final(self).buf, if head > 0 { head - 1 } else { 0 }, head as int, r.0)
                &&& before.settled(*final(self))
            }),
            completion_menu::reopens(final(self).completion, final(self).chars(), final(self).buf.sel.head as int, r.1),
            final(self).wf(),
    {
        self.completion_suppress_once = false;
        let inverse: Option<Change> = self.do_backspace();
        let step: InputStep = after_backspace(&self.completion, &self.buf.doc.rope, self.buf.sel.head);
        (inverse, step)
    }

    /// Deletes what is selected, or the character behind the caret.
    pub fn do_delete_fwd(&mut self) -> (inverse: Option<Change>)
        requires
            old(self).wf(),
        ensures
            old(self).buf.deletes(
                final(self).buf,
                old(self).buf.sel.head as int,
                if old(self).buf.sel.head < old(self).chars().len() {
                    old(self).buf.sel.head + 1
                } else {
                    old(self).buf.sel.head as int
                },
                inverse,
            ),
            old(self).settled(*final(self)),
            final(self).wf(),
    {
        let inverse: Option<Change> = self.buf.do_delete_fwd();
        self.after_edit();
        inverse
    }

    /// Deletes what is selected, or the word before the caret, which starts at `word_start`.
    pub fn do_delete_word_left(&mut self, word_start: usize) -> (inverse: Option<Change>)
        requires
            old(self).wf(),
        ensures
            old(self).buf.deletes(final(self).buf, word_start as int, old(self).buf.sel.head as int, inverse),
            old(self).settled(*final(self)),
            final(self).wf(),
    {
        let inverse: Option<Change> = self.buf.do_delete_word_left(word_start);
        self.after_edit();
        inverse
    }

    /// Deletes what is selected, or the word behind the caret, which ends at `word_end`.
    pub fn do_delete_word_right(&mut self, word_end: usize) -> (inverse: Option<Change>)
        requires
            old(self).wf(),
            word_end <= old(self).chars().len(),
        ensures
            old(self).buf.deletes(final(self).buf, old(self).buf.sel.head as int, word_end as int, inverse),
            old(self).settled(*final(self)),
            final(self).wf(),
    {
        let inverse: Option<Change> = self.buf.do_delete_word_right(word_end);
        self.after_edit();
        inverse
    }

    /// Deletes what is selected, or what stands on the line before the caret.
    pub fn do_delete_to_line_start(&mut self) -> (inverse: Option<Change>)
        requires
            old(self).wf(),
        ensures
            old(self).buf.deletes(
                final(self).buf,
                rope::line_start(old(self).chars(), old(self).buf.edit_line()),
                old(self).buf.sel.head as int,
                inverse,
            ),
            old(self).settled(*final(self)),
            final(self).wf(),
    {
        let inverse: Option<Change> = self.buf.do_delete_to_line_start();
        self.after_edit();
        inverse
    }

    /// Deletes what is selected, or what stands on the line behind the caret.
    pub fn do_delete_to_line_end(&mut self) -> (inverse: Option<Change>)
        requires
            old(self).wf(),
        ensures
            old(self).buf.deletes(
                final(self).buf,
                old(self).buf.sel.head as int,
                old(self).buf.content_end(old(self).buf.edit_line()),
                inverse,
            ),
            old(self).settled(*final(self)),
            final(self).wf(),
    {
        let inverse: Option<Change> = self.buf.do_delete_to_line_end();
        self.after_edit();
        inverse
    }

    /// Whether `after` is the editor without the line of the caret. An empty document has none to
    /// delete.
    pub open spec fn line_deleted(self, after: EditorView, inverse: Option<Change>) -> bool {
        if self.chars().len() == 0 {
            after == self && inverse is None
        } else {
            let (start, end) = self.buf.line_extent();
            &&& start < end
            &&& self.buf.edited(after.buf, start, end, Seq::empty(), start)
            &&& inverse is Some && inverse->0.takes_back(self.chars(), start, end, Seq::empty())
            &&& self.settled(after)
        }
    }

    /// Deletes the line of the caret.
    pub fn do_delete_line(&mut self) -> (inverse: Option<Change>)
        requires
            old(self).wf(),
        ensures
            old(self).line_deleted(*final(self), inverse),
            final(self).wf(),
    {
        let inverse: Option<Change> = self.buf.do_delete_line();
        if inverse.is_some() {
            self.after_edit();
        }
        inverse
    }

    /// Puts the caret at `pos`, or at the end of the text, after a change was taken back or made
    /// again. The lines may still be those of before.
    pub fn restore_caret(&mut self, pos: usize)
        requires
            old(self).search.wf(),
            old(self).overlay.wf(),
            old(self).completion matches Some(m) ==> m.wf(),
        ensures
            ({
                let len = old(self).chars().len();
                final(self).buf.sel.caret_at(old(self).chars(), if pos < len { pos as int } else { len as int })
            }),
            final(self).buf.doc == old(self).buf.doc,
            old(self).settled(*final(self)),
            final(self).wf(),
    {
        let len: usize = self.buf.doc.len_chars();
        self.buf.sel = Selection::collapsed(if pos < len { pos } else { len }, &self.buf.doc.rope);
        self.after_edit();
    }

    // ── Enter, clipboard, Markdown ────────────────────────────────────────────

    /// The line that enter is pressed on, and how far into it the caret is.
    pub fn enter_context(&self) -> (r: (String, usize))
        requires
            self.wf(),
        ensures
            r.0@ == rope::line_text(self.chars(), self.buf.edit_line()),
            r.1 == editing::on_char(self.chars(), self.buf.sel.head as int) - rope::line_start(
                self.chars(),
                self.buf.edit_line(),
            ),
    {
        let len: usize = self.buf.doc.len_chars();
        let head: usize = self.buf.sel.head;
        let pos: usize = if head < len { head } else if len > 0 { len - 1 } else { 0 };
        let line: usize = rope_line_of(&self.buf.doc.rope, pos);
        proof {
            rope::position_on_its_line(self.chars(), pos as int);
        }
        let start: usize = start_of_line(&self.buf.doc.rope, line);
        (line_string(&self.buf.doc.rope, line), pos - start)
    }

    /// The position of byte `b` of the line that an edit is about.
    pub open spec fn byte_on_line(self, b: int) -> int {
        let n = self.buf.edit_line();
        rope::line_start(self.chars(), n) + text::char_from(rope::line_text(self.chars(), n), b)
    }

    /// Whether the bytes from `start` to `end` are whole characters of the line that an edit is
    /// about.
    pub open spec fn bytes_on_line(self, start: int, end: int) -> bool {
        let s = rope::line_text(self.chars(), self.buf.edit_line());
        0 <= start <= end <= text::byte_count(s) && text::starts_char(s, start) && text::starts_char(s, end)
    }

    /// The positions of the bytes from `start` to `end` of the line that an edit is about.
    fn positions_on_line(&self, start: usize, end: usize) -> (r: (usize, usize))
        requires
            self.wf(),
            start <= end,
        ensures
            r.0 == self.byte_on_line(start as int),
            r.1 == self.byte_on_line(end as int),
            r.0 <= r.1 <= self.chars().len(),
    {
        let len: usize = self.buf.doc.len_chars();
        let head: usize = self.buf.sel.head;
        let pos: usize = if head < len { head } else if len > 0 { len - 1 } else { 0 };
        let line: usize = rope_line_of(&self.buf.doc.rope, pos);
        proof {
            rope::position_on_its_line(self.chars(), pos as int);
            rope::line_starts_ordered(self.chars(), line as int);
        }
        let from: usize = start_of_line(&self.buf.doc.rope, line);
        let s: String = line_string(&self.buf.doc.rope, line);
        let (a, _) = char_at_byte(s.as_str(), start);
        let (b, _) = char_at_byte(s.as_str(), end);
        proof {
            text::char_from_grows(s@, start as int, end as int);
        }
        (from + a, from + b)
    }

    /// What pressing enter does to the text.
    pub open spec fn entered(self, after: EditorView, action: EnterAction, inverse: Change) -> bool {
        let first = self.buf.sel.first();
        let last = self.buf.sel.last();
        match action {
            EnterAction::ContinueList { insert } if self.markdown => {
                &&& self.buf.edited(after.buf, first, last, insert@, first + insert@.len())
                &&& inverse.takes_back(self.chars(), first, last, insert@)
            },
            EnterAction::ExitList { start, end } if self.markdown => {
                let from = self.byte_on_line(start as int);
                let to = self.byte_on_line(end as int);
                &&& self.buf.edited(after.buf, from, to, seq!['\n'], from + 1)
                &&& inverse.takes_back(self.chars(), from, to, seq!['\n'])
            },
            _ => {
                &&& self.buf.edited(after.buf, first, last, seq!['\n'], first + 1)
                &&& inverse.takes_back(self.chars(), first, last, seq!['\n'])
            },
        }
    }

    /// Presses enter. In a Markdown document a list goes on, or ends, as `action` says.
    pub fn on_enter(&mut self, action: EnterAction) -> (inverse: Change)
        requires
            old(self).wf(),
            action matches EnterAction::ExitList { start, end } ==> old(self).bytes_on_line(start as int, end as int),
        ensures
            old(self).entered(*final(self), action, inverse),
            old(self).settled(*final(self)),
            final(self).wf(),
    {
        proof {
            reveal_strlit("\n");
            assert("\n"@ =~= seq!['\n']);
        }
        if self.markdown {
            match action {
                EnterAction::ContinueList { insert } => {
                    return self.insert_text(insert.as_str());
                },
                EnterAction::ExitList { start, end } => {
                    let (from, to): (usize, usize) = self.positions_on_line(start, end);
                    let inverse: Change = self.buf.replace_range(from, to, "\n");
                    self.after_edit();
                    return inverse;
                },
                EnterAction::Plain => {},
            }
        }
        self.insert_text("\n")
    }

    /// What is copied: what is selected in the popover, or else in the text.
    pub fn on_copy(&self) -> (r: Option<String>)
        requires
            self.wf(),
        ensures
            ({
                let in_popover = hover_popover::selection_text(
                    self.hover.segments@,
                    self.hover.selection->0,
                    self.hover.segments@.len() as int,
                );
                if hover_state::has_extent(self.hover.selection) && in_popover.len() > 0 {
                    r is Some && r->0@ == in_popover
                } else if self.buf.no_selection() {
                    r is None
                } else {
                    r is Some && r->0@ == self.chars().subrange(self.buf.sel.first(), self.buf.sel.last())
                }
            }),
    {
        match self.hover.selected() {
            Some(t) => Some(t),
            None => {
                if self.buf.sel.is_empty() {
                    return None;
                }
                Some(self.buf.doc.text_in(self.buf.sel.start(), self.buf.sel.end()))
            },
        }
    }

    /// Cuts what is selected. Without a selection nothing happens.
    pub fn on_cut(&mut self) -> (r: Option<(String, Option<Change>)>)
        requires
            old(self).wf(),
        ensures
            if old(self).buf.no_selection() {
                *final(self) == *old(self) && r is None
            } else {
                &&& r is Some
                &&& (r->0).0@ == old(self).chars().subrange(old(self).buf.sel.first(), old(self).buf.sel.last())
                &&& old(self).buf.deletes(final(self).buf, 0, 0, (r->0).1)
                &&& old(self).settled(*final(self))
            },
            final(self).wf(),
    {
        if self.buf.sel.is_empty() {
            return None;
        }
        let t: String = self.buf.doc.text_in(self.buf.sel.start(), self.buf.sel.end());
        let inverse: Option<Change> = self.buf.do_backspace();
        self.after_edit();
        Some((t, inverse))
    }

    /// What pasting `clip` types: in a Markdown document, a URL becomes the target of a link
    /// whose label is what is selected.
    pub open spec fn pasted(self, clip: Seq<char>, is_url: bool) -> Seq<char> {
        if self.markdown && !self.buf.no_selection() && is_url {
            markdown_link(self.chars().subrange(self.buf.sel.first(), self.buf.sel.last()), clip)
        } else {
            clip
        }
    }

    /// Pastes `clip`. `is_url` says whether it looks like a URL.
    pub fn on_paste(&mut self, clip: &str, is_url: bool) -> (inverse: Change)
        requires
            old(self).wf(),
        ensures
            ({
                let t = old(self).pasted(clip@, is_url);
                let first = old(self).buf.sel.first();
                &&& old(self).buf.edited(final(self).buf, first, old(self).buf.sel.last(), t, first + t.len())
                &&& inverse.takes_back(old(self).chars(), first, old(self).buf.sel.last(), t)
            }),
            old(self).settled(*final(self)),
            final(self).wf(),
    {
        if self.markdown && !self.buf.sel.is_empty() && is_url {
            let label: String = self.buf.doc.text_in(self.buf.sel.start(), self.buf.sel.end());
            let mut linked: String = String::new();
            push_char(&mut linked, '[');
            linked.append(label.as_str());
            push_char(&mut linked, ']');
            push_char(&mut linked, '(');
            linked.append(clip);
            push_char(&mut linked, ')');
            assert(linked@ =~= markdown_link(label@, clip@));
            return self.insert_text(linked.as_str());
        }
        self.insert_text(clip)
    }

    /// Puts `wrapped`, which is what is selected in bold or italics, in place of what is selected.
    /// Without a selection nothing happens.
    pub fn wrap_selection(&mut self, wrapped: &str) -> (inverse: Option<Change>)
        requires
            old(self).wf(),
        ensures
            if old(self).buf.no_selection() {
                *final(self) == *old(self) && inverse is None
            } else {
                let first = old(self).buf.sel.first();
                &&& old(self).buf.edited(
                    final(self).buf,
                    first,
                    old(self).buf.sel.last(),
                    wrapped@,
                    first + wrapped@.len(),
                )
                &&& inverse is Some && inverse->0.takes_back(
                    old(self).chars(),
                    first,
                    old(self).buf.sel.last(),
                    wrapped@,
                )
                &&& old(self).settled(*final(self))
            },
            final(self).wf(),
    {
        if self.buf.sel.is_empty() {
            return None;
        }
        Some(self.insert_text(wrapped))
    }

    /// Puts `replacement` in place of the bytes from `start` to `end` of the line of the caret,
    /// which are a checkbox. The caret stays.
    pub fn on_toggle_checkbox(&mut self, start: usize, end: usize, replacement: &str) -> (inverse: Change)
        requires
            old(self).wf(),
            old(self).bytes_on_line(start as int, end as int),
            old(self).buf.sel.head <= document::replaced(
                old(self).chars(),
                old(self).byte_on_line(start as int),
                old(self).byte_on_line(end as int),
                replacement@,
            ).len(),
        ensures
            ({
                let from = old(self).byte_on_line(start as int);
                let to = old(self).byte_on_line(end as int);
                &&& old(self).buf.edited(final(self).buf, from, to, replacement@, old(self).buf.sel.head as int)
                &&& inverse.takes_back(old(self).chars(), from, to, replacement@)
            }),
            old(self).settled(*final(self)),
            final(self).wf(),
    {
        let head: usize = self.buf.sel.head;
        let (from, to): (usize, usize) = self.positions_on_line(start, end);
        let inverse: Change = self.buf.doc.replace(from, to, replacement);
        self.buf.sel = Selection::collapsed(head, &self.buf.doc.rope);
        self.after_edit();
        inverse
    }

    // ── Replacing matches ─────────────────────────────────────────────────────

    /// Replaces the current match. The caret ends up behind the replacement.
    pub fn do_replace_one(&mut self) -> (inverse: Option<Change>)
        requires
            old(self).wf(),
            old(self).search.matches@.len() > 0 ==> ({
                let m = old(self).search.matches@[old(self).search.match_idx as int];
                m.start <= m.end <= old(self).chars().len()
            }),
        ensures
            if old(self).search.matches@.len() == 0 {
                *final(self) == *old(self) && inverse is None
            } else {
                let m = old(self).search.matches@[old(self).search.match_idx as int];
                let t = old(self).search.replace.text@;
                &&& old(self).buf.edited(final(self).buf, m.start as int, m.end as int, t, m.start + t.len())
                &&& inverse is Some && inverse->0.takes_back(old(self).chars(), m.start as int, m.end as int, t)
                &&& old(self).settled(*final(self))
            },
            final(self).wf(),
    {
        if self.search.matches.len() == 0 {
            return None;
        }
        let m: Match = self.search.matches[self.search.match_idx];
        let inverse: Change = self.buf.replace_range(m.start, m.end, self.search.replace.text.as_str());
        self.after_edit();
        Some(inverse)
    }

    /// Replaces every match. There are no matches then; the place of the current one is kept for
    /// those that are found next. The selection stays where it was, even where the text has become
    /// too short for it.
    pub fn do_replace_all(&mut self) -> (inverse: Option<Change>)
        requires
            old(self).parts_wf(),
            search::in_order(old(self).search.matches@, old(self).chars().len() as int),
            old(self).completion matches Some(m) ==> (m.word_start <= old(self).buf.sel.head ==> m.word_start
                <= search::all_replaced(
                old(self).chars(),
                old(self).search.matches@,
                old(self).search.replace.text@,
            ).len()),
        ensures
            if old(self).search.matches@.len() == 0 {
                *final(self) == *old(self) && inverse is None
            } else {
                &&& final(self).chars() == search::all_replaced(
                    old(self).chars(),
                    old(self).search.matches@,
                    old(self).search.replace.text@,
                )
                &&& final(self).buf.sel == old(self).buf.sel
                &&& final(self).buf.doc.path == old(self).buf.doc.path
                &&& final(self).buf.doc.dirty
                &&& inverse is Some && inverse->0.takes_back(
                    old(self).chars(),
                    old(self).search.matches@[0].start as int,
                    old(self).search.matches@.last().end as int,
                    search::between_replaced(
                        old(self).chars(),
                        old(self).search.matches@,
                        old(self).search.replace.text@,
                        old(self).search.matches@.len() as int,
                    ),
                )
                &&& final(self).search.matches@.len() == 0
                &&& final(self).search.match_idx == old(self).search.match_idx
                &&& (EditorView {
                    search: SearchState { matches: final(self).search.matches, ..old(self).search },
                    ..*old(self)
                }).settled(*final(self))
            },
            final(self).parts_wf(),
    {
        if self.search.matches.len() == 0 {
            return None;
        }
        let inverse: Option<Change> = replace_matches(
            &mut self.buf.doc,
            self.search.matches.as_slice(),
            self.search.replace.text.as_str(),
        );
        self.search.matches = Vec::new();
        self.after_edit();
        inverse
    }

    /// Puts an accepted completion into the text. The next text that is typed asks for no
    /// completions.
    pub fn accept_completion(&mut self, accepted: &Accepted, start: Option<usize>, end: Option<usize>, text: &str) -> (inverse:
        Change)
        requires
            old(self).wf(),
            ({
                let (from, to) = accepted.extent(old(self).buf.sel.head, start, end);
                from <= to <= old(self).chars().len()
            }),
        ensures
            ({
                let (from, to) = accepted.extent(old(self).buf.sel.head, start, end);
                &&& old(self).buf.edited(final(self).buf, from as int, to as int, text@, from + text@.len())
                &&& inverse.takes_back(old(self).chars(), from as int, to as int, text@)
            }),
            (EditorView { completion_suppress_once: true, ..*old(self) }).settled(*final(self)),
            final(self).wf(),
    {
        let inverse: Change = accepted.insert(&mut self.buf, start, end, text);
        self.completion_suppress_once = true;
        self.after_edit();
        inverse
    }

    // ── The mouse ─────────────────────────────────────────────────────────────

    /// The selection that a click at `offset` makes. `unit` is the word or the line there.
    pub open spec fn clicked(self, offset: usize, clicks: usize, shift: bool, unit: Selection, after: Selection) -> bool {
        if clicks >= 2 {
            after == unit
        } else if shift {
            &&& after.anchor == self.buf.sel.anchor
            &&& after.head == offset
            &&& after.goal_col == rope::column_of(self.chars(), offset as int)
        } else {
            after.caret_at(self.chars(), offset as int)
        }
    }

    /// What a selection that starts with a click is made of.
    pub open spec fn click_anchor(self, offset: usize, clicks: usize, shift: bool, unit: Selection) -> MouseSelection {
        if clicks >= 2 {
            MouseSelection {
                active: true,
                mode: if clicks == 2 { SelectMode::Word } else { SelectMode::Line },
                anchor_start: unit.anchor,
                anchor_end: unit.head,
            }
        } else if shift {
            MouseSelection { active: true, mode: SelectMode::Character, ..self.mouse }
        } else {
            MouseSelection { active: true, mode: SelectMode::Character, anchor_start: offset, anchor_end: offset }
        }
    }

    /// The mouse button goes down over position `offset` of the text. Popover and menu go. With
    /// the platform key, a click goes to the definition; otherwise it selects: two clicks the
    /// word, more the line, which is `unit`.
    pub fn on_mouse_down(&mut self, offset: Option<usize>, clicks: usize, shift: bool, platform: bool, unit: Selection) -> (step:
        MouseStep)
        requires
            old(self).wf(),
            offset matches Some(o) ==> o <= old(self).chars().len(),
            unit.within(old(self).chars()),
        ensures
            final(self).wf(),
            final(self).hover.nothing(),
            final(self).completion is None,
            final(self).buf.doc == old(self).buf.doc,
            *final(self) == (EditorView {
                buf: final(self).buf,
                hover: final(self).hover,
                completion: None,
                mouse: final(self).mouse,
                last_scroll_line: final(self).last_scroll_line,
                ..*old(self)
            }),
            match offset {
                None => {
                    &&& final(self).buf == old(self).buf
                    &&& final(self).mouse == old(self).mouse
                    &&& final(self).last_scroll_line == old(self).last_scroll_line
                    &&& step is Nothing
                },
                Some(o) => if clicks == 1 && platform && !shift {
                    &&& final(self).buf.sel.caret_at(old(self).chars(), o as int)
                    &&& final(self).mouse == old(self).mouse
                    &&& final(self).last_scroll_line == old(self).last_scroll_line
                    &&& match step {
                        MouseStep::Goto { location } => {
                            &&& old(self).links.link matches Some(l)
                            &&& hover_state::holds(l.symbol_range, o)
                            &&& l.locations@.len() > 0
                            &&& location == l.locations@[0]
                        },
                        MouseStep::Nothing => {
                            &&& old(self).links.link matches Some(l)
                            &&& hover_state::holds(l.symbol_range, o)
                            &&& l.locations@.len() == 0
                        },
                        MouseStep::AskDefinition => !(old(self).links.link matches Some(l) && hover_state::holds(
                            l.symbol_range,
                            o,
                        )),
                        MouseStep::Selected => false,
                    }
                } else {
                    &&& old(self).clicked(o, clicks, shift, unit, final(self).buf.sel)
                    &&& final(self).mouse == old(self).click_anchor(o, clicks, shift, unit)
                    &&& final(self).last_scroll_line == rope::line_of(old(self).chars(), editing::on_char(old(self).chars(), o as int))
                    &&& step is Selected
                },
            },
    {
        self.hover.dismiss_hover();
        self.completion = None;
        let o: usize = match offset {
            Some(o) => o,
            None => return MouseStep::Nothing,
        };
        if clicks == 1 && platform && !shift {
            self.buf.sel = Selection::collapsed(o, &self.buf.doc.rope);
            return match self.links.known_definition(o) {
                Some(Some(location)) => MouseStep::Goto { location },
                Some(None) => MouseStep::Nothing,
                None => MouseStep::AskDefinition,
            };
        }
        if clicks >= 2 {
            self.buf.sel = unit;
            self.mouse = MouseSelection {
                active: true,
                mode: if clicks == 2 { SelectMode::Word } else { SelectMode::Line },
                anchor_start: unit.anchor,
                anchor_end: unit.head,
            };
        } else if shift {
            let goal_col: usize = col_of(&self.buf.doc.rope, o);
            self.buf.sel = Selection { anchor: self.buf.sel.anchor, head: o, goal_col };
            self.mouse = MouseSelection {
                active: true,
                mode: SelectMode::Character,
                anchor_start: self.mouse.anchor_start,
                anchor_end: self.mouse.anchor_end,
            };
        } else {
            self.buf.sel = Selection::collapsed(o, &self.buf.doc.rope);
            self.mouse = MouseSelection { active: true, mode: SelectMode::Character, anchor_start: o, anchor_end: o };
        }
        let len: usize = self.buf.doc.len_chars();
        let pos: usize = if o < len { o } else if len > 0 { len - 1 } else { 0 };
        self.last_scroll_line = rope_line_of(&self.buf.doc.rope, pos);
        MouseStep::Selected
    }

    /// The selection once the mouse has been dragged to `offset`. `unit` is the word or the line
    /// there. What the selection started with stays selected.
    pub open spec fn dragged(self, offset: usize, unit: Selection, after: Selection) -> bool {
        if self.mouse.mode == SelectMode::Character {
            &&& after.anchor == self.buf.sel.anchor
            &&& after.head == offset
            &&& after.goal_col == rope::column_of(self.chars(), offset as int)
        } else if offset <= self.mouse.anchor_start {
            &&& after.anchor == self.mouse.anchor_end
            &&& after.head == unit.anchor
            &&& after.goal_col == rope::column_of(self.chars(), unit.anchor as int)
        } else {
            &&& after.anchor == self.mouse.anchor_start
            &&& after.head == unit.head
            &&& after.goal_col == rope::column_of(self.chars(), unit.head as int)
        }
    }

    /// The mouse moves over the text, with the platform key down or not, and with its button down
    /// or not. `scrolling` says whether it holds the scroll bar of the popover. A drag that
    /// started in the popover goes on outside it.
    pub fn on_mouse_move(&mut self, platform: bool, dragging: bool, scrolling: bool) -> (step: MoveStep)
        ensures
            *final(self) == (EditorView {
                links: LinkState { cmd_held: platform, ..old(self).links },
                ..*old(self)
            }),
            step == if scrolling {
                MoveStep::ScrollPopover
            } else if old(self).hover.selecting {
                MoveStep::SelectInPopover
            } else if !dragging {
                MoveStep::Hover
            } else if old(self).mouse.active {
                MoveStep::Select
            } else {
                MoveStep::Nothing
            },
    {
        self.links.cmd_held = platform;
        if scrolling {
            MoveStep::ScrollPopover
        } else if self.hover.selecting {
            MoveStep::SelectInPopover
        } else if !dragging {
            MoveStep::Hover
        } else if self.mouse.active {
            MoveStep::Select
        } else {
            MoveStep::Nothing
        }
    }

    /// The mouse is dragged to position `offset` of the text.
    pub fn on_mouse_drag(&mut self, offset: usize, unit: Selection)
        requires
            old(self).wf(),
            offset <= old(self).chars().len(),
            unit.within(old(self).chars()),
            old(self).mouse.anchor_start <= old(self).chars().len(),
            old(self).mouse.anchor_end <= old(self).chars().len(),
        ensures
            final(self).wf(),
            if old(self).mouse.active {
                &&& old(self).dragged(offset, unit, final(self).buf.sel)
                &&& final(self).buf.doc == old(self).buf.doc
                &&& *final(self) == (EditorView { buf: final(self).buf, ..*old(self) })
            } else {
                *final(self) == *old(self)
            },
    {
        if !self.mouse.active {
            return;
        }
        let (anchor, head): (usize, usize) = match self.mouse.mode {
            SelectMode::Character => (self.buf.sel.anchor, offset),
            _ => if offset <= self.mouse.anchor_start {
                (self.mouse.anchor_end, unit.anchor)
            } else {
                (self.mouse.anchor_start, unit.head)
            },
        };
        let goal_col: usize = col_of(&self.buf.doc.rope, head);
        self.buf.sel = Selection { anchor, head, goal_col };
    }

    /// The mouse button comes up. Selections in the text and in the popover are done.
    pub fn on_mouse_up(&mut self)
        requires
            old(self).wf(),
        ensures
            final(self).wf(),
            final(self).mouse == (MouseSelection { active: false, ..old(self).mouse }),
            final(self).hover == (HoverState {
                selecting: false,
                selection: if old(self).hover.selecting && !hover_state::has_extent(old(self).hover.selection) {
                    None
                } else {
                    old(self).hover.selection
                },
                ..old(self).hover
            }),
            *final(self) == (EditorView { mouse: final(self).mouse, hover: final(self).hover, ..*old(self) }),
    {
        self.hover.release_outside();
        self.mouse = MouseSelection {
            active: false,
            mode: self.mouse.mode,
            anchor_start: self.mouse.anchor_start,
            anchor_end: self.mouse.anchor_end,
        };
    }

    // ── Going to places ───────────────────────────────────────────────────────

    /// Where a location on `line` is in the text; a line that there is not is the end.
    pub open spec fn location_offset(self, line: int, character: int) -> int {
        if line < rope::line_count(self.chars()) {
            rope::line_start(self.chars(), line) + character
        } else if self.chars().len() > 0 {
            self.chars().len() - 1
        } else {
            0
        }
    }

    /// Goes to a location in this document, and marks its line. A location in another file
    /// changes nothing here. Says whether it was in this one.
    pub fn goto_location(&mut self, target: &Location) -> (here: bool)
        requires
            old(self).parts_wf(),
            old(self).location_offset(target.line as int, target.character as int) <= usize::MAX,
        ensures
            here == paths::one_file(paths::path_of(old(self).buf.doc.path@), target.path),
            !here ==> *final(self) == *old(self),
            here ==> {
                let at = old(self).location_offset(target.line as int, target.character as int);
                &&& final(self).buf.sel.anchor == at
                &&& final(self).buf.sel.head == at
                &&& final(self).buf.sel.goal_col == old(self).buf.sel.goal_col
                &&& final(self).buf.doc == old(self).buf.doc
                &&& *final(self) == (EditorView {
                    buf: final(self).buf,
                    flash_line: Some(target.line),
                    ..*old(self)
                })
            },
            final(self).parts_wf(),
    {
        if !is_one_file(&path_from(self.buf.doc.path.as_str()), &target.path) {
            return false;
        }
        let len: usize = self.buf.doc.len_chars();
        let at: usize = if target.line < self.lines.line_starts.len() {
            self.lines.line_starts[target.line] + target.character
        } else if len > 0 {
            len - 1
        } else {
            0
        };
        self.buf.sel = Selection { anchor: at, head: at, goal_col: self.buf.sel.goal_col };
        self.flash_line = Some(target.line);
        true
    }

    /// The line of the caret, or of the last character where the caret is at the end or beyond.
    pub fn cursor_line(&self) -> (n: usize)
        ensures
            n == self.buf.edit_line(),
    {
        let len: usize = self.buf.doc.len_chars();
        let head: usize = self.buf.sel.head;
        let pos: usize = if head < len { head } else if len > 0 { len - 1 } else { 0 };
        rope_line_of(&self.buf.doc.rope, pos)
    }

    /// The line to scroll to where the caret has moved to another one since the last time.
    pub fn follow_caret(&mut self) -> (scroll_to: Option<usize>)
        ensures
            ({
                let line = old(self).buf.edit_line() as usize;
                if line != old(self).last_scroll_line {
                    &&& scroll_to == Some(line)
                    &&& *final(self) == (EditorView { last_scroll_line: line, ..*old(self) })
                } else {
                    scroll_to is None && *final(self) == *old(self)
                }
            }),
    {
        let line: usize = self.cursor_line();
        if line == self.last_scroll_line {
            return None;
        }
        self.last_scroll_line = line;
        Some(line)
    }

    /// Shows or hides the preview of a Markdown document. Other documents have none. Gives the
    /// line that a preview that comes up is to start with.
    pub fn on_toggle_preview(&mut self) -> (r: Option<Option<usize>>)
        ensures
            if !old(self).markdown {
                *final(self) == *old(self) && r is None
            } else {
                &&& *final(self) == (EditorView { show_preview: !old(self).show_preview, ..*old(self) })
                &&& r == if old(self).show_preview {
                    Some(None)
                } else {
                    Some(Some(old(self).buf.edit_line() as usize))
                }
            },
    {
        if !self.markdown {
            return None;
        }
        self.show_preview = !self.show_preview;
        if self.show_preview { Some(Some(self.cursor_line())) } else { Some(None) }
    }
}

} // verus!
