//! What an editor shows: its header, its parts, and the word and brackets at its caret.
use vstd::prelude::*;

use crate::buffer_view;
use crate::buffer_view::{char_col_to_byte_col, token_color, ColorRole};
use crate::editor_logic;
use crate::editor_logic::{breadcrumb_stack, context_to_token};
use crate::editor_view::EditorView;
use crate::hover_state::LinkState;
use crate::line_cache;
use crate::locations;
use crate::locations::path_to_uri;
use crate::markdown::{HighlightSpan, OutlineItem, SyntaxToken};
use crate::paths;
use crate::paths::document_label;
use crate::rope;
use crate::rope::{rope_line_count, start_of_line};
use crate::search::{FindQuery, Match};
use crate::text::{byte_len, same_text};

verus! {

/// How many blank rows follow the last line.
pub const TRAILING_BLANK_LINES: usize = 6;

/// The symbol of the button that shows a preview.
#[derive(Debug, Clone, Copy, PartialEq, Eq, Structural)]
pub enum PreviewIcon {
    Code,
    Visibility,
}

/// An entry of the outline that the first visible line is in.
#[derive(Debug)]
pub struct Crumb {
    pub name: String,
    pub color: ColorRole,
}

/// What the header of an editor shows.
#[derive(Debug)]
pub struct HeaderView {
    pub path_label: String,
    pub path_color: ColorRole,
    pub crumbs: Vec<Crumb>,
    /// Whether a click opens or closes the outline.
    pub can_open_outline: bool,
    pub outline_active: bool,
    pub search_color: ColorRole,
    /// The button that shows a preview, where there is one.
    pub preview: Option<(PreviewIcon, ColorRole)>,
}

/// The parts of an editor that are shown.
#[derive(Debug, Clone, Copy, PartialEq, Eq, Structural)]
pub struct FrameParts {
    pub search_bar: bool,
    pub split: bool,
    pub outline: bool,
    pub hover: bool,
    pub completion: bool,
}

/// What a change of the modifier keys leads to.
#[derive(Debug, Clone, Copy, PartialEq, Eq, Structural)]
pub enum ModifierStep {
    Nothing,
    /// What is under the mouse is to be looked at again.
    LookAgain,
    Cleared,
}

/// The color of an entry of the outline.
pub open spec fn crumb_color(item: OutlineItem) -> ColorRole {
    let token = match item.context {
        Some(c) => editor_logic::token_of_context(c@),
        None => None,
    };
    match token {
        Some(t) => ColorRole::Syntax(t),
        None => ColorRole::Text,
    }
}

/// Whether `crumb` shows `item`.
pub open spec fn shows(crumb: Crumb, item: OutlineItem) -> bool {
    crumb.name@ == item.name@ && crumb.color == crumb_color(item)
}

/// Whether `crumbs` shows the entries that enclose `top_line`, outermost first.
pub open spec fn shows_path(items: Seq<OutlineItem>, top_line: int, crumbs: Seq<Crumb>) -> bool {
    exists|n: int, ix: Seq<int>|
        #![trigger editor_logic::breadcrumb(items, n, ix)]
        editor_logic::leads(items, top_line, n) && editor_logic::breadcrumb(items, n, ix) && crumbs.len() == ix.len()
            && forall|k: int| 0 <= k < ix.len() ==> shows(#[trigger] crumbs[k], items[ix[k]])
}

/// An entry of the outline as it is shown.
fn crumb(item: &OutlineItem) -> (c: Crumb)
    ensures
        shows(c, *item),
{
    let context: Option<&str> = match &item.context {
        Some(c) => Some(c.as_str()),
        None => None,
    };
    let color: ColorRole = match context_to_token(context) {
        Some(t) => token_color(t),
        None => ColorRole::Text,
    };
    Crumb { name: item.name.clone(), color }
}

/// Whether the byte `at` of a line of `len` bytes is in a comment.
pub open spec fn in_comment(spans: Seq<HighlightSpan>, len: int, at: int) -> bool {
    exists|i: int|
        0 <= i < spans.len() && (#[trigger] spans[i]).token == SyntaxToken::Comment && spans[i].start_byte_col <= at < if spans[i].end_byte_col
            == u32::MAX {
            len
        } else {
            spans[i].end_byte_col as int
        }
}

/// Whether the byte `at` of a line of `len` bytes is in a comment.
fn is_in_comment(spans: &[HighlightSpan], len: usize, at: usize) -> (b: bool)
    ensures
        b == in_comment(spans@, len as int, at as int),
{
    let mut i: usize = 0;
    while i < spans.len()
        invariant
            i <= spans@.len(),
            !in_comment(spans@.take(i as int), len as int, at as int),
        decreases spans@.len() - i,
    {
        let s: HighlightSpan = spans[i];
        let end: usize = if s.end_byte_col == u32::MAX { len } else { s.end_byte_col as usize };
        if s.token == SyntaxToken::Comment && s.start_byte_col as usize <= at && at < end {
            assert(spans@[i as int].token == SyntaxToken::Comment);
            return true;
        }
        assert(!in_comment(spans@.take(i + 1), len as int, at as int)) by {
            let longer = spans@.take(i + 1);
            if in_comment(longer, len as int, at as int) {
                let k = choose|k: int|
                    0 <= k < longer.len() && (#[trigger] longer[k]).token == SyntaxToken::Comment && longer[k].start_byte_col <= at
                        < if longer[k].end_byte_col == u32::MAX {
                        len as int
                    } else {
                        longer[k].end_byte_col as int
                    };
                if k < i {
                    assert(spans@.take(i as int)[k] == longer[k]);
                }
            }
        }
        i = i + 1;
    }
    assert(spans@.take(i as int) =~= spans@);
    false
}

impl EditorView {
    /// The key context: which shortcuts hold.
    pub open spec fn context(self) -> Seq<char> {
        if self.overlay.open {
            "OutlineOverlay"@
        } else if self.completion is Some && self.markdown {
            "Editor markdown showing_completions"@
        } else if self.completion is Some {
            "Editor showing_completions"@
        } else if self.markdown {
            "Editor markdown"@
        } else {
            "Editor"@
        }
    }

    /// The key context: which shortcuts hold.
    pub fn key_context(&self) -> (c: &'static str)
        ensures
            c@ == self.context(),
    {
        if self.overlay.open {
            "OutlineOverlay"
        } else if self.completion.is_some() && self.markdown {
            "Editor markdown showing_completions"
        } else if self.completion.is_some() {
            "Editor showing_completions"
        } else if self.markdown {
            "Editor markdown"
        } else {
            "Editor"
        }
    }

    /// The parts that are shown: beside a preview there are no popovers.
    pub fn frame_parts(&self) -> (p: FrameParts)
        ensures
            p == (FrameParts {
                search_bar: self.search.show_search,
                split: self.show_preview,
                outline: self.overlay.open,
                hover: !self.show_preview && self.hover.content is Some,
                completion: !self.show_preview && self.completion is Some,
            }),
    {
        FrameParts {
            search_bar: self.search.show_search,
            split: self.show_preview,
            outline: self.overlay.open,
            hover: !self.show_preview && self.hover.content.is_some(),
            completion: !self.show_preview && self.completion.is_some(),
        }
    }

    /// Whether `h` is the header while `top_line` is the first visible line and `label` names the
    /// document.
    pub open spec fn header_shown(self, h: HeaderView, label: Seq<char>, top_line: int) -> bool {
        let outlined = self.outline.items@.len() > 0;
        &&& h.path_label@ == label
        &&& h.path_color == if outlined { ColorRole::Text } else { ColorRole::TextSubtle }
        &&& shows_path(self.outline.items@, top_line, h.crumbs@)
        &&& h.can_open_outline == outlined
        &&& h.outline_active == self.overlay.open
        &&& h.search_color == if self.search.show_search { ColorRole::Accent } else { ColorRole::TextSubtle }
        &&& h.preview == if !self.markdown {
            None
        } else if self.show_preview {
            Some((PreviewIcon::Code, ColorRole::Accent))
        } else {
            Some((PreviewIcon::Visibility, ColorRole::TextSubtle))
        }
    }

    /// The header while `top_line` is the first visible line and `label` names the document.
    pub fn header_with(&self, label: String, top_line: usize) -> (h: HeaderView)
        ensures
            self.header_shown(h, label@, top_line as int),
    {
        let outlined: bool = self.outline.items.len() > 0;
        let crumbs: Vec<Crumb> = self.crumbs(top_line);
        HeaderView {
            path_label: label,
            path_color: if outlined { ColorRole::Text } else { ColorRole::TextSubtle },
            crumbs,
            can_open_outline: outlined,
            outline_active: self.overlay.open,
            search_color: if self.search.show_search { ColorRole::Accent } else { ColorRole::TextSubtle },
            preview: if !self.markdown {
                None
            } else if self.show_preview {
                Some((PreviewIcon::Code, ColorRole::Accent))
            } else {
                Some((PreviewIcon::Visibility, ColorRole::TextSubtle))
            },
        }
    }

    /// The entries of the outline that enclose `top_line`.
    fn crumbs(&self, top_line: usize) -> (r: Vec<Crumb>)
        ensures
            shows_path(self.outline.items@, top_line as int, r@),
    {
        let stack: Vec<&OutlineItem> = breadcrumb_stack(&self.outline, top_line);
        let mut r: Vec<Crumb> = Vec::new();
        let mut k: usize = 0;
        while k < stack.len()
            invariant
                k <= stack@.len(),
                r@.len() == k,
                forall|j: int| 0 <= j < k ==> shows(#[trigger] r@[j], *stack@[j]),
            decreases stack@.len() - k,
        {
            r.push(crumb(stack[k]));
            k = k + 1;
        }
        proof {
            let items = self.outline.items@;
            let (n, ix) = choose|n: int, ix: Seq<int>|
                #![trigger editor_logic::breadcrumb(items, n, ix)]
                editor_logic::leads(items, top_line as int, n) && editor_logic::breadcrumb(items, n, ix) && stack@.len()
                    == ix.len() && forall|k: int| 0 <= k < ix.len() ==> *(#[trigger] stack@[k]) == items[ix[k]];
            assert(editor_logic::breadcrumb(items, n, ix));
            assert forall|k: int| 0 <= k < ix.len() implies shows(#[trigger] r@[k], items[ix[k]]) by {
                assert(*stack@[k] == items[ix[k]]);
            }
        }
        r
    }

    /// The header while `top_line` is the first visible line, in the project at `root`. `untitled`
    /// names a document that was never saved.
    pub fn header(&self, root: Option<&str>, untitled: &str, top_line: usize) -> (h: HeaderView)
        ensures
            ({
                let path = self.buf.doc.path@;
                let relative = match root {
                    Some(r) => paths::relative_path_of(path, r@),
                    None => None,
                };
                self.header_shown(
                    h,
                    if path.len() == 0 {
                        untitled@
                    } else {
                        paths::path_label(path, root is Some, relative, paths::file_name_of(path))
                    },
                    top_line as int,
                )
            }),
    {
        let label: String = if self.buf.doc.path.as_str().is_empty() {
            untitled.to_owned()
        } else {
            document_label(self.buf.doc.path.as_str(), root)
        };
        self.header_with(label, top_line)
    }

    /// The URI of the document, if it has one: what a language server knows it by.
    pub fn document_uri(&self) -> (uri: Option<String>)
        ensures
            paths::text_view(uri) == locations::file_uri_of(self.buf.doc.path@),
    {
        path_to_uri(self.buf.doc.path.as_str())
    }

    /// How many rows the text has, with the blank ones behind it.
    pub fn row_count(&self) -> (n: usize)
        requires
            rope::line_count(self.chars()) + TRAILING_BLANK_LINES <= usize::MAX,
        ensures
            n == rope::line_count(self.chars()) + TRAILING_BLANK_LINES,
    {
        rope_line_count(&self.buf.doc.rope) + TRAILING_BLANK_LINES
    }

    // ── The word and the brackets at the caret ────────────────────────────────

    /// The byte of its line that the caret is at.
    pub open spec fn head_byte(self) -> int {
        let n = self.buf.edit_line();
        let start = rope::line_start(self.chars(), n);
        let head = self.buf.sel.head as int;
        buffer_view::byte_col(line_cache::shown_line(self.chars(), n), if head > start { head - start } else { 0 })
    }

    /// The word whose occurrences are marked: `word`, where nothing is selected, the caret is on
    /// a character of a word, and not in a comment. `spans` is the syntax of the line of the caret.
    pub fn active_word(&self, word: (usize, usize), on_word_char: bool, spans: &[HighlightSpan]) -> (r: Option<(usize, usize)>)
        requires
            self.wf(),
        ensures
            r == if self.buf.sel.anchor == self.buf.sel.head && word.0 != word.1 && on_word_char && !in_comment(
                spans@,
                vstd::utf8::encode_utf8(line_cache::shown_line(self.chars(), self.buf.edit_line())).len() as int,
                self.head_byte(),
            ) {
                Some(word)
            } else {
                None
            },
    {
        if !self.buf.sel.is_empty() || word.0 == word.1 || !on_word_char {
            return None;
        }
        let n: usize = self.cursor_line();
        proof {
            rope::position_on_its_line(
                self.chars(),
                crate::editing::on_char(self.chars(), self.buf.sel.head as int),
            );
        }
        let start: usize = start_of_line(&self.buf.doc.rope, n);
        let head: usize = self.buf.sel.head;
        let col: usize = if head > start { head - start } else { 0 };
        let line: &str = self.lines.line_cache[n].as_str();
        let at: usize = char_col_to_byte_col(line, col);
        if is_in_comment(spans, byte_len(line), at) { None } else { Some(word) }
    }

    /// Takes note of the word at the caret, and gives what is to be looked for to find its
    /// occurrences, where it is another than before. Without a word there are none.
    pub fn update_word_occ(&mut self, word: Option<(usize, usize)>) -> (query: Option<FindQuery>)
        requires
            word matches Some((a, b)) ==> a <= b <= old(self).chars().len(),
        ensures
            match word {
                Some((a, b)) => {
                    let w = old(self).chars().subrange(a as int, b as int);
                    &&& *final(self) == *old(self)
                    &&& query is None <==> paths::text_view(old(self).word_occ_key) == Some(w)
                    &&& query matches Some(q) ==> q.text@ == w && q.case_sensitive && q.whole_word && !q.regex
                },
                None => {
                    &&& query is None
                    &&& final(self).word_occ@.len() == 0
                    &&& final(self).word_occ_key is None
                    &&& *final(self) == (EditorView { word_occ: final(self).word_occ, word_occ_key: None, ..*old(self) })
                },
            },
    {
        match word {
            Some((a, b)) => {
                let text: String = self.buf.doc.text_in(a, b);
                if let Some(key) = &self.word_occ_key {
                    if same_text(key.as_str(), text.as_str()) {
                        return None;
                    }
                }
                Some(FindQuery::of_word(text))
            },
            None => {
                self.word_occ = Vec::new();
                self.word_occ_key = None;
                None
            },
        }
    }

    /// Marks the occurrences of a word.
    pub fn set_word_occ(&mut self, word: String, found: Vec<Match>)
        ensures
            *final(self) == (EditorView { word_occ: found, word_occ_key: Some(word), ..*old(self) }),
    {
        self.word_occ = found;
        self.word_occ_key = Some(word);
    }

    /// The brackets that are marked: those around the caret, where nothing is selected.
    pub fn shown_brackets(&self, around: Option<(usize, usize)>) -> (r: Option<(usize, usize)>)
        ensures
            r == if self.buf.sel.anchor == self.buf.sel.head { around } else { None },
    {
        if self.buf.sel.is_empty() { around } else { None }
    }
}

impl LinkState {
    /// The modifier keys have changed: `cmd` says whether the one that shows links is held, and
    /// `over_text` whether the mouse was seen.
    pub fn on_modifiers_changed(&mut self, cmd: bool, over_text: bool) -> (step: ModifierStep)
        ensures
            if cmd == old(self).cmd_held {
                *final(self) == *old(self) && step == ModifierStep::Nothing
            } else if cmd {
                &&& *final(self) == (LinkState { cmd_held: true, ..*old(self) })
                &&& step == if over_text { ModifierStep::LookAgain } else { ModifierStep::Nothing }
            } else {
                (LinkState { cmd_held: false, ..*old(self) }).cleared(*final(self)) && step == ModifierStep::Cleared
            },
    {
        if self.cmd_held == cmd {
            return ModifierStep::Nothing;
        }
        self.cmd_held = cmd;
        if !cmd {
            self.clear_hovered_link();
            return ModifierStep::Cleared;
        }
        if over_text { ModifierStep::LookAgain } else { ModifierStep::Nothing }
    }
}

} // verus!
