//! The finder of files: a query, the files that it finds, and a preview of the selected one.
use vstd::prelude::*;

use crate::buffer_view::ColorRole;
use crate::cycle;
use crate::file_preview;
use crate::file_preview::{FilePreview, LoadedFile, PreviewContent};
use crate::keys::KeyPress;
use crate::markdown::copy_text;
use crate::matched_text;
use crate::matched_text::{matched_spans, MatchSpan};
use crate::paths;
use crate::paths::{path_join, same_path};
use crate::text;
use crate::text::{char_at_byte, chars_of, push_char, same_text, string_of};
use crate::text_input::{FinderKey, TextInput};

verus! {

/// How many files are listed at most.
pub const RESULT_LIMIT: usize = 100;

/// Milliseconds that typing waits before files are looked for.
pub const FILTER_DEBOUNCE_MS: u64 = 30;

/// Milliseconds that a selection waits before it is previewed.
pub const PREVIEW_DEBOUNCE_MS: u64 = 100;

/// A file that was found.
#[derive(Debug)]
pub struct FinderRow {
    pub rel_path: String,
    /// The byte of `rel_path` where the name of the file starts.
    pub name_off: usize,
    pub from_history: bool,
    pub is_ignored: bool,
    /// The characters of `rel_path` that the query matches.
    pub positions: Vec<u32>,
}

/// Where the preview stands.
#[derive(Debug, Clone, Copy, PartialEq, Eq, Structural)]
pub enum PreviewPosition {
    Right,
    Left,
    Bottom,
}

/// The finder of files.
#[derive(Debug)]
pub struct FileFinderView {
    pub query: TextInput,
    pub case_sensitive: bool,
    pub whole_word: bool,
    pub regex_mode: bool,
    pub include_ignored: bool,
    /// The extension that files are restricted to.
    pub mask: Option<String>,
    pub mask_open: bool,
    pub preview_on: bool,
    /// Counts how often the preview was shown or hidden.
    pub preview_toggle_count: usize,
    pub selected: usize,
    pub rows: Vec<FinderRow>,
    pub filtering: bool,
    /// Counts the searches: what an earlier one finds is dropped.
    pub filter_generation: u64,
    pub preview: FilePreview,
}

/// What files are looked for by.
#[derive(Debug)]
pub struct FinderQuery {
    pub text: String,
    pub case_sensitive: bool,
    pub whole_word: bool,
    pub regex: bool,
    pub mask: Option<String>,
}

/// A file that is to be loaded for the preview.
#[derive(Debug)]
pub struct PreviewLoad {
    pub epoch: u64,
    pub path: String,
}

/// What the list of files shows.
#[derive(Debug, Clone, Copy, PartialEq, Eq, Structural)]
pub enum FinderList {
    /// No folder is open.
    OpenFolder,
    Indexing,
    NoHistory,
    NoMatches,
    Rows,
}

/// The last index of a list of `n` entries; 0 for an empty one.
pub open spec fn last_ix(n: int) -> int {
    if n > 0 { n - 1 } else { 0 }
}

impl FileFinderView {
    /// Whether the caret lies within the query.
    pub open spec fn wf(self) -> bool {
        self.query.wf()
    }

    /// A finder with an empty query.
    pub fn new(preview_on: bool) -> (v: FileFinderView)
        ensures
            v.query.empty(),
            !v.case_sensitive && !v.whole_word && !v.regex_mode && !v.include_ignored,
            v.mask is None,
            !v.mask_open,
            v.preview_on == preview_on,
            v.preview_toggle_count == 0,
            v.selected == 0,
            v.rows@.len() == 0,
            !v.filtering,
            v.filter_generation == 0,
            v.preview.content is Empty,
            v.preview.path is None,
            v.preview.epoch == 0,
            v.wf(),
    {
        FileFinderView {
            query: TextInput::new(),
            case_sensitive: false,
            whole_word: false,
            regex_mode: false,
            include_ignored: false,
            mask: None,
            mask_open: false,
            preview_on,
            preview_toggle_count: 0,
            selected: 0,
            rows: Vec::new(),
            filtering: false,
            filter_generation: 0,
            preview: FilePreview::new(),
        }
    }

    // ── Looking for files ─────────────────────────────────────────────────────

    /// Starts a search and gives its number; where there is no index to search, there is nothing
    /// to list, and the index is being made if a folder is open.
    pub fn schedule_filter(&mut self, has_index: bool, has_root: bool) -> (generation: Option<u64>)
        requires
            old(self).wf(),
            old(self).filter_generation < u64::MAX,
        ensures
            has_index ==> generation == Some((old(self).filter_generation + 1) as u64) && *final(self) == (FileFinderView {
                filter_generation: (old(self).filter_generation + 1) as u64,
                filtering: true,
                ..*old(self)
            }),
            !has_index ==> {
                &&& generation is None
                &&& final(self).rows@.len() == 0
                &&& *final(self) == (FileFinderView {
                    filter_generation: (old(self).filter_generation + 1) as u64,
                    filtering: has_root,
                    rows: final(self).rows,
                    ..*old(self)
                })
            },
            final(self).wf(),
    {
        self.filter_generation = self.filter_generation + 1;
        if !has_index {
            self.rows = Vec::new();
            self.filtering = has_root;
            return None;
        }
        self.filtering = true;
        Some(self.filter_generation)
    }

    /// What files are looked for by.
    pub fn finder_query(&self) -> (q: FinderQuery)
        ensures
            q.text == self.query.text,
            q.case_sensitive == self.case_sensitive,
            q.whole_word == self.whole_word,
            q.regex == self.regex_mode,
            q.mask == self.mask,
    {
        FinderQuery {
            text: self.query.text.clone(),
            case_sensitive: self.case_sensitive,
            whole_word: self.whole_word,
            regex: self.regex_mode,
            mask: copy_text(&self.mask),
        }
    }

    /// Takes over what the search `generation` has found, if no other was started since. Says
    /// whether it did.
    pub fn apply_rows(&mut self, generation: u64, rows: Vec<FinderRow>) -> (taken: bool)
        requires
            old(self).wf(),
        ensures
            taken == (generation == old(self).filter_generation),
            !taken ==> *final(self) == *old(self),
            taken ==> *final(self) == (FileFinderView {
                rows,
                filtering: false,
                selected: if old(self).selected < last_ix(rows@.len() as int) {
                    old(self).selected
                } else {
                    last_ix(rows@.len() as int) as usize
                },
                ..*old(self)
            }),
            final(self).wf(),
    {
        if self.filter_generation != generation {
            return false;
        }
        let last: usize = if rows.len() > 0 { rows.len() - 1 } else { 0 };
        self.rows = rows;
        self.filtering = false;
        if self.selected >= last {
            self.selected = last;
        }
        true
    }

    // ── The preview ───────────────────────────────────────────────────────────

    /// The path of the selected file in the folder `root`.
    pub open spec fn selected_path(self, root: Seq<char>) -> Option<Seq<char>> {
        if self.selected < self.rows@.len() {
            Some(paths::joined_path_of(root, self.rows@[self.selected as int].rel_path@))
        } else {
            None
        }
    }

    /// Whether the preview is that of `path`.
    pub open spec fn previews_path(self, path: Seq<char>) -> bool {
        self.preview.path matches Some(p) && paths::same_file(p@, path)
    }

    /// What becomes of the preview when another file, with the path `path`, is selected.
    pub open spec fn preview_scheduled(
        self,
        after: FileFinderView,
        has_root: bool,
        path: Option<Seq<char>>,
        load: Option<PreviewLoad>,
    ) -> bool {
        if !self.preview_on {
            after == self && load is None
        } else {
            let epoch = (self.preview.epoch + 1) as u64;
            &&& after == (FileFinderView { preview: after.preview, ..self })
            &&& after.preview.epoch == epoch
            &&& if !has_root {
                after.preview == (FilePreview { epoch, ..self.preview }) && load is None
            } else {
                match path {
                    None => after.preview.content is Empty && after.preview.path is None && load is None,
                    Some(p) => if self.previews_path(p) {
                        after.preview == (FilePreview { epoch, ..self.preview }) && load is None
                    } else {
                        &&& after.preview.path == self.preview.path
                        &&& if self.preview.content is Doc {
                            after.preview.content == self.preview.content
                        } else {
                            after.preview.content is Loading
                        }
                        &&& load is Some && load->0.epoch == epoch && load->0.path@ == p
                    },
                }
            }
        }
    }

    /// Asks for a preview of the selected file in the folder `root`. Gives the file that is to be
    /// loaded, if any.
    pub fn schedule_preview(&mut self, root: Option<&str>) -> (load: Option<PreviewLoad>)
        requires
            old(self).wf(),
            old(self).preview.epoch < u64::MAX,
        ensures
            old(self).preview_scheduled(
                *final(self),
                root is Some,
                match root {
                    Some(r) => old(self).selected_path(r@),
                    None => None,
                },
                load,
            ),
            final(self).wf(),
    {
        let path: Option<String> = match root {
            Some(r) => if self.selected < self.rows.len() {
                Some(path_join(r, self.rows[self.selected].rel_path.as_str()))
            } else {
                None
            },
            None => None,
        };
        self.preview_at(root.is_some(), path)
    }

    /// Asks for a preview of the selected file, which has the path `path`.
    pub fn preview_at(&mut self, has_root: bool, path: Option<String>) -> (load: Option<PreviewLoad>)
        requires
            old(self).wf(),
            old(self).preview.epoch < u64::MAX,
        ensures
            old(self).preview_scheduled(*final(self), has_root, paths::text_view(path), load),
            final(self).wf(),
    {
        if !self.preview_on {
            return None;
        }
        self.preview.epoch = self.preview.epoch + 1;
        if !has_root {
            return None;
        }
        match path {
            None => {
                self.preview.content = PreviewContent::Empty;
                self.preview.path = None;
                None
            },
            Some(p) => {
                let same: bool = match &self.preview.path {
                    Some(q) => same_path(q.as_str(), p.as_str()),
                    None => false,
                };
                if same {
                    return None;
                }
                if !matches!(self.preview.content, PreviewContent::Doc { .. }) {
                    self.preview.content = PreviewContent::Loading;
                }
                Some(PreviewLoad { epoch: self.preview.epoch, path: p })
            },
        }
    }

    /// Takes over what was loaded for the preview, if nothing else was asked for since. Says
    /// whether it did.
    pub fn apply_preview(&mut self, load: PreviewLoad, loaded: LoadedFile) -> (taken: bool)
        requires
            old(self).wf(),
        ensures
            taken == (load.epoch == old(self).preview.epoch),
            !taken ==> *final(self) == *old(self),
            taken ==> {
                &&& final(self).preview.path == Some(load.path)
                &&& final(self).preview.epoch == old(self).preview.epoch
                &&& match loaded {
                    LoadedFile::Text(t) => final(self).preview.content matches PreviewContent::Doc { lines }
                        && file_preview::previews(lines@, t@),
                    LoadedFile::TooLarge => final(self).preview.content is TooLarge,
                    LoadedFile::Binary => final(self).preview.content is Binary,
                    LoadedFile::Unreadable => final(self).preview.content is Unreadable,
                }
                &&& *final(self) == (FileFinderView { preview: final(self).preview, ..*old(self) })
            },
            final(self).wf(),
    {
        if self.preview.epoch != load.epoch {
            return false;
        }
        self.preview.set_loaded(load.path, loaded);
        true
    }

    // ── Selecting ─────────────────────────────────────────────────────────────

    /// Selects the next file, or the previous one, round at the ends.
    pub fn move_selection(&mut self, forward: bool) -> (moved: bool)
        requires
            old(self).wf(),
            old(self).selected < usize::MAX,
        ensures
            moved == (old(self).rows@.len() > 0),
            !moved ==> *final(self) == *old(self),
            moved ==> {
                &&& final(self).selected == cycle::moved(
                    old(self).rows@.len() as int,
                    old(self).selected as int,
                    if forward { 1 } else { -1 },
                )
                &&& *final(self) == (FileFinderView { selected: final(self).selected, ..*old(self) })
            },
            final(self).wf(),
    {
        let len: usize = self.rows.len();
        if len == 0 {
            return false;
        }
        self.selected = cycle::step(len, self.selected, forward);
        true
    }

    /// Selects file `ix`. Says whether another one was selected before.
    pub fn set_selection(&mut self, ix: usize) -> (changed: bool)
        requires
            old(self).wf(),
        ensures
            changed == (ix < old(self).rows@.len() && old(self).selected != ix),
            *final(self) == (FileFinderView { selected: if changed { ix } else { old(self).selected }, ..*old(self) }),
            final(self).wf(),
    {
        if ix < self.rows.len() && self.selected != ix {
            self.selected = ix;
            return true;
        }
        false
    }

    /// The file that is opened when row `ix` is confirmed: its path within the project, and its
    /// whole path. Without such a row or without a folder there is none.
    pub fn confirm(&self, ix: usize, root: Option<&str>) -> (r: Option<(String, String)>)
        ensures
            r is Some <==> ix < self.rows@.len() && root is Some,
            r matches Some((rel, abs)) ==> {
                &&& rel@ == self.rows@[ix as int].rel_path@
                &&& abs@ == paths::joined_path_of(root->0@, rel@)
            },
    {
        if ix >= self.rows.len() {
            return None;
        }
        match root {
            Some(r) => {
                let rel: String = self.rows[ix].rel_path.clone();
                let abs: String = path_join(r, rel.as_str());
                Some((rel, abs))
            },
            None => None,
        }
    }

    // ── Keys and switches ─────────────────────────────────────────────────────

    /// A key is pressed. Where it changes the query, files are to be looked for anew, and the
    /// first one is selected. Typing closes the list of extensions.
    pub fn on_key_down(&mut self, key: &KeyPress) -> (r: FinderKey)
        requires
            old(self).wf(),
        ensures
            old(self).query.finder_keyed(final(self).query, *key, r),
            *final(self) == (FileFinderView {
                query: final(self).query,
                mask_open: old(self).mask_open && r != FinderKey::Typed,
                selected: if r != FinderKey::Nothing { 0 } else { old(self).selected },
                ..*old(self)
            }),
            final(self).wf(),
    {
        let r: FinderKey = self.query.press_in_finder(key);
        if r == FinderKey::Typed {
            self.mask_open = false;
        }
        if r != FinderKey::Nothing {
            self.selected = 0;
        }
        r
    }

    /// Deletes the character before the caret. Says whether the query has changed.
    pub fn on_backspace(&mut self) -> (changed: bool)
        requires
            old(self).wf(),
        ensures
            changed == (old(self).query.cursor > 0),
            old(self).query.backspaced(final(self).query),
            *final(self) == (FileFinderView {
                query: final(self).query,
                selected: if changed { 0 } else { old(self).selected },
                ..*old(self)
            }),
            final(self).wf(),
    {
        if self.query.backspace() {
            self.selected = 0;
            return true;
        }
        false
    }

    /// Dismisses the finder; where the list of extensions is open, only that. Says whether the
    /// finder is to go.
    pub fn on_dismiss(&mut self) -> (close: bool)
        requires
            old(self).wf(),
        ensures
            close == !old(self).mask_open,
            *final(self) == (FileFinderView { mask_open: false, ..*old(self) }),
            final(self).wf(),
    {
        if self.mask_open {
            self.mask_open = false;
            return false;
        }
        true
    }

    /// Switches the distinction of upper and lower case.
    pub fn toggle_case(&mut self)
        requires
            old(self).wf(),
        ensures
            *final(self) == (FileFinderView { case_sensitive: !old(self).case_sensitive, ..*old(self) }),
            final(self).wf(),
    {
        self.case_sensitive = !self.case_sensitive;
    }

    /// Switches the restriction to whole words.
    pub fn toggle_word(&mut self)
        requires
            old(self).wf(),
        ensures
            *final(self) == (FileFinderView { whole_word: !old(self).whole_word, ..*old(self) }),
            final(self).wf(),
    {
        self.whole_word = !self.whole_word;
    }

    /// Switches regular expressions.
    pub fn toggle_regex(&mut self)
        requires
            old(self).wf(),
        ensures
            *final(self) == (FileFinderView { regex_mode: !old(self).regex_mode, ..*old(self) }),
            final(self).wf(),
    {
        self.regex_mode = !self.regex_mode;
    }

    /// Switches the listing of ignored files. Says whether they are listed now, and need an index
    /// of their own.
    pub fn toggle_ignored(&mut self) -> (needs_full_index: bool)
        requires
            old(self).wf(),
        ensures
            *final(self) == (FileFinderView { include_ignored: !old(self).include_ignored, ..*old(self) }),
            needs_full_index == final(self).include_ignored,
            final(self).wf(),
    {
        self.include_ignored = !self.include_ignored;
        self.include_ignored
    }

    /// Shows or hides the preview. Says whether it is shown now, and is to be asked for.
    pub fn toggle_preview(&mut self) -> (shown: bool)
        requires
            old(self).wf(),
            old(self).preview_toggle_count < usize::MAX,
        ensures
            *final(self) == (FileFinderView {
                preview_on: !old(self).preview_on,
                preview_toggle_count: (old(self).preview_toggle_count + 1) as usize,
                ..*old(self)
            }),
            shown == final(self).preview_on,
            final(self).wf(),
    {
        self.preview_on = !self.preview_on;
        self.preview_toggle_count = self.preview_toggle_count + 1;
        self.preview_on
    }

    /// Shows the preview. Says whether it was hidden before.
    pub fn enable_preview(&mut self) -> (changed: bool)
        requires
            old(self).wf(),
            old(self).preview_toggle_count < usize::MAX,
        ensures
            changed == !old(self).preview_on,
            !changed ==> *final(self) == *old(self),
            changed ==> *final(self) == (FileFinderView {
                preview_on: true,
                preview_toggle_count: (old(self).preview_toggle_count + 1) as usize,
                ..*old(self)
            }),
            final(self).wf(),
    {
        if self.preview_on {
            return false;
        }
        self.toggle_preview();
        true
    }

    /// Restricts the files to an extension, or to none.
    pub fn set_mask(&mut self, mask: Option<String>)
        requires
            old(self).wf(),
        ensures
            *final(self) == (FileFinderView { mask, mask_open: false, selected: 0, ..*old(self) }),
            final(self).wf(),
    {
        self.mask = mask;
        self.mask_open = false;
        self.selected = 0;
    }

    /// Opens or closes the list of extensions.
    pub fn toggle_mask_list(&mut self)
        requires
            old(self).wf(),
        ensures
            *final(self) == (FileFinderView { mask_open: !old(self).mask_open, ..*old(self) }),
            final(self).wf(),
    {
        self.mask_open = !self.mask_open;
    }

    // ── What is shown ─────────────────────────────────────────────────────────

    /// What the list of files shows.
    pub open spec fn list(self, has_root: bool) -> FinderList {
        if !has_root {
            FinderList::OpenFolder
        } else if self.rows@.len() > 0 {
            FinderList::Rows
        } else if self.filtering {
            FinderList::Indexing
        } else if self.query.text@.len() == 0 {
            FinderList::NoHistory
        } else {
            FinderList::NoMatches
        }
    }

    /// What the list of files shows.
    pub fn list_state(&self, has_root: bool) -> (l: FinderList)
        ensures
            l == self.list(has_root),
    {
        if !has_root {
            FinderList::OpenFolder
        } else if self.rows.len() > 0 {
            FinderList::Rows
        } else if self.filtering {
            FinderList::Indexing
        } else if self.query.text.as_str().is_empty() {
            FinderList::NoHistory
        } else {
            FinderList::NoMatches
        }
    }

    /// The sizes of the finder.
    pub fn modal_size(&self, position: PreviewPosition) -> (m: ModalSize)
        ensures
            m == modal_size_of(self.preview_on, self.preview_toggle_count as int, position),
    {
        let (wide, tall): (u32, u32) = if position == PreviewPosition::Bottom {
            (MODAL_W_BOTTOM, MODAL_BODY_H_BOTTOM)
        } else {
            (MODAL_W_SIDE, MODAL_BODY_H_SIDE)
        };
        let (width, body_height): (u32, u32) = if self.preview_on {
            (wide, tall)
        } else {
            (MODAL_W_COLLAPSED, MODAL_BODY_H_COLLAPSED)
        };
        let (from_width, from_body_height): (u32, u32) = if self.preview_toggle_count == 0 {
            (width, body_height)
        } else if self.preview_on {
            (MODAL_W_COLLAPSED, MODAL_BODY_H_COLLAPSED)
        } else {
            (wide, tall)
        };
        ModalSize { width, body_height, from_width, from_body_height }
    }

    /// The label of the button that shows the extensions.
    pub fn mask_label(&self, all: &str) -> (s: String)
        ensures
            s@ == match self.mask {
                Some(ext) => ext_label(ext@),
                None => all@,
            },
    {
        match &self.mask {
            Some(ext) => extension_label(ext.as_str()),
            None => all.to_owned(),
        }
    }

    /// The entries of the list of extensions: all files, and then each extension with the number
    /// of its files.
    pub fn mask_items(&self, all: &str, extensions: &[(String, u32)]) -> (items: Vec<MaskItem>)
        requires
            extensions@.len() < usize::MAX,
        ensures
            items@.len() == extensions@.len() + 1,
            items@[0].label@ == all@ && items@[0].count is None && items@[0].active == (self.mask is None),
            forall|i: int|
                1 <= i < items@.len() ==> {
                    let (ext, count) = extensions@[i - 1];
                    &&& (#[trigger] items@[i]).label@ == ext_label(ext@)
                    &&& items@[i].count == Some(count)
                    &&& items@[i].active == (self.mask matches Some(m) && m@ == ext@)
                },
    {
        let mut items: Vec<MaskItem> = Vec::new();
        items.push(MaskItem { label: all.to_owned(), count: None, active: self.mask.is_none() });
        let mut i: usize = 0;
        while i < extensions.len()
            invariant
                i <= extensions@.len(),
                items@.len() == i + 1,
                items@[0].label@ == all@ && items@[0].count is None && items@[0].active == (self.mask is None),
                forall|k: int|
                    1 <= k < items@.len() ==> {
                        let (ext, count) = extensions@[k - 1];
                        &&& (#[trigger] items@[k]).label@ == ext_label(ext@)
                        &&& items@[k].count == Some(count)
                        &&& items@[k].active == (self.mask matches Some(m) && m@ == ext@)
                    },
            decreases extensions@.len() - i,
        {
            let ext: &str = extensions[i].0.as_str();
            let active: bool = match &self.mask {
                Some(m) => same_text(m.as_str(), ext),
                None => false,
            };
            items.push(MaskItem { label: extension_label(ext), count: Some(extensions[i].1), active });
            i = i + 1;
        }
        items
    }
}

/// An entry of the list of extensions.
#[derive(Debug)]
pub struct MaskItem {
    pub label: String,
    pub count: Option<u32>,
    pub active: bool,
}

/// How an extension is called.
pub open spec fn ext_label(ext: Seq<char>) -> Seq<char> {
    seq!['*', '.'] + ext
}

/// How an extension is called.
fn extension_label(ext: &str) -> (s: String)
    ensures
        s@ == ext_label(ext@),
{
    let mut s: String = String::new();
    push_char(&mut s, '*');
    push_char(&mut s, '.');
    s.append(ext);
    assert(s@ =~= ext_label(ext@));
    s
}

pub const MODAL_W_COLLAPSED: u32 = 640;

pub const MODAL_BODY_H_COLLAPSED: u32 = 440;

pub const MODAL_W_SIDE: u32 = 1060;

pub const MODAL_BODY_H_SIDE: u32 = 480;

pub const MODAL_W_BOTTOM: u32 = 720;

pub const MODAL_BODY_H_BOTTOM: u32 = 564;

/// The sizes of the finder, in pixels, and those from which it grows or shrinks to them.
#[derive(Debug, Clone, Copy, PartialEq, Eq, Structural)]
pub struct ModalSize {
    pub width: u32,
    pub body_height: u32,
    pub from_width: u32,
    pub from_body_height: u32,
}

/// The sizes of the finder: larger with a preview than without. It grows or shrinks once the
/// preview was shown or hidden.
pub open spec fn modal_size_of(preview_on: bool, toggles: int, position: PreviewPosition) -> ModalSize {
    let (wide, tall) = if position == PreviewPosition::Bottom {
        (MODAL_W_BOTTOM, MODAL_BODY_H_BOTTOM)
    } else {
        (MODAL_W_SIDE, MODAL_BODY_H_SIDE)
    };
    let small = (MODAL_W_COLLAPSED, MODAL_BODY_H_COLLAPSED);
    let (width, body_height) = if preview_on { (wide, tall) } else { small };
    let (from_width, from_body_height) = if toggles == 0 {
        (width, body_height)
    } else if preview_on {
        small
    } else {
        (wide, tall)
    };
    ModalSize { width, body_height, from_width, from_body_height }
}

/// The least width of the list and of the preview, in pixels, where they are side by side.
pub const LIST_MIN_W: u32 = 180;

/// The least height of the list and of the preview, in pixels, where one is below the other.
pub const LIST_MIN_H: u32 = 100;

/// The thickness of the divider between the list and the preview, in pixels.
pub const DIVIDER_PX: u32 = 4;

/// How the list and the preview share the finder.
#[derive(Debug, Clone, Copy, PartialEq, Eq, Structural)]
pub struct SplitLayout {
    /// Whether one is below the other.
    pub stacked: bool,
    pub preview_first: bool,
    /// The least and the greatest size of the list, in the direction in which they are divided.
    pub list_min: u32,
    pub list_max: u32,
}

/// How the list and the preview share the finder.
pub open spec fn split_of(position: PreviewPosition) -> SplitLayout {
    let stacked = position == PreviewPosition::Bottom;
    let (least, room) = if stacked { (LIST_MIN_H, MODAL_BODY_H_BOTTOM) } else { (LIST_MIN_W, MODAL_W_SIDE) };
    SplitLayout {
        stacked,
        preview_first: position == PreviewPosition::Left,
        list_min: least,
        list_max: (room - least - DIVIDER_PX) as u32,
    }
}

impl FileFinderView {
    /// How the list and the preview share the finder, if there is a preview. Both keep their least
    /// size.
    pub fn split(&self, position: PreviewPosition) -> (r: Option<SplitLayout>)
        ensures
            r == if self.preview_on { Some(split_of(position)) } else { None },
            r matches Some(l) ==> l.list_min <= l.list_max && l.list_max + DIVIDER_PX + l.list_min == if l.stacked {
                modal_size_of(true, 0, position).body_height
            } else {
                modal_size_of(true, 0, position).width
            },
    {
        if !self.preview_on {
            return None;
        }
        let stacked: bool = position == PreviewPosition::Bottom;
        let least: u32 = if stacked { LIST_MIN_H } else { LIST_MIN_W };
        let room: u32 = if stacked { MODAL_BODY_H_BOTTOM } else { MODAL_W_SIDE };
        Some(
            SplitLayout {
                stacked,
                preview_first: position == PreviewPosition::Left,
                list_min: least,
                list_max: room - least - DIVIDER_PX,
            },
        )
    }
}

/// The text of a row: the name of the file, and its folder, if it has one.
#[derive(Debug)]
pub struct RowText {
    pub name: Vec<MatchSpan>,
    pub dir: Option<Vec<MatchSpan>>,
}

/// `s` without the slashes at its end.
pub open spec fn without_slashes(s: Seq<char>) -> Seq<char>
    decreases s.len(),
{
    if s.len() > 0 && s.last() == '/' { without_slashes(s.drop_last()) } else { s }
}

/// The text of a row, with the characters that the query matches standing out.
pub fn row_text(row: &FinderRow) -> (r: RowText)
    requires
        row.name_off <= text::byte_count(row.rel_path@),
        text::starts_char(row.rel_path@, row.name_off as int),
        row.rel_path@.len() <= u32::MAX,
    ensures
        ({
            let k = text::char_from(row.rel_path@, row.name_off as int);
            let name = row.rel_path@.skip(k);
            let dir = without_slashes(row.rel_path@.take(k));
            &&& matched_text::parted(name, row.positions@, k, r.name@, name.len() as int)
            &&& r.dir is Some <==> dir.len() > 0
            &&& r.dir matches Some(d) ==> matched_text::parted(dir, row.positions@, 0, d@, dir.len() as int)
        }),
{
    let rel: &str = row.rel_path.as_str();
    let chars: Vec<char> = chars_of(rel);
    let (k, _) = char_at_byte(rel, row.name_off);
    let name: String = string_of(chars.as_slice(), k, chars.len());
    assert(name@ =~= row.rel_path@.skip(k as int));
    let name_spans: Vec<MatchSpan> = matched_spans(name.as_str(), row.positions.as_slice(), k as u32);
    let ghost whole = row.rel_path@.take(k as int);
    let mut end: usize = k;
    while end > 0 && chars[end - 1] == '/'
        invariant
            end <= k <= chars@.len(),
            chars@ == row.rel_path@,
            whole == row.rel_path@.take(k as int),
            without_slashes(whole) == without_slashes(row.rel_path@.take(end as int)),
        ensures
            end <= chars@.len(),
            without_slashes(whole) == row.rel_path@.take(end as int),
        decreases end,
    {
        assert(row.rel_path@.take(end as int).drop_last() =~= row.rel_path@.take(end - 1));
        end = end - 1;
    }
    if end == 0 {
        return RowText { name: name_spans, dir: None };
    }
    let dir: String = string_of(chars.as_slice(), 0, end);
    assert(dir@ =~= row.rel_path@.take(end as int));
    RowText { name: name_spans, dir: Some(matched_spans(dir.as_str(), row.positions.as_slice(), 0)) }
}

/// The color of a span of a row: matched characters stand out, the rest has the color `base`.
pub fn span_color(span: &MatchSpan, base: ColorRole) -> (c: ColorRole)
    ensures
        c == if span.matched { ColorRole::Accent } else { base },
{
    if span.matched { ColorRole::Accent } else { base }
}

} // verus!
