//! The sidebar: the tree of files, and the headings of the active document.
use vstd::prelude::*;

use crate::buffer_view::ColorRole;
use crate::markdown::{Outline, OutlineItem};
use crate::paths;
use crate::paths::same_path;

verus! {

/// What the sidebar shows.
#[derive(Debug, Clone, Copy, PartialEq, Eq, Structural)]
pub enum SidebarItemKind {
    Explorer,
    Search,
}

/// Whether the sidebar is open, and what it shows.
#[derive(Debug, Clone, Copy, PartialEq, Eq, Structural)]
pub struct SidebarState {
    pub open: bool,
    pub active: SidebarItemKind,
}

impl Default for SidebarState {
    fn default() -> (s: SidebarState)
        ensures
            s == (SidebarState { open: false, active: SidebarItemKind::Explorer }),
    {
        SidebarState { open: false, active: SidebarItemKind::Explorer }
    }
}

/// A file or a folder of the tree that is visible.
#[derive(Debug)]
pub struct TreeRow {
    pub path: String,
    pub name: String,
    pub is_dir: bool,
    pub expanded: bool,
    pub depth: usize,
}

/// What stands before the name of a folder.
#[derive(Debug, Clone, Copy, PartialEq, Eq, Structural)]
pub enum Chevron {
    ExpandMore,
    ChevronRight,
}

/// What a click on a row does.
#[derive(Debug, Clone, Copy, PartialEq, Eq, Structural)]
pub enum RowClick {
    ToggleFolder,
    OpenFile,
}

/// How a row of the tree is shown.
#[derive(Debug, Clone, Copy, PartialEq, Eq, Structural)]
pub struct TreeRowView {
    pub chevron: Option<Chevron>,
    /// Whether a dot in the color of the language is shown.
    pub dot: bool,
    /// How many lines show the depth of the row.
    pub guides: usize,
    pub active: bool,
    pub color: ColorRole,
    pub medium_weight: bool,
    pub click: RowClick,
}

impl TreeRow {
    /// How the row is shown while the file at `active_path` is edited.
    pub open spec fn shown(self, active_path: Option<Seq<char>>, indent_guides: bool) -> TreeRowView {
        let active = active_path matches Some(p) && paths::same_file(p, self.path@);
        TreeRowView {
            chevron: if !self.is_dir {
                None
            } else if self.expanded {
                Some(Chevron::ExpandMore)
            } else {
                Some(Chevron::ChevronRight)
            },
            dot: !self.is_dir,
            guides: if indent_guides { self.depth } else { 0 },
            active,
            color: if active {
                ColorRole::Text
            } else if self.is_dir {
                ColorRole::TextSubtle
            } else {
                ColorRole::TextMuted
            },
            medium_weight: self.is_dir,
            click: if self.is_dir { RowClick::ToggleFolder } else { RowClick::OpenFile },
        }
    }

    /// How the row is shown while the file at `active_path` is edited.
    pub fn view_row(&self, active_path: Option<&str>, indent_guides: bool) -> (v: TreeRowView)
        ensures
            v == self.shown(
                match active_path {
                    Some(p) => Some(p@),
                    None => None,
                },
                indent_guides,
            ),
    {
        let active: bool = match active_path {
            Some(p) => same_path(p, self.path.as_str()),
            None => false,
        };
        TreeRowView {
            chevron: if !self.is_dir {
                None
            } else if self.expanded {
                Some(Chevron::ExpandMore)
            } else {
                Some(Chevron::ChevronRight)
            },
            dot: !self.is_dir,
            guides: if indent_guides { self.depth } else { 0 },
            active,
            color: if active {
                ColorRole::Text
            } else if self.is_dir {
                ColorRole::TextSubtle
            } else {
                ColorRole::TextMuted
            },
            medium_weight: self.is_dir,
            click: if self.is_dir { RowClick::ToggleFolder } else { RowClick::OpenFile },
        }
    }
}

/// A heading of the active document.
#[derive(Debug)]
pub struct HeadingRow {
    pub name: String,
    pub depth: u32,
    pub color: ColorRole,
    pub line: usize,
}

/// Whether `row` shows `item`.
pub open spec fn shows_heading(row: HeadingRow, item: OutlineItem) -> bool {
    &&& row.name@ == item.name@
    &&& row.depth == item.depth
    &&& row.color == if item.depth == 0 { ColorRole::Text } else { ColorRole::TextMuted }
    &&& row.line == item.source_line
}

/// The headings of the active document. There are some only in Markdown.
pub fn heading_rows(markdown: bool, outline: &Outline) -> (rows: Vec<HeadingRow>)
    ensures
        !markdown ==> rows@.len() == 0,
        markdown ==> rows@.len() == outline.items@.len() && forall|i: int|
            0 <= i < rows@.len() ==> shows_heading(#[trigger] rows@[i], outline.items@[i]),
{
    let mut rows: Vec<HeadingRow> = Vec::new();
    if !markdown {
        return rows;
    }
    let mut i: usize = 0;
    while i < outline.items.len()
        invariant
            i <= outline.items@.len(),
            rows@.len() == i,
            forall|k: int| 0 <= k < i ==> shows_heading(#[trigger] rows@[k], outline.items@[k]),
        decreases outline.items@.len() - i,
    {
        let item: &OutlineItem = &outline.items[i];
        rows.push(
            HeadingRow {
                name: item.name.clone(),
                depth: item.depth,
                color: if item.depth == 0 { ColorRole::Text } else { ColorRole::TextMuted },
                line: item.source_line,
            },
        );
        i = i + 1;
    }
    rows
}

} // verus!
