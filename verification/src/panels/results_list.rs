//! The list that panels show: a header for each file, and what was found in it.
use std::path::PathBuf;
use vstd::prelude::*;

use crate::buffer_view::{ColorRole, Severity};
use crate::paths;
use crate::paths::{after_last_slash, path_text, path_within, slashed};
use crate::text;
use crate::text::{chars_of, push_char, push_decimal, string_of};

verus! {

/// What the header of a file counts.
#[derive(Debug, Clone, Copy, PartialEq, Eq, Structural)]
pub enum FileCounts {
    Refs(usize),
    Problems { errors: usize, warnings: usize },
}

/// One row of the list.
#[derive(Debug)]
pub enum Row {
    FileHeader { filename: String, dir: String, counts: FileCounts },
    RefEntry { path: PathBuf, line: usize, col: usize, preview: String },
    DiagEntry { path: PathBuf, lsp_line: u32, message: String, severity: Severity, source: String },
}

/// A row as contracts speak of it.
pub enum RowView {
    FileHeader { filename: Seq<char>, dir: Seq<char>, counts: FileCounts },
    RefEntry { path: PathBuf, line: usize, col: usize, preview: Seq<char> },
    DiagEntry { path: PathBuf, lsp_line: u32, message: Seq<char>, severity: Severity, source: Seq<char> },
}

impl View for Row {
    type V = RowView;

    open spec fn view(&self) -> RowView {
        match self {
            Row::FileHeader { filename, dir, counts } => RowView::FileHeader {
                filename: filename@,
                dir: dir@,
                counts: *counts,
            },
            Row::RefEntry { path, line, col, preview } => RowView::RefEntry {
                path: *path,
                line: *line,
                col: *col,
                preview: preview@,
            },
            Row::DiagEntry { path, lsp_line, message, severity, source } => RowView::DiagEntry {
                path: *path,
                lsp_line: *lsp_line,
                message: message@,
                severity: *severity,
                source: source@,
            },
        }
    }
}

/// Rows by their values.
pub open spec fn row_views(rows: Seq<Row>) -> Seq<RowView> {
    rows.map_values(|r: Row| r@)
}

/// The name of a file and its folder, which ends in a slash. A path without a slash has no
/// folder.
pub open spec fn name_and_dir(rel: Seq<char>) -> (Seq<char>, Seq<char>) {
    let n = paths::last_slash(rel) + 1;
    (rel.skip(n), rel.take(n))
}

/// The name of a file and its folder: `"src/foo/bar.rs"` is `"bar.rs"` in `"src/foo/"`.
pub fn split_path(rel: &str) -> (r: (String, String))
    ensures
        (r.0@, r.1@) == name_and_dir(rel@),
{
    let chars: Vec<char> = chars_of(rel);
    let n: usize = after_last_slash(chars.as_slice());
    let name: String = string_of(chars.as_slice(), n, chars.len());
    let dir: String = string_of(chars.as_slice(), 0, n);
    assert(name@ =~= rel@.skip(n as int));
    assert(dir@ =~= rel@.take(n as int));
    (name, dir)
}

/// The name and the folder of a path, joined, are the path.
pub proof fn split_rejoins(rel: Seq<char>)
    ensures
        name_and_dir(rel).1 + name_and_dir(rel).0 == rel,
{
    last_slash_bounds(rel);
    assert(name_and_dir(rel).1 + name_and_dir(rel).0 =~= rel);
}

proof fn last_slash_bounds(s: Seq<char>)
    ensures
        -1 <= paths::last_slash(s) < s.len(),
    decreases s.len(),
{
    if s.len() > 0 && s.last() != '/' {
        last_slash_bounds(s.drop_last());
    }
}

/// How a file is called in the list: by its path within the project, or, where it lies outside or
/// there is none, by its whole path; with slashes.
pub open spec fn listed_path(path: Seq<char>, relative: Option<Seq<char>>) -> Seq<char> {
    paths::with_slashes(
        match relative {
            Some(r) => r,
            None => path,
        },
    )
}

/// The path of a file within the project at `root`.
pub open spec fn within(path: PathBuf, root: Option<Seq<char>>) -> Option<Seq<char>> {
    match root {
        Some(r) => paths::relative_text(path, r),
        None => None,
    }
}

/// The header of a file that is called `listed`.
pub open spec fn header(listed: Seq<char>, counts: FileCounts) -> RowView {
    RowView::FileHeader { filename: name_and_dir(listed).0, dir: name_and_dir(listed).1, counts }
}

/// The header of a file in the project at `root`.
pub fn file_header(path: &PathBuf, root: Option<&str>, counts: FileCounts) -> (row: Row)
    ensures
        row@ == header(
            listed_path(
                paths::path_text_of(*path),
                within(
                    *path,
                    match root {
                        Some(r) => Some(r@),
                        None => None,
                    },
                ),
            ),
            counts,
        ),
{
    let relative: Option<String> = match root {
        Some(r) => path_within(path, r),
        None => None,
    };
    header_row(path_text(path).as_str(), relative, counts)
}

/// The header of a file, where `relative` is its path within the project.
pub fn header_row(path: &str, relative: Option<String>, counts: FileCounts) -> (row: Row)
    ensures
        row@ == header(listed_path(path@, paths::text_view(relative)), counts),
{
    let listed: String = match relative {
        Some(r) => slashed(r.as_str()),
        None => slashed(path),
    };
    let (filename, dir): (String, String) = split_path(listed.as_str());
    Row::FileHeader { filename, dir, counts }
}

/// What the header of a file says of its counts, with the color: the number of references; or
/// the numbers of errors and warnings, as far as there are any.
pub open spec fn count_labels(counts: FileCounts) -> Seq<(Seq<char>, ColorRole)> {
    match counts {
        FileCounts::Refs(n) => seq![(text::decimal(n as nat), ColorRole::TextSubtle)],
        FileCounts::Problems { errors, warnings } => {
            let e = if errors > 0 {
                seq![(text::decimal(errors as nat).push('E'), ColorRole::Error)]
            } else {
                Seq::empty()
            };
            if warnings > 0 {
                e.push((text::decimal(warnings as nat).push('W'), ColorRole::Warning))
            } else {
                e
            }
        },
    }
}

/// Labels by their values.
pub open spec fn label_views(labels: Seq<(String, ColorRole)>) -> Seq<(Seq<char>, ColorRole)> {
    labels.map_values(|l: (String, ColorRole)| (l.0@, l.1))
}

/// A number as text.
fn number(n: usize) -> (s: String)
    ensures
        s@ == text::decimal(n as nat),
{
    let mut s: String = String::new();
    push_decimal(&mut s, n as u64);
    assert(s@ =~= text::decimal(n as nat));
    s
}

/// What the header of a file says of its counts, with the color.
pub fn counts_shown(counts: FileCounts) -> (labels: Vec<(String, ColorRole)>)
    ensures
        label_views(labels@) == count_labels(counts),
{
    let mut labels: Vec<(String, ColorRole)> = Vec::new();
    match counts {
        FileCounts::Refs(n) => {
            labels.push((number(n), ColorRole::TextSubtle));
        },
        FileCounts::Problems { errors, warnings } => {
            if errors > 0 {
                let mut s: String = number(errors);
                push_char(&mut s, 'E');
                labels.push((s, ColorRole::Error));
            }
            if warnings > 0 {
                let mut s: String = number(warnings);
                push_char(&mut s, 'W');
                labels.push((s, ColorRole::Warning));
            }
        },
    }
    assert(label_views(labels@) =~= count_labels(counts));
    labels
}

/// The letter and the color of a severity.
pub open spec fn badge(severity: Severity) -> (char, ColorRole) {
    match severity {
        Severity::Error => ('E', ColorRole::Error),
        Severity::Warning => ('W', ColorRole::Warning),
        Severity::Information => ('I', ColorRole::Info),
        Severity::Hint => ('H', ColorRole::TextSubtle),
    }
}

/// The letter and the color of a severity.
pub fn severity_badge(severity: Severity) -> (b: (char, ColorRole))
    ensures
        b == badge(severity),
{
    match severity {
        Severity::Error => ('E', ColorRole::Error),
        Severity::Warning => ('W', ColorRole::Warning),
        Severity::Information => ('I', ColorRole::Info),
        Severity::Hint => ('H', ColorRole::TextSubtle),
    }
}

/// How the line `line`, counted from zero, is named: by a colon and its number, counted from one.
pub fn line_label(line: u64) -> (s: String)
    requires
        line < u64::MAX,
    ensures
        s@ == seq![':'] + text::decimal((line + 1) as nat),
{
    let mut s: String = String::new();
    push_char(&mut s, ':');
    push_decimal(&mut s, line + 1);
    assert(s@ =~= seq![':'] + text::decimal((line + 1) as nat));
    s
}

} // verus!
