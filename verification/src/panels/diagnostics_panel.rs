//! The panel that lists the problems in all files.
use std::path::PathBuf;
use vstd::prelude::*;

use crate::buffer_view::{DiagnosticEntry, Severity};
use crate::panels::results_list;
use crate::paths;
use crate::panels::results_list::{file_header, FileCounts, Row, RowView};

verus! {

/// The problems in one file.
#[derive(Debug)]
pub struct FileProblems {
    pub path: PathBuf,
    pub entries: Vec<DiagnosticEntry>,
}

/// The panel that lists problems.
#[derive(Debug)]
pub struct DiagnosticsPanel {
    pub rows: Vec<Row>,
    /// The state of the problems that the rows were made from.
    pub last_generation: Option<u64>,
    pub total_errors: usize,
    pub total_warnings: usize,
}

/// How many of the first `n` problems have a severity.
pub open spec fn count_of(entries: Seq<DiagnosticEntry>, severity: Severity, n: int) -> int
    decreases n,
{
    if n <= 0 {
        0
    } else {
        count_of(entries, severity, n - 1) + if entries[n - 1].severity == severity { 1int } else { 0 }
    }
}

/// How many problems in the first `n` files have a severity.
pub open spec fn total_of(files: Seq<FileProblems>, severity: Severity, n: int) -> int
    decreases n,
{
    if n <= 0 {
        0
    } else {
        total_of(files, severity, n - 1) + count_of(
            files[n - 1].entries@,
            severity,
            files[n - 1].entries@.len() as int,
        )
    }
}

/// The rows of the first `n` problems in a file.
pub open spec fn entry_rows(path: PathBuf, entries: Seq<DiagnosticEntry>, n: int) -> Seq<RowView>
    decreases n,
{
    if n <= 0 {
        Seq::empty()
    } else {
        let e = entries[n - 1];
        entry_rows(path, entries, n - 1).push(
            RowView::DiagEntry {
                path,
                lsp_line: e.lsp_line,
                message: e.message@,
                severity: e.severity,
                source: e.source@,
            },
        )
    }
}

/// The counts of a file.
pub open spec fn counts_of(f: FileProblems) -> FileCounts {
    FileCounts::Problems {
        errors: count_of(f.entries@, Severity::Error, f.entries@.len() as int) as usize,
        warnings: count_of(f.entries@, Severity::Warning, f.entries@.len() as int) as usize,
    }
}

/// The rows of the first `n` files: for each a header with its counts, and its problems.
pub open spec fn panel_rows(files: Seq<FileProblems>, root: Option<Seq<char>>, n: int) -> Seq<RowView>
    decreases n,
{
    if n <= 0 {
        Seq::empty()
    } else {
        let f = files[n - 1];
        panel_rows(files, root, n - 1) + seq![
            results_list::header(
                results_list::listed_path(paths::path_text_of(f.path), results_list::within(f.path, root)),
                counts_of(f),
            ),
        ] + entry_rows(f.path, f.entries@, f.entries@.len() as int)
    }
}

/// How many problems have a severity.
fn count_severity(entries: &[DiagnosticEntry], severity: Severity) -> (c: usize)
    ensures
        c == count_of(entries@, severity, entries@.len() as int),
        c <= entries@.len(),
{
    let mut c: usize = 0;
    let mut n: usize = 0;
    while n < entries.len()
        invariant
            n <= entries@.len(),
            c == count_of(entries@, severity, n as int),
            c <= n,
        decreases entries@.len() - n,
    {
        if entries[n].severity == severity {
            c = c + 1;
        }
        n = n + 1;
    }
    c
}

/// How many problems there are in the first `n` files grows with `n`.
proof fn totals_grow(files: Seq<FileProblems>, severity: Severity, a: int, b: int)
    requires
        0 <= a <= b <= files.len(),
    ensures
        0 <= total_of(files, severity, a) <= total_of(files, severity, b),
    decreases b,
{
    if b > 0 {
        counts_are_positive(files[b - 1].entries@, severity, files[b - 1].entries@.len() as int);
        if a < b {
            totals_grow(files, severity, a, b - 1);
        } else {
            totals_grow(files, severity, a - 1, b - 1);
        }
    }
}

proof fn counts_are_positive(entries: Seq<DiagnosticEntry>, severity: Severity, n: int)
    ensures
        0 <= count_of(entries, severity, n),
    decreases n,
{
    if n > 0 {
        counts_are_positive(entries, severity, n - 1);
    }
}

impl DiagnosticsPanel {
    /// An empty panel.
    pub fn new() -> (p: DiagnosticsPanel)
        ensures
            p.rows@.len() == 0,
            p.last_generation is None,
            p.total_errors == 0,
            p.total_warnings == 0,
    {
        DiagnosticsPanel { rows: Vec::new(), last_generation: None, total_errors: 0, total_warnings: 0 }
    }

    /// Takes note that the problems come from another store: the rows are to be made anew.
    pub fn set_store(&mut self)
        ensures
            *final(self) == (DiagnosticsPanel { last_generation: None, ..*old(self) }),
    {
        self.last_generation = None;
    }

    /// Whether the rows were made from another state of the problems.
    pub fn is_stale(&self, generation: u64) -> (b: bool)
        ensures
            b == (self.last_generation != Some(generation)),
    {
        match self.last_generation {
            Some(g) => g != generation,
            None => true,
        }
    }

    /// Empties the panel, as there is no store.
    pub fn clear(&mut self)
        ensures
            final(self).rows@.len() == 0,
            final(self).total_errors == 0,
            final(self).total_warnings == 0,
            final(self).last_generation == old(self).last_generation,
    {
        self.rows = Vec::new();
        self.total_errors = 0;
        self.total_warnings = 0;
    }

    /// Lists the problems of all files. `generation` is their state; `root` is the folder of the
    /// project.
    pub fn rebuild_rows(&mut self, files: &[FileProblems], generation: u64, root: Option<&str>)
        requires
            total_of(files@, Severity::Error, files@.len() as int) <= usize::MAX,
            total_of(files@, Severity::Warning, files@.len() as int) <= usize::MAX,
        ensures
            results_list::row_views(final(self).rows@) == panel_rows(
                files@,
                match root {
                    Some(r) => Some(r@),
                    None => None,
                },
                files@.len() as int,
            ),
            final(self).total_errors == total_of(files@, Severity::Error, files@.len() as int),
            final(self).total_warnings == total_of(files@, Severity::Warning, files@.len() as int),
            final(self).last_generation == Some(generation),
    {
        let ghost root_text = match root {
            Some(r) => Some(r@),
            None => None,
        };
        let mut rows: Vec<Row> = Vec::new();
        let mut errors: usize = 0;
        let mut warnings: usize = 0;
        let mut n: usize = 0;
        assert(results_list::row_views(rows@) =~= Seq::empty());
        while n < files.len()
            invariant
                n <= files@.len(),
                root_text == match root {
                    Some(r) => Some(r@),
                    None => None,
                },
                total_of(files@, Severity::Error, files@.len() as int) <= usize::MAX,
                total_of(files@, Severity::Warning, files@.len() as int) <= usize::MAX,
                errors == total_of(files@, Severity::Error, n as int),
                warnings == total_of(files@, Severity::Warning, n as int),
                results_list::row_views(rows@) == panel_rows(files@, root_text, n as int),
            decreases files@.len() - n,
        {
            let f: &FileProblems = &files[n];
            let e: usize = count_severity(f.entries.as_slice(), Severity::Error);
            let w: usize = count_severity(f.entries.as_slice(), Severity::Warning);
            proof {
                totals_grow(files@, Severity::Error, n + 1, files@.len() as int);
                totals_grow(files@, Severity::Warning, n + 1, files@.len() as int);
            }
            errors = errors + e;
            warnings = warnings + w;
            let ghost start = results_list::row_views(rows@);
            let head: Row = file_header(&f.path, root, FileCounts::Problems { errors: e, warnings: w });
            let ghost shown = start + seq![head@];
            rows.push(head);
            assert(results_list::row_views(rows@) =~= shown);
            let mut k: usize = 0;
            assert(shown + entry_rows(f.path, f.entries@, 0) =~= shown);
            while k < f.entries.len()
                invariant
                    k <= f.entries@.len(),
                    results_list::row_views(rows@) == shown + entry_rows(f.path, f.entries@, k as int),
                decreases f.entries@.len() - k,
            {
                let ghost before = rows@;
                let entry: &DiagnosticEntry = &f.entries[k];
                let row: Row = Row::DiagEntry {
                    path: f.path.clone(),
                    lsp_line: entry.lsp_line,
                    message: entry.message.clone(),
                    severity: entry.severity,
                    source: entry.source.clone(),
                };
                rows.push(row);
                k = k + 1;
                assert(results_list::row_views(rows@) =~= results_list::row_views(before).push(row@));
                assert(results_list::row_views(rows@) =~= shown + entry_rows(f.path, f.entries@, k as int));
            }
            n = n + 1;
            assert(results_list::row_views(rows@) =~= panel_rows(files@, root_text, n as int));
        }
        self.rows = rows;
        self.total_errors = errors;
        self.total_warnings = warnings;
        self.last_generation = Some(generation);
    }
}

} // verus!
