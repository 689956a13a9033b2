//! The panel that lists the references to a symbol, file by file.
use std::path::PathBuf;
use vstd::prelude::*;

use crate::locations;
use crate::locations::Location;
use crate::panels::results_list;
use crate::panels::results_list::{file_header, FileCounts, Row, RowView};
use crate::paths;
use crate::paths::is_one_file;
use crate::text;
use crate::text::{lines_of, trim};

verus! {

/// The references in one file.
#[derive(Debug)]
pub struct FileRefs {
    pub path: PathBuf,
    /// The line and the column of each.
    pub entries: Vec<(usize, usize)>,
}

/// The panel that lists references.
#[derive(Debug)]
pub struct ReferencesPanel {
    pub rows: Vec<Row>,
}

/// Whether one of `files` is the file `path`.
pub open spec fn names_file(files: Seq<PathBuf>, path: PathBuf) -> bool {
    exists|i: int| 0 <= i < files.len() && paths::one_file(#[trigger] files[i], path)
}

/// The files of the first `n` places, each once, in the order in which they come up, by the path
/// that each comes up with first.
pub open spec fn files_seen(ls: Seq<(PathBuf, usize, usize)>, n: int) -> Seq<PathBuf>
    decreases n,
{
    if n <= 0 {
        Seq::empty()
    } else {
        let before = files_seen(ls, n - 1);
        if names_file(before, ls[n - 1].0) { before } else { before.push(ls[n - 1].0) }
    }
}

/// Where the places among the first `n` are that lie in the file `path`.
pub open spec fn places_in(ls: Seq<(PathBuf, usize, usize)>, path: PathBuf, n: int) -> Seq<(usize, usize)>
    decreases n,
{
    if n <= 0 {
        Seq::empty()
    } else if paths::one_file(ls[n - 1].0, path) {
        places_in(ls, path, n - 1).push((ls[n - 1].1, ls[n - 1].2))
    } else {
        places_in(ls, path, n - 1)
    }
}

/// Whether `groups` are the first `n` places, file by file.
pub open spec fn by_file(ls: Seq<(PathBuf, usize, usize)>, groups: Seq<FileRefs>, n: int) -> bool {
    &&& files_seen(ls, n) == Seq::new(groups.len(), |i: int| groups[i].path)
    &&& forall|i: int|
        0 <= i < groups.len() ==> (#[trigger] groups[i]).entries@ == places_in(ls, groups[i].path, n)
}

/// The place of `path` among the files of `groups`; their number where it is not among them.
fn find_file(groups: &[FileRefs], path: &PathBuf) -> (i: usize)
    ensures
        i <= groups@.len(),
        i < groups@.len() ==> paths::one_file(groups@[i as int].path, *path),
        forall|k: int| 0 <= k < i ==> !paths::one_file((#[trigger] groups@[k]).path, *path),
{
    let mut i: usize = 0;
    while i < groups.len()
        invariant
            i <= groups@.len(),
            forall|k: int| 0 <= k < i ==> !paths::one_file((#[trigger] groups@[k]).path, *path),
        decreases groups@.len() - i,
    {
        if is_one_file(&groups[i].path, path) {
            return i;
        }
        i = i + 1;
    }
    i
}

/// What lies in a file that does not come up is nothing.
proof fn unseen_has_no_places(ls: Seq<(PathBuf, usize, usize)>, path: PathBuf, n: int)
    requires
        0 <= n <= ls.len(),
        !names_file(files_seen(ls, n), path),
    ensures
        places_in(ls, path, n) == Seq::<(usize, usize)>::empty(),
    decreases n,
{
    if n > 0 {
        let before = files_seen(ls, n - 1);
        if names_file(before, path) {
            let k = choose|k: int| 0 <= k < before.len() && paths::one_file(#[trigger] before[k], path);
            assert(files_seen(ls, n)[k] == before[k]);
        }
        if paths::one_file(ls[n - 1].0, path) {
            if names_file(before, ls[n - 1].0) {
                let k = choose|k: int| 0 <= k < before.len() && paths::one_file(#[trigger] before[k], ls[n - 1].0);
                assert(paths::one_file(before[k], path));
            }
            assert(paths::one_file(files_seen(ls, n).last(), path));
        }
        unseen_has_no_places(ls, path, n - 1);
    }
}

/// No file comes up twice.
pub proof fn files_seen_once(ls: Seq<(PathBuf, usize, usize)>, n: int)
    requires
        0 <= n <= ls.len(),
    ensures
        forall|i: int, j: int|
            0 <= i < j < files_seen(ls, n).len() ==> !paths::one_file(
                #[trigger] files_seen(ls, n)[i],
                #[trigger] files_seen(ls, n)[j],
            ),
    decreases n,
{
    if n > 0 {
        files_seen_once(ls, n - 1);
        let before = files_seen(ls, n - 1);
        let after = files_seen(ls, n);
        assert forall|i: int, j: int| 0 <= i < j < after.len() implies !paths::one_file(
            #[trigger] after[i],
            #[trigger] after[j],
        ) by {
            assert(after[i] == before[i]);
            if j < before.len() {
                assert(after[j] == before[j]);
            }
        }
    }
}

/// Groups places file by file, in the order in which the files come up.
pub fn group_by_file(ls: &[Location]) -> (groups: Vec<FileRefs>)
    ensures
        by_file(locations::places(ls@), groups@, ls@.len() as int),
{
    let ghost places = locations::places(ls@);
    let mut groups: Vec<FileRefs> = Vec::new();
    let mut n: usize = 0;
    assert(files_seen(places, 0) =~= Seq::new(0, |i: int| groups@[i].path));
    while n < ls.len()
        invariant
            n <= ls@.len(),
            places == locations::places(ls@),
            by_file(places, groups@, n as int),
        decreases ls@.len() - n,
    {
        let ghost before = groups@;
        let ghost seen = files_seen(places, n as int);
        let path: &PathBuf = &ls[n].path;
        let i: usize = find_file(groups.as_slice(), path);
        proof {
            files_seen_once(places, n as int);
            assert(seen == Seq::new(before.len(), |i: int| before[i].path));
        }
        if i < groups.len() {
            assert(paths::one_file(seen[i as int], *path));
            assert(names_file(seen, *path));
            let mut entries: Vec<(usize, usize)> = Vec::new();
            let mut k: usize = 0;
            while k < groups[i].entries.len()
                invariant
                    i < groups@.len(),
                    k <= groups@[i as int].entries@.len(),
                    entries@ == groups@[i as int].entries@.take(k as int),
                decreases groups@[i as int].entries@.len() - k,
            {
                entries.push(groups[i].entries[k]);
                k = k + 1;
                assert(entries@ =~= groups@[i as int].entries@.take(k as int));
            }
            assert(entries@ =~= before[i as int].entries@);
            entries.push((ls[n].line, ls[n].character));
            let first: PathBuf = groups[i].path.clone();
            groups.set(i, FileRefs { path: first, entries });
            proof {
                let after = groups@;
                assert(files_seen(places, n + 1) =~= Seq::new(after.len(), |i: int| after[i].path));
                assert forall|j: int| 0 <= j < after.len() implies (#[trigger] after[j]).entries@ == places_in(
                    places,
                    after[j].path,
                    n + 1,
                ) by {
                    if j != i {
                        assert(seen[j] == before[j].path);
                        assert(!paths::one_file(seen[j], seen[i as int]));
                    }
                }
            }
        } else {
            proof {
                if names_file(seen, *path) {
                    let k = choose|k: int| 0 <= k < seen.len() && paths::one_file(#[trigger] seen[k], *path);
                    assert(paths::one_file(before[k].path, *path));
                }
                unseen_has_no_places(places, *path, n as int);
            }
            let mut entries: Vec<(usize, usize)> = Vec::new();
            entries.push((ls[n].line, ls[n].character));
            groups.push(FileRefs { path: path.clone(), entries });
            proof {
                let after = groups@;
                assert(files_seen(places, n + 1) =~= Seq::new(after.len(), |i: int| after[i].path));
                assert forall|j: int| 0 <= j < after.len() implies (#[trigger] after[j]).entries@ == places_in(
                    places,
                    after[j].path,
                    n + 1,
                ) by {
                    if j < before.len() {
                        assert(after[j] == before[j]);
                        assert(seen[j] == before[j].path);
                    } else {
                        assert(places_in(places, *path, n + 1) =~= seq![(ls@[n as int].line, ls@[n as int].character)]);
                    }
                }
            }
        }
        n = n + 1;
    }
    groups
}

/// What is shown of a line of a file whose text is `content`, without the white space round it:
/// nothing where the file could not be read or has no such line.
pub open spec fn preview_of(content: Option<Seq<char>>, line: int) -> Seq<char> {
    match content {
        Some(s) => if line < text::lines(s).len() { text::trimmed(text::lines(s)[line]) } else { Seq::empty() },
        None => Seq::empty(),
    }
}

/// What is shown of a line of a file whose text is `content`.
pub fn line_preview(content: Option<&str>, line: usize) -> (s: String)
    ensures
        s@ == preview_of(
            match content {
                Some(c) => Some(c@),
                None => None,
            },
            line as int,
        ),
{
    match content {
        Some(c) => {
            let lines: Vec<String> = lines_of(c);
            if line < lines.len() { trim(lines[line].as_str()) } else { String::new() }
        },
        None => String::new(),
    }
}

/// The rows of the first `n` references in a file.
pub open spec fn entry_rows(path: PathBuf, entries: Seq<(usize, usize)>, content: Option<Seq<char>>, n: int) -> Seq<RowView>
    decreases n,
{
    if n <= 0 {
        Seq::empty()
    } else {
        entry_rows(path, entries, content, n - 1).push(
            RowView::RefEntry {
                path,
                line: entries[n - 1].0,
                col: entries[n - 1].1,
                preview: preview_of(content, entries[n - 1].0 as int),
            },
        )
    }
}

/// The rows of the first `n` files: for each a header with the number of references, and these.
pub open spec fn panel_rows(
    groups: Seq<FileRefs>,
    contents: Seq<Option<Seq<char>>>,
    root: Option<Seq<char>>,
    n: int,
) -> Seq<RowView>
    decreases n,
{
    if n <= 0 {
        Seq::empty()
    } else {
        let g = groups[n - 1];
        panel_rows(groups, contents, root, n - 1) + seq![
            results_list::header(
                results_list::listed_path(paths::path_text_of(g.path), results_list::within(g.path, root)),
                FileCounts::Refs(g.entries@.len() as usize),
            ),
        ] + entry_rows(g.path, g.entries@, contents[n - 1], g.entries@.len() as int)
    }
}

/// Texts that may be missing, by their values.
pub open spec fn content_views(cs: Seq<Option<String>>) -> Seq<Option<Seq<char>>> {
    Seq::new(
        cs.len(),
        |i: int|
            match cs[i] {
                Some(s) => Some(s@),
                None => None,
            },
    )
}

impl ReferencesPanel {
    /// An empty panel.
    pub fn new() -> (p: ReferencesPanel)
        ensures
            p.rows@.len() == 0,
    {
        ReferencesPanel { rows: Vec::new() }
    }

    /// Lists references file by file. `contents` are the texts of the files, as far as they could
    /// be read; `root` is the folder of the project.
    pub fn populate(&mut self, groups: &[FileRefs], contents: &[Option<String>], root: Option<&str>)
        requires
            groups@.len() == contents@.len(),
        ensures
            results_list::row_views(final(self).rows@) == panel_rows(
                groups@,
                content_views(contents@),
                match root {
                    Some(r) => Some(r@),
                    None => None,
                },
                groups@.len() as int,
            ),
    {
        let ghost root_text = match root {
            Some(r) => Some(r@),
            None => None,
        };
        let ghost texts = content_views(contents@);
        let mut rows: Vec<Row> = Vec::new();
        let mut n: usize = 0;
        assert(results_list::row_views(rows@) =~= Seq::empty());
        while n < groups.len()
            invariant
                n <= groups@.len(),
                groups@.len() == contents@.len(),
                texts == content_views(contents@),
                root_text == match root {
                    Some(r) => Some(r@),
                    None => None,
                },
                results_list::row_views(rows@) == panel_rows(groups@, texts, root_text, n as int),
            decreases groups@.len() - n,
        {
            let g: &FileRefs = &groups[n];
            let ghost start = results_list::row_views(rows@);
            let head: Row = file_header(&g.path, root, FileCounts::Refs(g.entries.len()));
            let ghost shown = start + seq![head@];
            rows.push(head);
            assert(results_list::row_views(rows@) =~= shown);
            let content: Option<&str> = match &contents[n] {
                Some(s) => Some(s.as_str()),
                None => None,
            };
            let ghost content_text = texts[n as int];
            let mut k: usize = 0;
            assert(shown + entry_rows(g.path, g.entries@, content_text, 0) =~= shown);
            while k < g.entries.len()
                invariant
                    k <= g.entries@.len(),
                    content_text == match content {
                        Some(c) => Some(c@),
                        None => None,
                    },
                    results_list::row_views(rows@) == shown + entry_rows(g.path, g.entries@, content_text, k as int),
                decreases g.entries@.len() - k,
            {
                let ghost before = rows@;
                let (line, col): (usize, usize) = g.entries[k];
                let row: Row = Row::RefEntry {
                    path: g.path.clone(),
                    line,
                    col,
                    preview: line_preview(content, line),
                };
                rows.push(row);
                k = k + 1;
                assert(results_list::row_views(rows@) =~= results_list::row_views(before).push(row@));
                assert(results_list::row_views(rows@) =~= shown + entry_rows(
                    g.path,
                    g.entries@,
                    content_text,
                    k as int,
                ));
            }
            n = n + 1;
            assert(results_list::row_views(rows@) =~= panel_rows(groups@, texts, root_text, n as int));
        }
        self.rows = rows;
    }
}

} // verus!
