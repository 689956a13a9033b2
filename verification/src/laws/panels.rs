//! What tabs, panels and lists of places show.
use std::path::PathBuf;
use vstd::prelude::*;

use crate::buffer_view::{ColorRole, DiagnosticEntry, Severity};
use crate::completion_logic::LspPosition;
use crate::json;
use crate::json::Json;
use crate::locations;
use crate::locations::Location;
use crate::markdown::OutlineItem;
use crate::pane;
use crate::pane::{Pane, Tab, TabKind, TabLabels};
use crate::panels::diagnostics_panel;
use crate::panels::diagnostics_panel::FileProblems;
use crate::panels::references_panel;
use crate::panels::references_panel::FileRefs;
use crate::panels::results_list;
use crate::panels::results_list::{FileCounts, RowView};
use crate::paths;
use crate::sidebar;
use crate::sidebar::{Chevron, HeadingRow, RowClick, TreeRow};
use crate::sidebar_logic;
use crate::sidebar_logic::{FilePath, PathView};
use crate::text;

verus! {

// ── Tabs ──────────────────────────────────────────────────────────────────────

/// When the active tab is closed, the one behind it becomes active; when it was the last, the one
/// before it. Closing the only tab leaves none active.
pub proof fn closing_moves_to_the_neighbor<A>(tabs: Seq<A>, ix: usize)
    requires
        ix < tabs.len() <= usize::MAX,
    ensures
        tabs.len() == 1 ==> pane::active_after_removal(Some(ix), ix as int, 1) is None,
        tabs.len() > 1 ==> pane::active_after_removal(Some(ix), ix as int, tabs.len() as int) is Some,
        tabs.len() > 1 && ix + 1 < tabs.len() ==> tabs.remove(ix as int)[pane::active_after_removal(
            Some(ix),
            ix as int,
            tabs.len() as int,
        )->0 as int] == tabs[ix + 1],
        tabs.len() > 1 && ix + 1 == tabs.len() ==> tabs.remove(ix as int)[pane::active_after_removal(
            Some(ix),
            ix as int,
            tabs.len() as int,
        )->0 as int] == tabs[ix - 1],
{
}

/// A new tab comes last and is active; those that were there stay as they are.
pub proof fn new_tabs_come_last(a: Pane, b: Pane, kind: TabKind, path: Option<String>, i: int)
    requires
        a.pushed(b, kind, path),
        a.tabs@.len() < usize::MAX,
        0 <= i < a.tabs@.len(),
    ensures
        b.tabs@.len() == a.tabs@.len() + 1,
        b.tabs@[i] == a.tabs@[i],
        b.current() is Some && b.current()->0.kind == kind && b.current()->0.path == path,
        b.current()->0.id >= a.next_tab_id,
{
}

/// A tab is named after its file, or as untitled; other tabs have names of their own.
pub proof fn tabs_have_their_name(kind: TabKind, name: Option<Seq<char>>, labels: TabLabels)
    ensures
        kind == TabKind::Editor && name is Some ==> pane::title_text(kind, name, labels) == name->0,
        kind == TabKind::Editor && name is None ==> pane::title_text(kind, name, labels) == labels.untitled@,
        kind == TabKind::Settings ==> pane::title_text(kind, name, labels) == labels.settings@,
        kind == TabKind::ProjectSearch ==> pane::title_text(kind, name, labels) == labels.search@,
        kind == TabKind::Problems ==> pane::title_text(kind, name, labels) == labels.problems@,
{
}

/// A tab shows a file where it is an editor of it, however the path is written.
pub proof fn editors_show_their_file(tab: Tab, path: Seq<char>)
    ensures
        pane::shows_path(tab, path) ==> tab.kind == TabKind::Editor && tab.path is Some,
        tab.kind == TabKind::Editor && tab.path is Some && tab.path->0@ == path ==> pane::shows_path(tab, path),
        pane::shows_path(tab, path) ==> paths::components_of(paths::path_of(tab.path->0@)) == paths::components_of(
            paths::path_of(path),
        ),
{
}

// ── Paths ─────────────────────────────────────────────────────────────────────

/// A file of the project is called by its path in it; any other by its name, or, without one, by
/// its path.
pub proof fn files_are_called_by_their_place(path: Seq<char>, relative: Option<Seq<char>>, name: Option<Seq<char>>)
    ensures
        relative is Some ==> paths::path_label(path, true, relative, name) == relative->0,
        relative is None && name is Some ==> paths::path_label(path, true, relative, name) == name->0,
        name is Some ==> paths::path_label(path, false, relative, name) == name->0,
        name is None ==> paths::path_label(path, false, relative, name) == path,
{
}

/// Backslashes become slashes; nothing else changes.
pub proof fn backslashes_become_slashes(s: Seq<char>, i: int)
    requires
        0 <= i < s.len(),
    ensures
        paths::with_slashes(s).len() == s.len(),
        s[i] == '\\' ==> paths::with_slashes(s)[i] == '/',
        s[i] != '\\' ==> paths::with_slashes(s)[i] == s[i],
{
}

proof fn slash_bounds(s: Seq<char>)
    ensures
        -1 <= paths::last_slash(s) < s.len(),
        paths::last_slash(s) >= 0 ==> s[paths::last_slash(s)] == '/',
        forall|i: int| paths::last_slash(s) < i < s.len() ==> s[i] != '/',
    decreases s.len(),
{
    if s.len() > 0 && s.last() != '/' {
        slash_bounds(s.drop_last());
        assert forall|i: int| paths::last_slash(s) < i < s.len() implies s[i] != '/' by {
            if i < s.len() - 1 {
                assert(s[i] == s.drop_last()[i]);
            }
        }
    }
}

/// The name of a file is what stands behind the last slash of its path, and has none itself; its
/// folder is all before, up to and with that slash.
pub proof fn names_stand_behind_the_last_slash(rel: Seq<char>)
    ensures
        ({
            let (name, dir) = results_list::name_and_dir(rel);
            &&& dir + name == rel
            &&& forall|i: int| 0 <= i < name.len() ==> name[i] != '/'
            &&& dir.len() > 0 ==> dir.last() == '/'
        }),
{
    slash_bounds(rel);
    let (name, dir) = results_list::name_and_dir(rel);
    assert(dir + name =~= rel);
    let n = paths::last_slash(rel) + 1;
    assert forall|i: int| 0 <= i < name.len() implies name[i] != '/' by {
        assert(name[i] == rel[n + i]);
    }
}

/// Files are listed by their path in the project where they are in it, and by their whole path where
/// not, with slashes either way.
pub proof fn listed_paths_have_slashes(path: Seq<char>, relative: Option<Seq<char>>, i: int)
    requires
        0 <= i < results_list::listed_path(path, relative).len(),
    ensures
        results_list::listed_path(path, relative)[i] != '\\',
        relative is Some ==> results_list::listed_path(path, relative).len() == relative->0.len(),
        relative is None ==> results_list::listed_path(path, relative).len() == path.len(),
        relative is Some && relative->0[i] != '\\' ==> results_list::listed_path(path, relative)[i] == relative->0[i],
        relative is None && path[i] != '\\' ==> results_list::listed_path(path, relative)[i] == path[i],
{
}

// ── Headers and badges ────────────────────────────────────────────────────────

/// The header of a file tells how many errors and warnings it has, each only where there are any.
pub proof fn counts_are_shown_where_there_are_any(errors: usize, warnings: usize, refs: usize)
    ensures
        results_list::count_labels(FileCounts::Refs(refs)) == seq![(text::decimal(refs as nat), ColorRole::TextSubtle)],
        errors == 0 && warnings == 0 ==> results_list::count_labels(FileCounts::Problems { errors, warnings }).len() == 0,
        errors > 0 && warnings == 0 ==> results_list::count_labels(FileCounts::Problems { errors, warnings }) == seq![
            (text::decimal(errors as nat) + seq!['E'], ColorRole::Error),
        ],
        errors == 0 && warnings > 0 ==> results_list::count_labels(FileCounts::Problems { errors, warnings }) == seq![
            (text::decimal(warnings as nat) + seq!['W'], ColorRole::Warning),
        ],
        errors > 0 && warnings > 0 ==> results_list::count_labels(FileCounts::Problems { errors, warnings }) == seq![
            (text::decimal(errors as nat) + seq!['E'], ColorRole::Error),
            (text::decimal(warnings as nat) + seq!['W'], ColorRole::Warning),
        ],
{
    assert(text::decimal(errors as nat).push('E') =~= text::decimal(errors as nat) + seq!['E']);
    assert(text::decimal(warnings as nat).push('W') =~= text::decimal(warnings as nat) + seq!['W']);
    let none = Seq::<(Seq<char>, ColorRole)>::empty();
    let e = (text::decimal(errors as nat) + seq!['E'], ColorRole::Error);
    let w = (text::decimal(warnings as nat) + seq!['W'], ColorRole::Warning);
    assert(none.push(w) =~= seq![w]);
    assert(seq![e].push(w) =~= seq![e, w]);
}

/// A problem is marked by the letter and the color of its severity.
pub proof fn badges_tell_the_severity(s: Severity)
    ensures
        s == Severity::Error <==> results_list::badge(s) == ('E', ColorRole::Error),
        s == Severity::Warning <==> results_list::badge(s) == ('W', ColorRole::Warning),
        s == Severity::Information <==> results_list::badge(s) == ('I', ColorRole::Info),
        s == Severity::Hint <==> results_list::badge(s) == ('H', ColorRole::TextSubtle),
{
}

// ── Problems ──────────────────────────────────────────────────────────────────

/// Every problem of a severity counts once, and problems of another do not count.
pub proof fn problems_count_once(entries: Seq<DiagnosticEntry>, d: DiagnosticEntry, severity: Severity)
    ensures
        diagnostics_panel::count_of(entries.push(d), severity, entries.len() as int + 1) == diagnostics_panel::count_of(
            entries,
            severity,
            entries.len() as int,
        ) + if d.severity == severity { 1int } else { 0 },
        diagnostics_panel::count_of(Seq::empty(), severity, 0) == 0,
{
    same_counts(entries, entries.push(d), severity, entries.len() as int);
}

proof fn same_counts(a: Seq<DiagnosticEntry>, b: Seq<DiagnosticEntry>, severity: Severity, n: int)
    requires
        0 <= n <= a.len(),
        n <= b.len(),
        forall|i: int| 0 <= i < n ==> a[i] == b[i],
    ensures
        diagnostics_panel::count_of(a, severity, n) == diagnostics_panel::count_of(b, severity, n),
    decreases n,
{
    if n > 0 {
        same_counts(a, b, severity, n - 1);
    }
}

/// A file has one row for each of its problems, in their order, that tells what it is, how grave,
/// where and by whom.
pub proof fn problems_have_a_row_each(path: PathBuf, entries: Seq<DiagnosticEntry>, n: int, i: int)
    requires
        0 <= i < n <= entries.len(),
    ensures
        diagnostics_panel::entry_rows(path, entries, n).len() == n,
        diagnostics_panel::entry_rows(path, entries, n)[i] == (RowView::DiagEntry {
            path,
            lsp_line: entries[i].lsp_line,
            message: entries[i].message@,
            severity: entries[i].severity,
            source: entries[i].source@,
        }),
    decreases n,
{
    if i < n - 1 {
        problems_have_a_row_each(path, entries, n - 1, i);
    } else if n > 1 {
        problems_have_a_row_each(path, entries, n - 1, 0);
    } else {
        assert(diagnostics_panel::entry_rows(path, entries, 0).len() == 0);
    }
}

/// The panel lists file by file: a header with the numbers of its errors and warnings, and then its
/// problems.
pub proof fn panel_lists_file_by_file(files: Seq<FileProblems>, root: Option<Seq<char>>, n: int)
    requires
        0 < n <= files.len(),
    ensures
        ({
            let all = diagnostics_panel::panel_rows(files, root, n);
            let before = diagnostics_panel::panel_rows(files, root, n - 1);
            let f = files[n - 1];
            let own = diagnostics_panel::entry_rows(f.path, f.entries@, f.entries@.len() as int);
            &&& all.take(before.len() as int) == before
            &&& all[before.len() as int] is FileHeader
            &&& all[before.len() as int]->counts == (FileCounts::Problems {
                errors: diagnostics_panel::count_of(f.entries@, Severity::Error, f.entries@.len() as int) as usize,
                warnings: diagnostics_panel::count_of(f.entries@, Severity::Warning, f.entries@.len() as int) as usize,
            })
            &&& all.skip(before.len() as int + 1) == own
        }),
{
    let all = diagnostics_panel::panel_rows(files, root, n);
    let before = diagnostics_panel::panel_rows(files, root, n - 1);
    let f = files[n - 1];
    let own = diagnostics_panel::entry_rows(f.path, f.entries@, f.entries@.len() as int);
    assert(all.take(before.len() as int) =~= before);
    assert(all.skip(before.len() as int + 1) =~= own);
}

// ── References ────────────────────────────────────────────────────────────────

/// Every file that has a reference is listed.
pub proof fn files_with_references_are_listed(ls: Seq<(PathBuf, usize, usize)>, n: int, i: int)
    requires
        0 <= i < n <= ls.len(),
    ensures
        exists|k: int|
            0 <= k < references_panel::files_seen(ls, n).len() && paths::components_of(
                #[trigger] references_panel::files_seen(ls, n)[k],
            ) == paths::components_of(ls[i].0),
    decreases n,
{
    let before = references_panel::files_seen(ls, n - 1);
    let all = references_panel::files_seen(ls, n);
    if i == n - 1 {
        if references_panel::names_file(before, ls[i].0) {
            let k = choose|k: int| 0 <= k < before.len() && paths::one_file(#[trigger] before[k], ls[i].0);
            assert(all[k] == before[k]);
        } else {
            assert(all[before.len() as int] == ls[i].0);
        }
    } else {
        files_with_references_are_listed(ls, n - 1, i);
        let k = choose|k: int|
            0 <= k < references_panel::files_seen(ls, n - 1).len() && paths::components_of(
                #[trigger] references_panel::files_seen(ls, n - 1)[k],
            ) == paths::components_of(ls[i].0);
        assert(all[k] == before[k]);
    }
}

/// A reference is listed under its file, and under no other.
pub proof fn references_are_listed_under_their_file(ls: Seq<(PathBuf, usize, usize)>, path: PathBuf, n: int, line: usize, col: usize)
    requires
        0 <= n <= ls.len(),
    ensures
        references_panel::places_in(ls, path, n).contains((line, col)) <==> exists|i: int|
            0 <= i < n && paths::components_of((#[trigger] ls[i]).0) == paths::components_of(path) && ls[i].1 == line && ls[i].2
                == col,
    decreases n,
{
    if n > 0 {
        references_are_listed_under_their_file(ls, path, n - 1, line, col);
        let before = references_panel::places_in(ls, path, n - 1);
        let all = references_panel::places_in(ls, path, n);
        if before.contains((line, col)) {
            let k = choose|k: int| 0 <= k < before.len() && before[k] == (line, col);
            assert(all[k] == (line, col));
        }
        if all.contains((line, col)) {
            let k = choose|k: int| 0 <= k < all.len() && all[k] == (line, col);
            if k < before.len() {
                assert(before[k] == (line, col));
            } else {
                assert(ls[n - 1].1 == line);
            }
        }
        if paths::components_of(ls[n - 1].0) == paths::components_of(path) && ls[n - 1].1 == line && ls[n - 1].2 == col {
            assert(all.last() == (line, col));
        }
    }
}

/// A row of a reference shows its line without the white space around it; where the text is not
/// known, or has no such line, it shows nothing.
pub proof fn references_show_their_line(
    path: PathBuf,
    entries: Seq<(usize, usize)>,
    content: Option<Seq<char>>,
    n: int,
    i: int,
)
    requires
        0 <= i < n <= entries.len(),
    ensures
        ({
            let rows = references_panel::entry_rows(path, entries, content, n);
            &&& rows.len() == n
            &&& rows[i] is RefEntry
            &&& rows[i]->RefEntry_path == path && rows[i]->line == entries[i].0 && rows[i]->col == entries[i].1
            &&& content is None ==> rows[i]->preview.len() == 0
            &&& content is Some && entries[i].0 < text::lines(content->0).len() ==> rows[i]->preview == text::trimmed(
                text::lines(content->0)[entries[i].0 as int],
            )
            &&& content is Some && entries[i].0 >= text::lines(content->0).len() ==> rows[i]->preview.len() == 0
        }),
    decreases n,
{
    if i < n - 1 {
        references_show_their_line(path, entries, content, n - 1, i);
    } else if n > 1 {
        references_show_their_line(path, entries, content, n - 1, 0);
    } else {
        assert(references_panel::entry_rows(path, entries, content, 0).len() == 0);
    }
}

/// The references are listed file by file: a header with their number, and then each of them.
pub proof fn references_are_listed_file_by_file(
    groups: Seq<FileRefs>,
    contents: Seq<Option<Seq<char>>>,
    root: Option<Seq<char>>,
    n: int,
)
    requires
        0 < n <= groups.len(),
    ensures
        ({
            let all = references_panel::panel_rows(groups, contents, root, n);
            let before = references_panel::panel_rows(groups, contents, root, n - 1);
            let g = groups[n - 1];
            &&& all.take(before.len() as int) == before
            &&& all[before.len() as int] is FileHeader
            &&& all[before.len() as int]->counts == FileCounts::Refs(g.entries@.len() as usize)
            &&& all.skip(before.len() as int + 1) == references_panel::entry_rows(
                g.path,
                g.entries@,
                contents[n - 1],
                g.entries@.len() as int,
            )
        }),
{
    let all = references_panel::panel_rows(groups, contents, root, n);
    let before = references_panel::panel_rows(groups, contents, root, n - 1);
    let g = groups[n - 1];
    assert(all.take(before.len() as int) =~= before);
    assert(all.skip(before.len() as int + 1) =~= references_panel::entry_rows(
        g.path,
        g.entries@,
        contents[n - 1],
        g.entries@.len() as int,
    ));
}

// ── Places in answers ─────────────────────────────────────────────────────────

/// The member of an object is the first with its key.
pub proof fn first_member_counts(members: Vec<(String, Json)>, key: Seq<char>, k: int)
    requires
        0 <= k <= members@.len(),
        forall|i: int| 0 <= i < k ==> (#[trigger] members@[i]).0@ != key,
        k < members@.len() ==> members@[k].0@ == key,
    ensures
        k < members@.len() ==> Json::Object(members).member(key) == Some(members@[k].1),
        k == members@.len() ==> Json::Object(members).member(key) is None,
{
    member_found(members@, key, 0, k);
}

proof fn member_found(members: Seq<(String, Json)>, key: Seq<char>, i: int, k: int)
    requires
        0 <= i <= k <= members.len(),
        forall|j: int| i <= j < k ==> (#[trigger] members[j]).0@ != key,
        k < members.len() ==> members[k].0@ == key,
    ensures
        k < members.len() ==> json::member_from(members, key, i) == Some(members[k].1),
        k == members.len() ==> json::member_from(members, key, i) is None,
    decreases k - i,
{
    if i < k {
        member_found(members, key, i + 1, k);
    }
}

/// A target of an answer is where its range starts: the range of the selection where there is one,
/// else that of the target, else the plain one; in the file that it names.
pub proof fn targets_start_with_their_range(item: Json, range: Json, start: Json, uri: Json, line: u64, character: u64)
    requires
        item.member("targetSelectionRange"@) == Some(range) || (item.member("targetSelectionRange"@) is None && item.member(
            "targetRange"@,
        ) == Some(range)) || (item.member("targetSelectionRange"@) is None && item.member("targetRange"@) is None && item.member(
            "range"@,
        ) == Some(range)),
        item.member("targetUri"@) == Some(uri) || (item.member("targetUri"@) is None && item.member("uri"@) == Some(uri)),
        range is Object,
        range.member("start"@) == Some(start),
        start is Object,
        start.member("line"@) == Some(Json::Unsigned(line)),
        start.member("character"@) == Some(Json::Unsigned(character)),
        uri is Text,
        line <= usize::MAX,
        character <= usize::MAX,
    ensures
        locations::target_of(item) is Some,
        (locations::target_of(item)->0).0 == uri->Text_0@,
        (locations::target_of(item)->0).1 == line,
        (locations::target_of(item)->0).2 == character,
{
}

/// What has no file or no range is no target.
pub proof fn targets_need_a_file_and_a_range(item: Json)
    ensures
        item.member("targetUri"@) is None && item.member("uri"@) is None ==> locations::target_of(item) is None,
        item.member("targetSelectionRange"@) is None && item.member("targetRange"@) is None && item.member("range"@) is None
            ==> locations::target_of(item) is None,
{
}

/// An answer may be one place or a list of them; anything else holds none.
pub proof fn answers_are_one_or_many(val: Json)
    ensures
        val is List ==> locations::answer_items(val) == val->List_0@,
        val is Object ==> locations::answer_items(val) == seq![val],
        !(val is List) && !(val is Object) ==> locations::answer_items(val).len() == 0,
{
}

/// The targets are those of the items that are one, in their order.
pub proof fn items_that_are_no_target_are_left_out(items: Seq<Json>, n: int)
    requires
        0 < n <= items.len(),
    ensures
        locations::target_of(items[n - 1]) is None ==> locations::targets_of(items, n) == locations::targets_of(items, n - 1),
        locations::target_of(items[n - 1]) is Some ==> locations::targets_of(items, n).drop_last() == locations::targets_of(
            items,
            n - 1,
        ) && locations::targets_of(items, n).last() == locations::target_of(items[n - 1])->0,
{
    let all = locations::targets_of(items, n);
    if locations::target_of(items[n - 1]) is Some {
        assert(all.drop_last() =~= locations::targets_of(items, n - 1));
    }
}

/// Where the file of every target is known, there is a place for each, with its line and its column.
pub proof fn known_targets_are_places(ts: Seq<(Seq<char>, usize, usize)>, files: Seq<Option<PathBuf>>, n: int, i: int)
    requires
        0 <= i < n <= ts.len(),
        files.len() == ts.len(),
        forall|k: int| 0 <= k < n ==> (#[trigger] files[k]) is Some,
    ensures
        locations::located(ts, files, n).len() == n,
        locations::located(ts, files, n)[i] == (files[i]->0, ts[i].1, ts[i].2),
    decreases n,
{
    assert(files[n - 1] is Some);
    if i < n - 1 {
        known_targets_are_places(ts, files, n - 1, i);
    } else if n > 1 {
        known_targets_are_places(ts, files, n - 1, 0);
    } else {
        assert(locations::located(ts, files, 0).len() == 0);
    }
}

/// A target whose file is not known is left out.
pub proof fn unknown_targets_are_left_out(ts: Seq<(Seq<char>, usize, usize)>, files: Seq<Option<PathBuf>>, n: int)
    requires
        0 < n <= ts.len(),
        files.len() == ts.len(),
        files[n - 1] is None,
    ensures
        locations::located(ts, files, n) == locations::located(ts, files, n - 1),
{
}

/// A place is what it says: its file, its line and its column.
pub proof fn places_keep_their_parts(ls: Seq<Location>, i: int)
    requires
        0 <= i < ls.len(),
    ensures
        locations::places(ls).len() == ls.len(),
        locations::places(ls)[i].0 == ls[i].path,
        locations::places(ls)[i].1 == ls[i].line,
        locations::places(ls)[i].2 == ls[i].character,
{
}

/// What is sent as a position has its line and its character under these names.
pub proof fn positions_are_sent_by_name(j: Json, pos: LspPosition)
    requires
        locations::is_position(j, pos),
    ensures
        j.member("line"@) == Some(Json::Unsigned(pos.line as u64)),
        j.member("character"@) == Some(Json::Unsigned(pos.character as u64)),
{
    reveal_strlit("line");
    reveal_strlit("character");
    assert("line"@.len() == 4 && "character"@.len() == 9);
    let members = j->Object_0;
    assert(members@[0].0@ == "line"@ && members@[1].0@ == "character"@);
    first_member_counts(members, "line"@, 0);
    first_member_counts(members, "character"@, 1);
}

/// A document is sent by its address.
pub proof fn documents_are_sent_by_address(j: Json, uri: Seq<char>)
    requires
        locations::is_document(j, uri),
    ensures
        j.member("uri"@) is Some && j.member("uri"@)->0.text() == Some(uri),
{
    let members = j->Object_0;
    assert(members@[0].0@ == "uri"@);
    first_member_counts(members, "uri"@, 0);
}

/// A request tells whether a character triggered it, and which.
pub proof fn triggers_are_told(j: Json, ch: Option<Seq<char>>)
    requires
        locations::is_trigger(j, ch),
    ensures
        ch is None ==> j.member("triggerKind"@) == Some(Json::Unsigned(1)) && j.member("triggerCharacter"@) is None,
        ch is Some ==> j.member("triggerKind"@) == Some(Json::Unsigned(2)) && j.member("triggerCharacter"@) is Some && j.member(
            "triggerCharacter"@,
        )->0.text() == ch,
{
    reveal_strlit("triggerKind");
    reveal_strlit("triggerCharacter");
    assert("triggerKind"@.len() == 11 && "triggerCharacter"@.len() == 16);
    let members = j->Object_0;
    assert(members@[0].0@ == "triggerKind"@);
    first_member_counts(members, "triggerKind"@, 0);
    if ch is Some {
        assert(members@[1].0@ == "triggerCharacter"@);
        first_member_counts(members, "triggerCharacter"@, 1);
    } else {
        first_member_counts(members, "triggerCharacter"@, 1);
    }
}

// ── The sidebar ───────────────────────────────────────────────────────────────

/// Errors are graver than warnings, these than information, and that than hints; of two, the graver
/// counts.
pub proof fn errors_are_gravest(s: Severity)
    ensures
        sidebar_logic::graver(Severity::Error, s) == Severity::Error,
        sidebar_logic::graver(s, Severity::Error) == Severity::Error,
        sidebar_logic::graver(Severity::Hint, s) == s,
        sidebar_logic::graver(s, Severity::Hint) == s,
        sidebar_logic::graver(Severity::Warning, Severity::Information) == Severity::Warning,
        sidebar_logic::graver(Severity::Information, Severity::Warning) == Severity::Warning,
{
}

/// What is shown of a folder is the severity of a problem below it; with none below it, nothing.
pub proof fn folders_show_a_problem_below(files: Seq<(FilePath, Severity)>, path: PathView, n: int)
    requires
        0 <= n <= files.len(),
    ensures
        sidebar_logic::worst(files, path, n) is Some ==> exists|i: int|
            0 <= i < n && path.covers((#[trigger] files[i]).0@) && files[i].1 == sidebar_logic::worst(files, path, n)->0,
        sidebar_logic::worst(files, path, n) is None ==> forall|i: int| 0 <= i < n ==> !path.covers((#[trigger] files[i]).0@),
    decreases n,
{
    if n > 0 {
        folders_show_a_problem_below(files, path, n - 1);
        let f = files[n - 1];
        if sidebar_logic::worst(files, path, n - 1) is Some {
            let i = choose|i: int|
                0 <= i < n - 1 && path.covers((#[trigger] files[i]).0@) && files[i].1 == sidebar_logic::worst(files, path, n - 1)->0;
            assert(path.covers(files[i].0@));
        }
        if path.covers(f.0@) {
            assert(files[n - 1].1 == f.1);
        }
    }
}

/// A folder covers what lies below it, itself too, and nothing else.
pub proof fn folders_cover_what_is_below(a: PathView, more: Seq<Seq<char>>)
    ensures
        a.covers(PathView { absolute: a.absolute, parts: a.parts + more }),
        a.covers(a),
        !a.covers(PathView { absolute: !a.absolute, parts: a.parts + more }),
        more.len() > 0 ==> !(PathView { absolute: a.absolute, parts: a.parts + more }).covers(a),
{
    assert((a.parts + more).take(a.parts.len() as int) =~= a.parts);
    assert(a.parts.take(a.parts.len() as int) =~= a.parts);
}

/// Folders are opened and closed by a click, files are opened; only folders have a mark that tells
/// which, and only files have a dot. The file that is edited is marked.
pub proof fn rows_of_the_tree_tell_folders_from_files(row: TreeRow, active: Option<Seq<char>>, guides: bool)
    ensures
        ({
            let v = row.shown(active, guides);
            &&& row.is_dir <==> v.chevron is Some
            &&& row.is_dir && row.expanded ==> v.chevron == Some(Chevron::ExpandMore)
            &&& row.is_dir && !row.expanded ==> v.chevron == Some(Chevron::ChevronRight)
            &&& row.is_dir <==> v.click == RowClick::ToggleFolder
            &&& !row.is_dir <==> v.click == RowClick::OpenFile
            &&& v.dot <==> !row.is_dir
            &&& v.medium_weight <==> row.is_dir
            &&& guides ==> v.guides == row.depth
            &&& !guides ==> v.guides == 0
            &&& active is None ==> !v.active
            &&& active is Some && active->0 == row.path@ ==> v.active
            &&& v.active ==> v.color == ColorRole::Text
            &&& !v.active && row.is_dir ==> v.color == ColorRole::TextSubtle
            &&& !v.active && !row.is_dir ==> v.color == ColorRole::TextMuted
        }),
{
}

/// A heading is shown by its name, leads to its line, and is muted unless it is at the top level.
pub proof fn headings_lead_to_their_line(row: HeadingRow, item: OutlineItem)
    requires
        sidebar::shows_heading(row, item),
    ensures
        row.name@ == item.name@,
        row.line == item.source_line,
        row.depth == item.depth,
        item.depth == 0 <==> row.color == ColorRole::Text,
        item.depth > 0 <==> row.color == ColorRole::TextMuted,
{
}

/// The path of an address is that of the file that it leads to; what is no address of a file has
/// none, and is listed under its own name.
pub proof fn addresses_lead_to_files(uri: Seq<char>, file: Option<PathBuf>, own: Seq<char>)
    ensures
        locations::url_of(uri) is None ==> locations::file_path_of(uri) is None,
        locations::url_of(uri) is Some ==> locations::file_path_of(uri) == locations::local_path_of(locations::url_of(uri)->0),
        file is Some ==> locations::listed_under(file, own) == file->0,
        file is None ==> locations::listed_under(file, own) == paths::path_of(own),
{
}

/// A number is sent as it is, whatever its sign.
pub proof fn numbers_are_sent_as_they_are(j: Json, n: i32)
    requires
        locations::is_number(j, n),
    ensures
        n >= 0 ==> j is Unsigned && j->Unsigned_0 == n,
        n < 0 ==> j is Negative && j->Negative_0 == n,
{
}

/// The problems of all files are those of each, taken together.
pub proof fn totals_add_up(files: Seq<FileProblems>, severity: Severity, n: int)
    requires
        0 < n <= files.len(),
    ensures
        diagnostics_panel::total_of(files, severity, n) == diagnostics_panel::total_of(files, severity, n - 1)
            + diagnostics_panel::count_of(files[n - 1].entries@, severity, files[n - 1].entries@.len() as int),
        diagnostics_panel::total_of(files, severity, 0) == 0,
{
}

/// The groups of references hold, for each file, the places in it.
pub proof fn groups_hold_their_places(ls: Seq<(PathBuf, usize, usize)>, groups: Seq<FileRefs>, i: int)
    requires
        references_panel::by_file(ls, groups, ls.len() as int),
        0 <= i < ls.len(),
    ensures
        exists|g: int|
            0 <= g < groups.len() && paths::components_of((#[trigger] groups[g]).path) == paths::components_of(ls[i].0)
                && groups[g].entries@.contains((ls[i].1, ls[i].2)),
{
    let n = ls.len() as int;
    files_with_references_are_listed(ls, n, i);
    let seen = references_panel::files_seen(ls, n);
    let k = choose|k: int|
        0 <= k < references_panel::files_seen(ls, n).len() && paths::components_of(
            #[trigger] references_panel::files_seen(ls, n)[k],
        ) == paths::components_of(ls[i].0);
    assert(seen[k] == groups[k].path);
    references_are_listed_under_their_file(ls, groups[k].path, n, ls[i].1, ls[i].2);
    assert(paths::components_of(ls[i].0) == paths::components_of(groups[k].path));
    assert(groups[k].entries@ == references_panel::places_in(ls, groups[k].path, n));
}

/// A tab that was moved is where it was moved to; those it passed make room for it, and the others
/// stay.
pub proof fn tabs_make_room<A>(s: Seq<A>, from: int, to: int, i: int)
    requires
        0 <= from < s.len(),
        0 <= to < s.len(),
        0 <= i < s.len(),
    ensures
        pane::with_moved(s, from, to).len() == s.len(),
        pane::with_moved(s, from, to)[to] == s[from],
        i < from && i < to || i > from && i > to ==> pane::with_moved(s, from, to)[i] == s[i],
        from < to && from <= i < to ==> pane::with_moved(s, from, to)[i] == s[i + 1],
        to < from && to < i <= from ==> pane::with_moved(s, from, to)[i] == s[i - 1],
{
}

} // verus!
