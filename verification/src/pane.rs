//! A pane: tabs, one of which is active.
use vstd::prelude::*;

use crate::paths;
use crate::paths::{path_file_name, same_path};

verus! {

/// What a tab shows.
#[derive(Debug, Clone, Copy, PartialEq, Eq, Structural)]
pub enum TabKind {
    Editor,
    Settings,
    ProjectSearch,
    Problems,
}

/// A tab. The tab of an editor has the path of its document.
#[derive(Debug)]
pub struct Tab {
    pub id: usize,
    pub kind: TabKind,
    pub path: Option<String>,
}

/// A pane.
#[derive(Debug)]
pub struct Pane {
    pub tabs: Vec<Tab>,
    pub active: Option<usize>,
    pub next_tab_id: usize,
}

/// The names that tabs go by.
#[derive(Debug)]
pub struct TabLabels {
    pub untitled: String,
    pub settings: String,
    pub search: String,
    pub problems: String,
}

/// The title of a tab. An editor goes by the name of its file.
pub open spec fn title_text(kind: TabKind, name: Option<Seq<char>>, labels: TabLabels) -> Seq<char> {
    match kind {
        TabKind::Editor => match name {
            Some(n) => n,
            None => labels.untitled@,
        },
        TabKind::Settings => labels.settings@,
        TabKind::ProjectSearch => labels.search@,
        TabKind::Problems => labels.problems@,
    }
}

/// The title of a tab, where `name` is the name of its file, and whether it has unsaved changes.
pub fn title_from(kind: TabKind, name: Option<String>, dirty: bool, labels: &TabLabels) -> (r: (String, bool))
    ensures
        r.0@ == title_text(kind, paths::text_view(name), *labels),
        r.1 == (kind == TabKind::Editor && dirty),
{
    match kind {
        TabKind::Editor => match name {
            Some(n) => (n, dirty),
            None => (labels.untitled.clone(), dirty),
        },
        TabKind::Settings => (labels.settings.clone(), false),
        TabKind::ProjectSearch => (labels.search.clone(), false),
        TabKind::Problems => (labels.problems.clone(), false),
    }
}

impl Tab {
    /// The name of the file of a tab.
    pub open spec fn file_name(self) -> Option<Seq<char>> {
        match self.path {
            Some(p) => paths::file_name_of(p@),
            None => None,
        }
    }

    /// The title of the tab, and whether it has unsaved changes.
    pub fn title(&self, dirty: bool, labels: &TabLabels) -> (r: (String, bool))
        ensures
            r.0@ == title_text(self.kind, self.file_name(), *labels),
            r.1 == (self.kind == TabKind::Editor && dirty),
    {
        let name: Option<String> = match &self.path {
            Some(p) => path_file_name(p.as_str()),
            None => None,
        };
        title_from(self.kind, name, dirty, labels)
    }
}

/// Where the active tab goes when tab `ix` of `len` is closed.
pub open spec fn active_after_removal(active: Option<usize>, ix: int, len: int) -> Option<usize> {
    if len <= 1 {
        None
    } else {
        Some(
            match active {
                Some(a) => if a > ix {
                    (a - 1) as usize
                } else if a < len - 1 {
                    a
                } else {
                    (len - 2) as usize
                },
                None => 0,
            },
        )
    }
}

/// Where tab `a` goes when tab `from` is moved to `to`.
pub open spec fn moved_ix(a: int, from: int, to: int) -> int {
    if a == from {
        to
    } else if from < to && from < a <= to {
        a - 1
    } else if from > to && to <= a < from {
        a + 1
    } else {
        a
    }
}

/// A sequence with the entry at `from` moved to `to`.
pub open spec fn with_moved<A>(s: Seq<A>, from: int, to: int) -> Seq<A> {
    s.remove(from).insert(to, s[from])
}

impl Pane {
    /// Whether the active tab is one of the tabs, and no two tabs have the same number.
    pub open spec fn wf(self) -> bool {
        &&& self.active matches Some(a) ==> a < self.tabs@.len()
        &&& forall|i: int| 0 <= i < self.tabs@.len() ==> (#[trigger] self.tabs@[i]).id < self.next_tab_id
        &&& forall|i: int, j: int|
            0 <= i < j < self.tabs@.len() ==> (#[trigger] self.tabs@[i]).id != (#[trigger] self.tabs@[j]).id
    }

    /// A pane without tabs.
    pub fn new() -> (p: Pane)
        ensures
            p.tabs@.len() == 0,
            p.active is None,
            p.next_tab_id == 0,
            p.wf(),
    {
        Pane { tabs: Vec::new(), active: None, next_tab_id: 0 }
    }

    /// Whether `after` is the pane with one more tab, which is active.
    pub open spec fn pushed(self, after: Pane, kind: TabKind, path: Option<String>) -> bool {
        &&& after.tabs@ == self.tabs@.push(Tab { id: self.next_tab_id, kind, path })
        &&& after.active == Some(self.tabs@.len() as usize)
        &&& after.next_tab_id == self.next_tab_id + 1
    }

    /// Adds a tab, whatever number it had, and makes it active. Gives the number that it has now.
    pub fn push_tab_raw(&mut self, tab: Tab) -> (id: usize)
        requires
            old(self).wf(),
            old(self).next_tab_id < usize::MAX,
        ensures
            old(self).pushed(*final(self), tab.kind, tab.path),
            id == old(self).next_tab_id,
            final(self).wf(),
    {
        let id: usize = self.next_tab_id;
        self.tabs.push(Tab { id, kind: tab.kind, path: tab.path });
        self.next_tab_id = id + 1;
        self.active = Some(self.tabs.len() - 1);
        id
    }

    /// Adds a tab for the document at `path`.
    pub fn push_editor_tab(&mut self, path: String) -> (id: usize)
        requires
            old(self).wf(),
            old(self).next_tab_id < usize::MAX,
        ensures
            old(self).pushed(*final(self), TabKind::Editor, Some(path)),
            id == old(self).next_tab_id,
            final(self).wf(),
    {
        self.push_tab_raw(Tab { id: 0, kind: TabKind::Editor, path: Some(path) })
    }

    /// Adds a tab for the settings.
    pub fn push_settings_tab(&mut self) -> (id: usize)
        requires
            old(self).wf(),
            old(self).next_tab_id < usize::MAX,
        ensures
            old(self).pushed(*final(self), TabKind::Settings, None),
            id == old(self).next_tab_id,
            final(self).wf(),
    {
        self.push_tab_raw(Tab { id: 0, kind: TabKind::Settings, path: None })
    }

    /// Adds a tab for the search in the project.
    pub fn push_project_search_tab(&mut self) -> (id: usize)
        requires
            old(self).wf(),
            old(self).next_tab_id < usize::MAX,
        ensures
            old(self).pushed(*final(self), TabKind::ProjectSearch, None),
            id == old(self).next_tab_id,
            final(self).wf(),
    {
        self.push_tab_raw(Tab { id: 0, kind: TabKind::ProjectSearch, path: None })
    }

    /// Adds a tab for the problems.
    pub fn push_problems_tab(&mut self) -> (id: usize)
        requires
            old(self).wf(),
            old(self).next_tab_id < usize::MAX,
        ensures
            old(self).pushed(*final(self), TabKind::Problems, None),
            id == old(self).next_tab_id,
            final(self).wf(),
    {
        self.push_tab_raw(Tab { id: 0, kind: TabKind::Problems, path: None })
    }

    /// How many tabs there are.
    pub fn tab_count(&self) -> (n: usize)
        ensures
            n == self.tabs@.len(),
    {
        self.tabs.len()
    }

    /// Whether there is no tab.
    pub fn is_empty(&self) -> (b: bool)
        ensures
            b == (self.tabs@.len() == 0),
    {
        self.tabs.len() == 0
    }

    /// The active tab.
    pub open spec fn current(self) -> Option<Tab> {
        match self.active {
            Some(a) => if a < self.tabs@.len() { Some(self.tabs@[a as int]) } else { None },
            None => None,
        }
    }

    /// The active tab.
    pub fn active_tab(&self) -> (r: Option<&Tab>)
        ensures
            self.current() == match r {
                Some(t) => Some(*t),
                None => None,
            },
    {
        match self.active {
            Some(a) => self.tab_at(a),
            None => None,
        }
    }

    /// Tab `ix`.
    pub fn tab_at(&self, ix: usize) -> (r: Option<&Tab>)
        ensures
            r is Some <==> ix < self.tabs@.len(),
            r matches Some(t) ==> *t == self.tabs@[ix as int],
    {
        if ix < self.tabs.len() { Some(&self.tabs[ix]) } else { None }
    }

    /// The tab with the number `id`, and where it is.
    pub fn tab_by_id(&self, id: usize) -> (r: Option<(usize, &Tab)>)
        ensures
            match r {
                Some((i, t)) => {
                    &&& i < self.tabs@.len()
                    &&& *t == self.tabs@[i as int]
                    &&& t.id == id
                    &&& forall|k: int| 0 <= k < i ==> (#[trigger] self.tabs@[k]).id != id
                },
                None => forall|k: int| 0 <= k < self.tabs@.len() ==> (#[trigger] self.tabs@[k]).id != id,
            },
    {
        let mut i: usize = 0;
        while i < self.tabs.len()
            invariant
                i <= self.tabs@.len(),
                forall|k: int| 0 <= k < i ==> (#[trigger] self.tabs@[k]).id != id,
            decreases self.tabs@.len() - i,
        {
            if self.tabs[i].id == id {
                return Some((i, &self.tabs[i]));
            }
            i = i + 1;
        }
        None
    }

    /// Makes a tab active, the last one where there are not as many.
    pub fn set_active(&mut self, ix: Option<usize>)
        requires
            old(self).wf(),
        ensures
            final(self).active == match ix {
                Some(i) => if old(self).tabs@.len() == 0 {
                    Some(0)
                } else if i < old(self).tabs@.len() {
                    Some(i)
                } else {
                    Some((old(self).tabs@.len() - 1) as usize)
                },
                None => None,
            },
            *final(self) == (Pane { active: final(self).active, ..*old(self) }),
            old(self).tabs@.len() > 0 || ix is None ==> final(self).wf(),
    {
        self.active = match ix {
            Some(i) => {
                let last: usize = if self.tabs.len() > 0 { self.tabs.len() - 1 } else { 0 };
                Some(if i < last { i } else { last })
            },
            None => None,
        };
    }

    /// Closes tab `ix`, if there is one. The tab that was active stays active; where it was the
    /// one that was closed, the one that takes its place does.
    pub fn remove_tab(&mut self, ix: usize) -> (r: Option<Tab>)
        requires
            old(self).wf(),
        ensures
            r is Some <==> ix < old(self).tabs@.len(),
            r matches Some(t) ==> {
                &&& t == old(self).tabs@[ix as int]
                &&& final(self).tabs@ == old(self).tabs@.remove(ix as int)
                &&& final(self).active == active_after_removal(
                    old(self).active,
                    ix as int,
                    old(self).tabs@.len() as int,
                )
                &&& final(self).next_tab_id == old(self).next_tab_id
            },
            r is None ==> *final(self) == *old(self),
            final(self).wf(),
    {
        if ix >= self.tabs.len() {
            return None;
        }
        let ghost before = self.tabs@;
        let tab: Tab = self.tabs.remove(ix);
        let len: usize = self.tabs.len();
        self.active = if len == 0 {
            None
        } else {
            Some(
                match self.active {
                    Some(a) => if a > ix {
                        a - 1
                    } else if a < len - 1 {
                        a
                    } else {
                        len - 1
                    },
                    None => 0,
                },
            )
        };
        proof {
            ids_after_removal(before, ix as int);
        }
        Some(tab)
    }

    /// Moves a tab to another place, the last one where there are not as many. The active tab
    /// stays the active one.
    pub fn reorder_tab(&mut self, from: usize, to: usize)
        requires
            old(self).wf(),
        ensures
            from == to || from >= old(self).tabs@.len() ==> *final(self) == *old(self),
            from != to && from < old(self).tabs@.len() ==> {
                let last = old(self).tabs@.len() - 1;
                let target = if to < last { to as int } else { last };
                &&& final(self).tabs@ == with_moved(old(self).tabs@, from as int, target)
                &&& final(self).active == match old(self).active {
                    Some(a) => Some(moved_ix(a as int, from as int, target) as usize),
                    None => None,
                }
                &&& final(self).next_tab_id == old(self).next_tab_id
            },
            final(self).wf(),
    {
        if from == to || from >= self.tabs.len() {
            return;
        }
        let ghost before = self.tabs@;
        let last: usize = self.tabs.len() - 1;
        let target: usize = if to < last { to } else { last };
        let tab: Tab = self.tabs.remove(from);
        self.tabs.insert(target, tab);
        if let Some(a) = self.active {
            self.active = Some(
                if a == from {
                    target
                } else if from < target && a > from && a <= target {
                    a - 1
                } else if from > target && a >= target && a < from {
                    a + 1
                } else {
                    a
                },
            );
        }
        proof {
            ids_after_move(before, from as int, target as int);
        }
    }

    /// The first tab that shows the document at `path`.
    pub fn find_editor_by_path(&self, path: &str) -> (r: Option<usize>)
        ensures
            match r {
                Some(i) => {
                    &&& i < self.tabs@.len()
                    &&& shows_path(self.tabs@[i as int], path@)
                    &&& forall|k: int| 0 <= k < i ==> !shows_path(#[trigger] self.tabs@[k], path@)
                },
                None => forall|k: int| 0 <= k < self.tabs@.len() ==> !shows_path(#[trigger] self.tabs@[k], path@),
            },
    {
        let mut i: usize = 0;
        while i < self.tabs.len()
            invariant
                i <= self.tabs@.len(),
                forall|k: int| 0 <= k < i ==> !shows_path(#[trigger] self.tabs@[k], path@),
            decreases self.tabs@.len() - i,
        {
            if self.tabs[i].kind == TabKind::Editor {
                if let Some(p) = &self.tabs[i].path {
                    if same_path(p.as_str(), path) {
                        return Some(i);
                    }
                }
            }
            i = i + 1;
        }
        None
    }

    /// The first tab of a kind.
    pub fn find_kind(&self, kind: TabKind) -> (r: Option<usize>)
        ensures
            match r {
                Some(i) => {
                    &&& i < self.tabs@.len()
                    &&& self.tabs@[i as int].kind == kind
                    &&& forall|k: int| 0 <= k < i ==> (#[trigger] self.tabs@[k]).kind != kind
                },
                None => forall|k: int| 0 <= k < self.tabs@.len() ==> (#[trigger] self.tabs@[k]).kind != kind,
            },
    {
        let mut i: usize = 0;
        while i < self.tabs.len()
            invariant
                i <= self.tabs@.len(),
                forall|k: int| 0 <= k < i ==> (#[trigger] self.tabs@[k]).kind != kind,
            decreases self.tabs@.len() - i,
        {
            if self.tabs[i].kind == kind {
                return Some(i);
            }
            i = i + 1;
        }
        None
    }
}

/// Whether a tab shows the document at `path`.
pub open spec fn shows_path(tab: Tab, path: Seq<char>) -> bool {
    tab.kind == TabKind::Editor && (tab.path matches Some(p) && paths::same_file(p@, path))
}

proof fn ids_after_removal(tabs: Seq<Tab>, ix: int)
    requires
        0 <= ix < tabs.len(),
        forall|i: int, j: int| 0 <= i < j < tabs.len() ==> (#[trigger] tabs[i]).id != (#[trigger] tabs[j]).id,
    ensures
        forall|i: int, j: int|
            0 <= i < j < tabs.len() - 1 ==> (#[trigger] tabs.remove(ix)[i]).id != (#[trigger] tabs.remove(ix)[j]).id,
{
    let after = tabs.remove(ix);
    assert forall|i: int, j: int| 0 <= i < j < after.len() implies (#[trigger] after[i]).id != (#[trigger] after[j]).id by {
        let a = if i < ix { i } else { i + 1 };
        let b = if j < ix { j } else { j + 1 };
        assert(after[i] == tabs[a] && after[j] == tabs[b]);
    }
}

/// Where an entry of a sequence comes from when one is moved.
proof fn moved_entry<A>(s: Seq<A>, from: int, to: int, i: int) -> (a: int)
    requires
        0 <= from < s.len(),
        0 <= to < s.len(),
        0 <= i < s.len(),
    ensures
        0 <= a < s.len(),
        with_moved(s, from, to)[i] == s[a],
        moved_ix(a, from, to) == i,
{
    if i == to {
        from
    } else if from < to && from <= i < to {
        i + 1
    } else if from > to && to < i <= from {
        i - 1
    } else {
        i
    }
}

proof fn ids_after_move(tabs: Seq<Tab>, from: int, to: int)
    requires
        0 <= from < tabs.len(),
        0 <= to < tabs.len(),
        forall|i: int, j: int| 0 <= i < j < tabs.len() ==> (#[trigger] tabs[i]).id != (#[trigger] tabs[j]).id,
    ensures
        with_moved(tabs, from, to).len() == tabs.len(),
        forall|i: int, j: int|
            0 <= i < j < tabs.len() ==> (#[trigger] with_moved(tabs, from, to)[i]).id != (#[trigger] with_moved(
                tabs,
                from,
                to,
            )[j]).id,
        forall|i: int| 0 <= i < tabs.len() ==> tabs.contains(#[trigger] with_moved(tabs, from, to)[i]),
{
    let after = with_moved(tabs, from, to);
    assert forall|i: int, j: int| 0 <= i < j < after.len() implies (#[trigger] after[i]).id != (#[trigger] after[j]).id by {
        let a = moved_entry(tabs, from, to, i);
        let b = moved_entry(tabs, from, to, j);
        if a < b {
            assert(tabs[a].id != tabs[b].id);
        } else {
            assert(tabs[b].id != tabs[a].id);
        }
    }
    assert forall|i: int| 0 <= i < tabs.len() implies tabs.contains(#[trigger] after[i]) by {
        let a = moved_entry(tabs, from, to, i);
        assert(after[i] == tabs[a]);
    }
}

/// Moving a tab takes every tab to where `moved_ix` says: the one that was active is the one that
/// is active.
pub proof fn moving_keeps_tabs<A>(s: Seq<A>, from: int, to: int, a: int)
    requires
        0 <= from < s.len(),
        0 <= to < s.len(),
        0 <= a < s.len(),
    ensures
        0 <= moved_ix(a, from, to) < s.len(),
        with_moved(s, from, to)[moved_ix(a, from, to)] == s[a],
{
}

/// Moving a tab and moving it back changes nothing.
pub proof fn moving_back_restores<A>(s: Seq<A>, from: int, to: int)
    requires
        0 <= from < s.len(),
        0 <= to < s.len(),
    ensures
        with_moved(with_moved(s, from, to), to, from) == s,
{
    assert(with_moved(with_moved(s, from, to), to, from) =~= s);
}

/// Closing a tab other than the active one leaves the active one active.
pub proof fn removal_keeps_active<A>(s: Seq<A>, active: usize, ix: int)
    requires
        0 <= ix < s.len(),
        active < s.len(),
        active != ix,
    ensures
        active_after_removal(Some(active), ix, s.len() as int) matches Some(a) && a < s.len() - 1 && s.remove(ix)[a as int]
            == s[active as int],
{
}

/// Closing the tab that was added last leaves the tabs as they were.
pub proof fn closing_undoes_adding(a: Pane, b: Pane, kind: TabKind, path: Option<String>)
    requires
        a.pushed(b, kind, path),
    ensures
        b.tabs@.remove(a.tabs@.len() as int) == a.tabs@,
{
    assert(b.tabs@.remove(a.tabs@.len() as int) =~= a.tabs@);
}

} // verus!
