//! How problems in files color the folders above them.
use vstd::prelude::*;

use crate::buffer_view::Severity;
use crate::paths;
use crate::text::same_text;

verus! {

/// A path, as the names that lead to it.
#[derive(Debug)]
pub struct FilePath {
    pub absolute: bool,
    pub parts: Vec<String>,
}

/// A path by its values.
pub struct PathView {
    pub absolute: bool,
    pub parts: Seq<Seq<char>>,
}

impl View for FilePath {
    type V = PathView;

    open spec fn view(&self) -> PathView {
        PathView { absolute: self.absolute, parts: paths::texts_view(self.parts@) }
    }
}

impl PathView {
    /// The path of the folder that `n` of the names lead to.
    pub open spec fn up_to(self, n: int) -> PathView {
        PathView { absolute: self.absolute, parts: self.parts.take(n) }
    }

    /// Whether `other` is this path or lies below it.
    pub open spec fn covers(self, other: PathView) -> bool {
        &&& self.absolute == other.absolute
        &&& self.parts.len() <= other.parts.len()
        &&& self.parts == other.parts.take(self.parts.len() as int)
    }
}

/// How grave a severity is, the gravest being the lowest.
pub open spec fn rank(s: Severity) -> int {
    match s {
        Severity::Error => 0,
        Severity::Warning => 1,
        Severity::Information => 2,
        Severity::Hint => 3,
    }
}

/// How grave a severity is, the gravest being the lowest.
fn rank_of(s: Severity) -> (r: u8)
    ensures
        r == rank(s),
{
    match s {
        Severity::Error => 0,
        Severity::Warning => 1,
        Severity::Information => 2,
        Severity::Hint => 3,
    }
}

/// The graver of two severities.
pub open spec fn graver(a: Severity, b: Severity) -> Severity {
    if rank(b) < rank(a) { b } else { a }
}

/// The gravest severity among the first `n` files that lie at or below `path`.
pub open spec fn worst(files: Seq<(FilePath, Severity)>, path: PathView, n: int) -> Option<Severity>
    decreases n,
{
    if n <= 0 {
        None
    } else {
        let before = worst(files, path, n - 1);
        if path.covers(files[n - 1].0@) {
            match before {
                Some(s) => Some(graver(s, files[n - 1].1)),
                None => Some(files[n - 1].1),
            }
        } else {
            before
        }
    }
}

/// The gravest severity for each path that has one.
#[derive(Debug)]
pub struct SeverityMap {
    pub entries: Vec<(FilePath, Severity)>,
}

/// Where `path` is in a list from `i` on; its length where it is not.
pub open spec fn find_from(entries: Seq<(FilePath, Severity)>, path: PathView, i: int) -> int
    decreases entries.len() - i,
{
    if i >= entries.len() || entries[i].0@ == path { i } else { find_from(entries, path, i + 1) }
}

proof fn find_bounds(entries: Seq<(FilePath, Severity)>, path: PathView, i: int)
    requires
        0 <= i <= entries.len(),
    ensures
        i <= find_from(entries, path, i) <= entries.len(),
        find_from(entries, path, i) < entries.len() ==> entries[find_from(entries, path, i)].0@ == path,
        forall|k: int| i <= k < find_from(entries, path, i) ==> (#[trigger] entries[k]).0@ != path,
    decreases entries.len() - i,
{
    if i < entries.len() && entries[i].0@ != path {
        find_bounds(entries, path, i + 1);
    }
}

/// Whether no path is listed twice.
pub open spec fn distinct(entries: Seq<(FilePath, Severity)>) -> bool {
    forall|i: int, j: int| 0 <= i < j < entries.len() ==> (#[trigger] entries[i]).0@ != (#[trigger] entries[j]).0@
}

/// Whether two lists of names are the same.
fn same_parts(a: &[String], b: &[String], n: usize) -> (r: bool)
    requires
        n <= a@.len(),
        n <= b@.len(),
    ensures
        r == (paths::texts_view(a@).take(n as int) == paths::texts_view(b@).take(n as int)),
{
    let mut i: usize = 0;
    while i < n
        invariant
            i <= n,
            n <= a@.len(),
            n <= b@.len(),
            forall|k: int| 0 <= k < i ==> (#[trigger] a@[k])@ == b@[k]@,
        decreases n - i,
    {
        if !same_text(a[i].as_str(), b[i].as_str()) {
            assert(paths::texts_view(a@).take(n as int)[i as int] != paths::texts_view(b@).take(n as int)[i as int]);
            return false;
        }
        i = i + 1;
    }
    assert(paths::texts_view(a@).take(n as int) =~= paths::texts_view(b@).take(n as int));
    true
}

/// The folder that `n` of the names of a path lead to.
fn ancestor(path: &FilePath, n: usize) -> (r: FilePath)
    requires
        n <= path.parts@.len(),
    ensures
        r@ == path@.up_to(n as int),
{
    let mut parts: Vec<String> = Vec::new();
    let mut i: usize = 0;
    while i < n
        invariant
            i <= n,
            n <= path.parts@.len(),
            parts@.len() == i,
            forall|k: int| 0 <= k < i ==> (#[trigger] parts@[k])@ == path.parts@[k]@,
        decreases n - i,
    {
        parts.push(path.parts[i].clone());
        i = i + 1;
    }
    assert(paths::texts_view(parts@) =~= paths::texts_view(path.parts@).take(n as int));
    FilePath { absolute: path.absolute, parts }
}

impl SeverityMap {
    /// The severity of `path`.
    pub open spec fn at(self, path: PathView) -> Option<Severity> {
        let i = find_from(self.entries@, path, 0);
        if i < self.entries@.len() { Some(self.entries@[i].1) } else { None }
    }

    /// Whether no path has a severity.
    pub fn is_empty(&self) -> (b: bool)
        ensures
            b == (self.entries@.len() == 0),
    {
        self.entries.len() == 0
    }

    /// Where the folder is that `n` of the names of `path` lead to.
    fn position(&self, path: &FilePath, n: usize) -> (i: usize)
        requires
            n <= path.parts@.len(),
        ensures
            i == find_from(self.entries@, path@.up_to(n as int), 0),
            i <= self.entries@.len(),
    {
        let ghost target = path@.up_to(n as int);
        let mut i: usize = 0;
        while i < self.entries.len()
            invariant
                i <= self.entries@.len(),
                n <= path.parts@.len(),
                target == path@.up_to(n as int),
                find_from(self.entries@, target, 0) == find_from(self.entries@, target, i as int),
            decreases self.entries@.len() - i,
        {
            let p: &FilePath = &self.entries[i].0;
            assert(p@.parts.take(p@.parts.len() as int) =~= p@.parts);
            if p.absolute == path.absolute && p.parts.len() == n && same_parts(
                p.parts.as_slice(),
                path.parts.as_slice(),
                n,
            ) {
                assert(p@.parts =~= target.parts);
                return i;
            }
            assert(p@ != target) by {
                if p@ == target {
                    assert(p@.parts.len() == n);
                    assert(paths::texts_view(p.parts@).take(n as int) =~= paths::texts_view(path.parts@).take(n as int));
                }
            }
            i = i + 1;
        }
        i
    }

    /// The severity of `path`, if it has one.
    pub fn get(&self, path: &FilePath) -> (r: Option<Severity>)
        ensures
            r == self.at(path@),
    {
        let n: usize = path.parts.len();
        let i: usize = self.position(path, n);
        assert(path@.up_to(n as int).parts =~= path@.parts);
        assert(path@.up_to(n as int) == path@);
        if i < self.entries.len() { Some(self.entries[i].1) } else { None }
    }

    /// Takes note of a problem at the folder that `n` of the names of `path` lead to.
    fn update(&mut self, path: &FilePath, n: usize, severity: Severity)
        requires
            n <= path.parts@.len(),
            distinct(old(self).entries@),
        ensures
            distinct(final(self).entries@),
            final(self).entries@.len() > 0,
            forall|q: PathView| #[trigger]
                final(self).at(q) == if q == path@.up_to(n as int) {
                    match old(self).at(q) {
                        Some(s) => Some(graver(s, severity)),
                        None => Some(severity),
                    }
                } else {
                    old(self).at(q)
                },
    {
        let ghost before = self.entries@;
        let ghost target = path@.up_to(n as int);
        let i: usize = self.position(path, n);
        proof {
            find_bounds(before, target, 0);
        }
        if i < self.entries.len() {
            let worse: Severity = if rank_of(severity) < rank_of(self.entries[i].1) { severity } else { self.entries[i].1 };
            let same: FilePath = ancestor(path, n);
            self.entries.set(i, (same, worse));
            proof {
                let after = self.entries@;
                assert forall|q: PathView| #[trigger] self.at(q) == (if q == target {
                    match old(self).at(q) {
                        Some(s) => Some(graver(s, severity)),
                        None => Some(severity),
                    }
                } else {
                    old(self).at(q)
                }) by {
                    same_positions(before, after, q, 0);
                    find_bounds(before, q, 0);
                }
            }
        } else {
            let new_path: FilePath = ancestor(path, n);
            self.entries.push((new_path, severity));
            proof {
                let after = self.entries@;
                assert forall|q: PathView| #[trigger] self.at(q) == (if q == target {
                    match old(self).at(q) {
                        Some(s) => Some(graver(s, severity)),
                        None => Some(severity),
                    }
                } else {
                    old(self).at(q)
                }) by {
                    position_in_longer(before, after, q, 0);
                    find_bounds(before, q, 0);
                }
            }
        }
    }
}

/// What is found where the paths of a list stay the same.
proof fn same_positions(a: Seq<(FilePath, Severity)>, b: Seq<(FilePath, Severity)>, path: PathView, i: int)
    requires
        a.len() == b.len(),
        forall|k: int| 0 <= k < a.len() ==> (#[trigger] a[k]).0@ == (#[trigger] b[k]).0@,
        0 <= i <= a.len(),
    ensures
        find_from(a, path, i) == find_from(b, path, i),
    decreases a.len() - i,
{
    if i < a.len() {
        assert(a[i].0@ == b[i].0@);
        if a[i].0@ != path {
            same_positions(a, b, path, i + 1);
        }
    }
}

/// What is found in a list with one more entry.
proof fn position_in_longer(a: Seq<(FilePath, Severity)>, b: Seq<(FilePath, Severity)>, path: PathView, i: int)
    requires
        b.len() == a.len() + 1,
        forall|k: int| 0 <= k < a.len() ==> (#[trigger] a[k]) == (#[trigger] b[k]),
        0 <= i <= a.len(),
    ensures
        find_from(a, path, i) < a.len() ==> find_from(b, path, i) == find_from(a, path, i),
        find_from(a, path, i) >= a.len() ==> find_from(b, path, i) == if b.last().0@ == path { a.len() as int } else { b.len() as int },
    decreases a.len() - i,
{
    reveal_with_fuel(find_from, 2);
    if i < a.len() {
        assert(a[i] == b[i]);
        if a[i].0@ != path {
            position_in_longer(a, b, path, i + 1);
        }
    }
}

/// For each file with problems, and each folder above it, the gravest severity at or below it.
pub fn rollup_worst_severity(files: &[(FilePath, Severity)]) -> (map: SeverityMap)
    ensures
        forall|q: PathView| #[trigger] map.at(q) == worst(files@, q, files@.len() as int),
        map.entries@.len() == 0 <==> files@.len() == 0,
        distinct(map.entries@),
{
    let mut map: SeverityMap = SeverityMap { entries: Vec::new() };
    let mut n: usize = 0;
    while n < files.len()
        invariant
            n <= files@.len(),
            distinct(map.entries@),
            map.entries@.len() == 0 <==> n == 0,
            forall|q: PathView| #[trigger] map.at(q) == worst(files@, q, n as int),
        decreases files@.len() - n,
    {
        let path: &FilePath = &files[n].0;
        let severity: Severity = files[n].1;
        let total: usize = path.parts.len();
        let mut k: usize = total;
        map.update(path, k, severity);
        proof {
            assert forall|q: PathView| #[trigger] map.at(q) == noted(worst(files@, q, n as int), path@, severity, q, k as int) by {
                covers_above(path@, q, k as int);
            }
        }
        while k > 0
            invariant
                k <= total,
                total == path.parts@.len(),
                *path == files@[n as int].0,
                severity == files@[n as int].1,
                n < files@.len(),
                distinct(map.entries@),
                map.entries@.len() > 0,
                forall|q: PathView| #[trigger]
                    map.at(q) == noted(worst(files@, q, n as int), path@, severity, q, k as int),
            decreases k,
        {
            k = k - 1;
            let ghost before = map;
            map.update(path, k, severity);
            proof {
                assert forall|q: PathView| #[trigger] map.at(q) == noted(worst(files@, q, n as int), path@, severity, q, k as int) by {
                    assert(before.at(q) == noted(worst(files@, q, n as int), path@, severity, q, k + 1));
                    covers_above(path@, q, k as int);
                }
            }
        }
        proof {
            assert forall|q: PathView| #[trigger] map.at(q) == worst(files@, q, n + 1) by {
                assert(map.at(q) == noted(worst(files@, q, n as int), path@, severity, q, 0));
            }
        }
        n = n + 1;
    }
    map
}

/// The severity of `q` once a problem at `path` is noted at the folders that at least `k` of its
/// names lead to.
spec fn noted(before: Option<Severity>, path: PathView, severity: Severity, q: PathView, k: int) -> Option<Severity> {
    if q.covers(path) && q.parts.len() >= k {
        match before {
            Some(s) => Some(graver(s, severity)),
            None => Some(severity),
        }
    } else {
        before
    }
}

/// The paths above `path` are those that some of its names lead to.
proof fn covers_above(path: PathView, q: PathView, k: int)
    requires
        0 <= k <= path.parts.len(),
    ensures
        q == path.up_to(k) <==> q.covers(path) && q.parts.len() == k,
{
    if q == path.up_to(k) {
        assert(q.parts =~= path.parts.take(q.parts.len() as int));
    }
}

/// A folder is at least as grave as each file below it.
pub proof fn folder_as_grave_as_files(files: Seq<(FilePath, Severity)>, path: PathView, i: int, n: int)
    requires
        0 <= i < n <= files.len(),
        path.covers(files[i].0@),
    ensures
        worst(files, path, n) matches Some(s) && rank(s) <= rank(files[i].1),
    decreases n,
{
    if i < n - 1 {
        folder_as_grave_as_files(files, path, i, n - 1);
    }
}

/// A folder is at least as grave as the folders below it.
pub proof fn gravity_rises(files: Seq<(FilePath, Severity)>, upper: PathView, lower: PathView, n: int)
    requires
        upper.covers(lower),
        0 <= n <= files.len(),
    ensures
        worst(files, lower, n) matches Some(s) ==> (worst(files, upper, n) matches Some(u) && rank(u) <= rank(s)),
    decreases n,
{
    if n > 0 {
        gravity_rises(files, upper, lower, n - 1);
        if lower.covers(files[n - 1].0@) {
            let p = files[n - 1].0@;
            assert(upper.parts =~= p.parts.take(upper.parts.len() as int)) by {
                assert forall|k: int| 0 <= k < upper.parts.len() implies upper.parts[k] == p.parts[k] by {
                    assert(upper.parts[k] == lower.parts.take(upper.parts.len() as int)[k]);
                    assert(lower.parts[k] == p.parts.take(lower.parts.len() as int)[k]);
                }
            }
        }
    }
}

} // verus!
