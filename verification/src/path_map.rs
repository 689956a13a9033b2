//! A map from the paths of files.
use vstd::prelude::*;

use crate::paths;
use crate::paths::{path_parts, same_parts};

verus! {

/// A map from paths to values. A path is a key by its components: however it is written, it has
/// one value.
#[derive(Debug)]
pub struct PathMap<V> {
    pub entries: Vec<(Vec<Vec<u8>>, V)>,
}

/// Where the entry of `key` is among `entries` from `i` on; their number where there is none.
pub open spec fn entry_from<V>(entries: Seq<(Vec<Vec<u8>>, V)>, key: Seq<Seq<u8>>, i: int) -> int
    decreases entries.len() - i,
{
    if i >= entries.len() || paths::parts_view(entries[i].0@) == key { i } else { entry_from(entries, key, i + 1) }
}

proof fn entry_bounds<V>(entries: Seq<(Vec<Vec<u8>>, V)>, key: Seq<Seq<u8>>, i: int)
    requires
        0 <= i <= entries.len(),
    ensures
        i <= entry_from(entries, key, i) <= entries.len(),
        entry_from(entries, key, i) < entries.len() ==> paths::parts_view(entries[entry_from(entries, key, i)].0@) == key,
        forall|k: int| i <= k < entry_from(entries, key, i) ==> paths::parts_view((#[trigger] entries[k]).0@) != key,
    decreases entries.len() - i,
{
    if i < entries.len() && paths::parts_view(entries[i].0@) != key {
        entry_bounds(entries, key, i + 1);
    }
}

proof fn entry_is_first<V>(entries: Seq<(Vec<Vec<u8>>, V)>, key: Seq<Seq<u8>>, i: int, at: int)
    requires
        0 <= i <= at <= entries.len(),
        at < entries.len() ==> paths::parts_view(entries[at].0@) == key,
        forall|k: int| i <= k < at ==> paths::parts_view((#[trigger] entries[k]).0@) != key,
    ensures
        entry_from(entries, key, i) == at,
    decreases at - i,
{
    if i < at {
        entry_is_first(entries, key, i + 1, at);
    }
}

/// Whether the map has the key `key`.
pub open spec fn has_key<V>(entries: Seq<(Vec<Vec<u8>>, V)>, key: Seq<Seq<u8>>) -> bool {
    entry_from(entries, key, 0) < entries.len()
}

/// The value of `key`.
pub open spec fn value_of<V>(entries: Seq<(Vec<Vec<u8>>, V)>, key: Seq<Seq<u8>>) -> V {
    entries[entry_from(entries, key, 0)].1
}

impl<V> View for PathMap<V> {
    type V = Map<Seq<Seq<u8>>, V>;

    open spec fn view(&self) -> Map<Seq<Seq<u8>>, V> {
        Map::new(|k: Seq<Seq<u8>>| has_key(self.entries@, k), |k: Seq<Seq<u8>>| value_of(self.entries@, k))
    }
}

impl<V> PathMap<V> {
    /// Whether no key has two entries.
    pub open spec fn wf(self) -> bool {
        forall|i: int, j: int|
            0 <= i < j < self.entries@.len() ==> paths::parts_view((#[trigger] self.entries@[i]).0@) != paths::parts_view((#[trigger] self.entries@[j]).0@)
    }

    /// An empty map.
    pub fn new() -> (m: PathMap<V>)
        ensures
            m@ == Map::<Seq<Seq<u8>>, V>::empty(),
            m.wf(),
    {
        let m: PathMap<V> = PathMap { entries: Vec::new() };
        assert(m@ =~= Map::<Seq<Seq<u8>>, V>::empty());
        m
    }

    /// Where the entry of the path with the components `key` is.
    fn position(&self, key: &[Vec<u8>]) -> (i: usize)
        ensures
            i == entry_from(self.entries@, paths::parts_view(key@), 0),
            i <= self.entries@.len(),
    {
        let mut i: usize = 0;
        while i < self.entries.len()
            invariant
                i <= self.entries@.len(),
                entry_from(self.entries@, paths::parts_view(key@), 0) == entry_from(
                    self.entries@,
                    paths::parts_view(key@),
                    i as int,
                ),
            decreases self.entries@.len() - i,
        {
            if same_parts(self.entries[i].0.as_slice(), key) {
                return i;
            }
            i = i + 1;
        }
        i
    }

    /// Whether the map has the key `key`.
    pub fn contains_key(&self, key: &str) -> (b: bool)
        ensures
            b == self@.dom().contains(paths::path_parts_of(key@)),
    {
        self.position(path_parts(key).as_slice()) < self.entries.len()
    }

    /// The value of `key`.
    pub fn get(&self, key: &str) -> (r: Option<&V>)
        ensures
            r is Some <==> self@.dom().contains(paths::path_parts_of(key@)),
            r matches Some(v) ==> *v == self@[paths::path_parts_of(key@)],
    {
        let i: usize = self.position(path_parts(key).as_slice());
        if i < self.entries.len() { Some(&self.entries[i].1) } else { None }
    }

    /// Gives `key` the value `value`.
    pub fn insert(&mut self, key: &str, value: V)
        requires
            old(self).wf(),
        ensures
            final(self)@ == old(self)@.insert(paths::path_parts_of(key@), value),
            final(self).wf(),
    {
        let ghost before = self.entries@;
        let parts: Vec<Vec<u8>> = path_parts(key);
        let i: usize = self.position(parts.as_slice());
        proof {
            entry_bounds(before, paths::path_parts_of(key@), 0);
        }
        if i < self.entries.len() {
            self.entries.set(i, (parts, value));
        } else {
            self.entries.push((parts, value));
        }
        proof {
            let after = self.entries@;
            assert forall|k: Seq<Seq<u8>>|
                has_key(after, k) == (k == paths::path_parts_of(key@) || has_key(before, k)) && (has_key(after, k) ==> value_of(after, k)
                    == if k == paths::path_parts_of(key@) { value } else { value_of(before, k) }) by {
                entry_bounds(before, k, 0);
                let at = entry_from(before, k, 0);
                if k == paths::path_parts_of(key@) {
                    entry_is_first(after, k, 0, i as int);
                } else if at < before.len() {
                    entry_is_first(after, k, 0, at);
                } else {
                    entry_is_first(after, k, 0, after.len() as int);
                }
            }
            assert(self@ =~= old(self)@.insert(paths::path_parts_of(key@), value));
        }
    }

    /// Takes `key` out of the map.
    pub fn remove(&mut self, key: &str)
        requires
            old(self).wf(),
        ensures
            final(self)@ == old(self)@.remove(paths::path_parts_of(key@)),
            final(self).wf(),
    {
        let ghost before = self.entries@;
        let parts: Vec<Vec<u8>> = path_parts(key);
        let i: usize = self.position(parts.as_slice());
        proof {
            entry_bounds(before, paths::path_parts_of(key@), 0);
        }
        if i < self.entries.len() {
            self.entries.remove(i);
        }
        proof {
            let after = self.entries@;
            assert forall|k: Seq<Seq<u8>>|
                has_key(after, k) == (k != paths::path_parts_of(key@) && has_key(before, k)) && (has_key(after, k) ==> value_of(after, k)
                    == value_of(before, k)) by {
                entry_bounds(before, k, 0);
                let at = entry_from(before, k, 0);
                if i < before.len() {
                    if k == paths::path_parts_of(key@) {
                        assert forall|j: int| 0 <= j < after.len() implies paths::parts_view((#[trigger] after[j]).0@) != paths::path_parts_of(key@) by {
                            let b = if j < i { j } else { j + 1 };
                            assert(after[j] == before[b]);
                            if b < i {
                                assert(paths::parts_view(before[b].0@) != paths::parts_view(before[i as int].0@));
                            } else {
                                assert(paths::parts_view(before[i as int].0@) != paths::parts_view(before[b].0@));
                            }
                        }
                        entry_is_first(after, k, 0, after.len() as int);
                    } else if at < before.len() {
                        let a = if at < i { at } else { at - 1 };
                        assert(after[a] == before[at]);
                        assert forall|j: int| 0 <= j < a implies paths::parts_view((#[trigger] after[j]).0@) != k by {
                            let b = if j < i { j } else { j + 1 };
                            assert(after[j] == before[b]);
                        }
                        entry_is_first(after, k, 0, a);
                    } else {
                        assert forall|j: int| 0 <= j < after.len() implies paths::parts_view((#[trigger] after[j]).0@) != k by {
                            let b = if j < i { j } else { j + 1 };
                            assert(after[j] == before[b]);
                        }
                        entry_is_first(after, k, 0, after.len() as int);
                    }
                }
            }
            assert(self@ =~= old(self)@.remove(paths::path_parts_of(key@)));
            assert forall|a: int, b: int|
                0 <= a < b < after.len() implies paths::parts_view((#[trigger] after[a]).0@) != paths::parts_view((#[trigger] after[b]).0@) by {
                if i < before.len() {
                    let x = if a < i { a } else { a + 1 };
                    let y = if b < i { b } else { b + 1 };
                    assert(after[a] == before[x] && after[b] == before[y]);
                }
            }
        }
    }

    /// Empties the map.
    pub fn clear(&mut self)
        ensures
            final(self)@ == Map::<Seq<Seq<u8>>, V>::empty(),
            final(self).wf(),
    {
        self.entries = Vec::new();
        assert(self@ =~= Map::<Seq<Seq<u8>>, V>::empty());
    }
}

} // verus!
