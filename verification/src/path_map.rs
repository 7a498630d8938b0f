//! A map keyed by `Path`, kept as an association vector in insertion order
//! with unique keys. The document tree keys its per-path state and its
//! dependency table with it.

use crate::path::{Path, PathView};
use vstd::prelude::*;

verus! {

/// First entry with the given key, scanning from the front.
pub open spec fn map_find<V>(entries: Seq<(Path, V)>, key: PathView) -> Option<V>
    decreases entries.len(),
{
    if entries.len() == 0 {
        None
    } else if entries[0].0@ == key {
        Some(entries[0].1)
    } else {
        map_find(entries.skip(1), key)
    }
}

/// No two entries share a key.
pub open spec fn unique_keys<V>(entries: Seq<(Path, V)>) -> bool {
    forall|i: int, j: int|
        0 <= i < j < entries.len() ==> (#[trigger] entries[i]).0@ != (#[trigger] entries[j]).0@
}

/// A found entry pins its position's key and value.
proof fn lemma_map_find_index<V>(entries: Seq<(Path, V)>, key: PathView)
    ensures
        map_find(entries, key) matches Some(v) ==> exists|i: int|
            0 <= i < entries.len() && (#[trigger] entries[i]).0@ == key && entries[i].1 == v,
        map_find(entries, key) is None ==> forall|i: int|
            0 <= i < entries.len() ==> (#[trigger] entries[i]).0@ != key,
    decreases entries.len(),
{
    if entries.len() == 0 {
    } else if entries[0].0@ == key {
    } else {
        lemma_map_find_index(entries.skip(1), key);
        if map_find(entries, key) is Some {
            let v = map_find(entries, key)->Some_0;
            let w = choose|i: int|
                0 <= i < entries.skip(1).len() && (#[trigger] entries.skip(1)[i]).0@ == key
                    && entries.skip(1)[i].1 == v;
            assert(entries[w + 1].0@ == key && entries[w + 1].1 == v);
        } else {
            assert forall|i: int| 0 <= i < entries.len() implies (#[trigger] entries[i]).0@
                != key by {
                if i > 0 {
                    assert(entries.skip(1)[i - 1].0@ != key);
                }
            }
        }
    }
}

/// With unique keys, the entry at any position with the sought key is what
/// the scan finds.
proof fn lemma_map_find_at<V>(entries: Seq<(Path, V)>, key: PathView, i: int)
    requires
        unique_keys(entries),
        0 <= i < entries.len(),
        entries[i].0@ == key,
    ensures
        map_find(entries, key) == Some(entries[i].1),
    decreases entries.len(),
{
    if i == 0 {
    } else {
        assert(entries[0].0@ != key);
        assert(entries.skip(1)[i - 1] == entries[i]);
        assert forall|a: int, b: int| 0 <= a < b < entries.skip(1).len() implies (
        #[trigger] entries.skip(1)[a]).0@ != (#[trigger] entries.skip(1)[b]).0@ by {
            assert(entries[a + 1].0@ != entries[b + 1].0@);
        }
        lemma_map_find_at(entries.skip(1), key, i - 1);
    }
}

/// A map from paths to values with unique keys, preserving insertion order.
#[derive(Debug)]
pub struct PathMap<V> {
    entries: Vec<(Path, V)>,
}

impl<V> PathMap<V> {
    /// The association list behind the map.
    pub closed spec fn entries_view(&self) -> Seq<(Path, V)> {
        self.entries@
    }

    /// No key occurs twice.
    pub open spec fn wf(&self) -> bool {
        unique_keys(self.entries_view())
    }

    /// The value stored under `key`, if any.
    pub open spec fn find(&self, key: PathView) -> Option<V> {
        map_find(self.entries_view(), key)
    }

    /// Whether `key` is present.
    pub open spec fn contains(&self, key: PathView) -> bool {
        self.find(key) is Some
    }

    /// The empty map.
    pub fn new() -> (r: PathMap<V>)
        ensures
            r.wf(),
            forall|k: PathView| r.find(k) is None,
            r.entries_view().len() == 0,
    {
        PathMap { entries: Vec::new() }
    }

    /// How many paths are mapped.
    pub fn len(&self) -> (r: usize)
        ensures
            r == self.entries_view().len(),
    {
        self.entries.len()
    }

    /// The entry at one position, for walking the map in insertion order.
    pub fn entry_at(&self, i: usize) -> (r: (&Path, &V))
        requires
            i < self.entries_view().len(),
        ensures
            *r.0 == self.entries_view()[i as int].0,
            *r.1 == self.entries_view()[i as int].1,
    {
        let e = &self.entries[i];
        (&e.0, &e.1)
    }

    /// Position of `key` in the entry list, if present.
    fn position_of(&self, key: &Path) -> (r: Option<usize>)
        requires
            self.wf(),
        ensures
            r matches Some(i) ==> i < self.entries_view().len() && self.entries_view()[
                i as int
            ].0@ == key@ && self.find(key@) == Some(self.entries_view()[i as int].1),
            r is None ==> self.find(key@) is None,
    {
        let n = self.entries.len();
        let mut j: usize = 0;
        while j < n
            invariant
                self.wf(),
                n == self.entries_view().len(),
                j <= n,
                forall|t: int| 0 <= t < j ==> (#[trigger] self.entries_view()[t]).0@ != key@,
            decreases n - j,
        {
            if self.entries[j].0 == *key {
                proof {
                    lemma_map_find_at(self.entries_view(), key@, j as int);
                }
                return Some(j);
            }
            j += 1;
        }
        proof {
            lemma_map_find_index(self.entries_view(), key@);
            if self.find(key@) is Some {
                let w = choose|i: int|
                    0 <= i < self.entries_view().len() && (#[trigger] self.entries_view()[i]).0@
                        == key@ && self.entries_view()[i].1 == self.find(key@)->Some_0;
            }
        }
        None
    }

    /// Whether `key` is present.
    pub fn contains_key(&self, key: &Path) -> (r: bool)
        requires
            self.wf(),
        ensures
            r == self.contains(key@),
    {
        match self.position_of(key) {
            Some(_) => true,
            None => false,
        }
    }

    /// The value stored under `key`, if any.
    pub fn get(&self, key: &Path) -> (r: Option<&V>)
        requires
            self.wf(),
        ensures
            self.find(key@) matches Some(v) ==> r matches Some(rv) && *rv == v,
            self.find(key@) is None ==> r is None,
    {
        match self.position_of(key) {
            Some(i) => Some(&self.entries[i].1),
            None => None,
        }
    }

    /// Map `key` to `value`, replacing any previous value under the same
    /// key; every other key keeps its value.
    pub fn insert(&mut self, key: Path, value: V)
        requires
            old(self).wf(),
        ensures
            final(self).wf(),
            final(self).find(key@) == Some(value),
            forall|k: PathView| k != key@ ==> #[trigger] final(self).find(k) == old(self).find(k),
            old(self).contains(key@) ==> final(self).entries_view().len() == old(
                self,
            ).entries_view().len(),
            !old(self).contains(key@) ==> final(self).entries_view().len() == old(
                self,
            ).entries_view().len() + 1,
    {
        let ghost before = self.entries@;
        match self.position_of(&key) {
            Some(i) => {
                self.entries.remove(i);
                self.entries.insert(i, (key, value));
                proof {
                    let now = self.entries@;
                    assert(now =~= before.update(i as int, now[i as int]));
                    assert(now[i as int].0@ == before[i as int].0@);
                    assert forall|a: int, b: int| 0 <= a < b < now.len() implies (
                    #[trigger] now[a]).0@ != (#[trigger] now[b]).0@ by {
                        assert(now[a].0@ == before[a].0@);
                        assert(now[b].0@ == before[b].0@);
                    }
                    lemma_map_find_at(now, now[i as int].0@, i as int);
                    assert forall|k: PathView| k != now[i as int].0@ implies #[trigger] map_find(
                        now,
                        k,
                    ) == map_find(before, k) by {
                        lemma_map_find_index(now, k);
                        lemma_map_find_index(before, k);
                        if map_find(now, k) is Some {
                            let w = choose|t: int|
                                0 <= t < now.len() && (#[trigger] now[t]).0@ == k && now[t].1
                                    == map_find(now, k)->Some_0;
                            assert(before[w] == now[w]);
                            lemma_map_find_at(before, k, w);
                        }
                        if map_find(before, k) is Some {
                            let w = choose|t: int|
                                0 <= t < before.len() && (#[trigger] before[t]).0@ == k
                                    && before[t].1 == map_find(before, k)->Some_0;
                            assert(now[w] == before[w]);
                            lemma_map_find_at(now, k, w);
                        }
                    }
                }
            },
            None => {
                let ghost kview = key@;
                self.entries.push((key, value));
                proof {
                    let now = self.entries@;
                    lemma_map_find_index(before, kview);
                    assert forall|a: int, b: int| 0 <= a < b < now.len() implies (
                    #[trigger] now[a]).0@ != (#[trigger] now[b]).0@ by {
                        if b < before.len() {
                            assert(now[a] == before[a] && now[b] == before[b]);
                        } else {
                            assert(now[a] == before[a]);
                            assert(before[a].0@ != kview);
                        }
                    }
                    lemma_map_find_at(now, kview, now.len() - 1);
                    assert forall|k: PathView| k != kview implies #[trigger] map_find(now, k)
                        == map_find(before, k) by {
                        lemma_map_find_index(now, k);
                        lemma_map_find_index(before, k);
                        if map_find(now, k) is Some {
                            let w = choose|t: int|
                                0 <= t < now.len() && (#[trigger] now[t]).0@ == k && now[t].1
                                    == map_find(now, k)->Some_0;
                            assert(w < before.len());
                            lemma_map_find_at(before, k, w);
                        }
                        if map_find(before, k) is Some {
                            let w = choose|t: int|
                                0 <= t < before.len() && (#[trigger] before[t]).0@ == k
                                    && before[t].1 == map_find(before, k)->Some_0;
                            assert(now[w] == before[w]);
                            lemma_map_find_at(now, k, w);
                        }
                    }
                }
            },
        }
    }

    /// Drop the entry under `key`, if any, returning its value; every other
    /// key keeps its value.
    pub fn remove(&mut self, key: &Path) -> (r: Option<V>)
        requires
            old(self).wf(),
        ensures
            final(self).wf(),
            final(self).find(key@) is None,
            r == old(self).find(key@),
            forall|k: PathView| k != key@ ==> #[trigger] final(self).find(k) == old(self).find(k),
    {
        let ghost before = self.entries@;
        match self.position_of(key) {
            Some(i) => {
                let e = self.entries.remove(i);
                proof {
                    let now = self.entries@;
                    assert(now =~= before.remove(i as int));
                    assert forall|a: int, b: int| 0 <= a < b < now.len() implies (
                    #[trigger] now[a]).0@ != (#[trigger] now[b]).0@ by {
                        let a0 = if a < i { a } else { a + 1 };
                        let b0 = if b < i { b } else { b + 1 };
                        assert(now[a] == before[a0] && now[b] == before[b0]);
                    }
                    lemma_map_find_index(now, key@);
                    if map_find(now, key@) is Some {
                        let w = choose|t: int|
                            0 <= t < now.len() && (#[trigger] now[t]).0@ == key@ && now[t].1
                                == map_find(now, key@)->Some_0;
                        let w0 = if w < i { w } else { w + 1 };
                        assert(before[w0] == now[w]);
                    }
                    assert forall|k: PathView| k != key@ implies #[trigger] map_find(now, k)
                        == map_find(before, k) by {
                        lemma_map_find_index(now, k);
                        lemma_map_find_index(before, k);
                        if map_find(now, k) is Some {
                            let w = choose|t: int|
                                0 <= t < now.len() && (#[trigger] now[t]).0@ == k && now[t].1
                                    == map_find(now, k)->Some_0;
                            let w0 = if w < i { w } else { w + 1 };
                            assert(before[w0] == now[w]);
                            lemma_map_find_at(before, k, w0);
                        }
                        if map_find(before, k) is Some {
                            let w0 = choose|t: int|
                                0 <= t < before.len() && (#[trigger] before[t]).0@ == k
                                    && before[t].1 == map_find(before, k)->Some_0;
                            let w = if w0 < i { w0 } else { w0 - 1 };
                            assert(w0 != i);
                            assert(now[w] == before[w0]);
                            lemma_map_find_at(now, k, w);
                        }
                    }
                }
                Some(e.1)
            },
            None => {
                None
            },
        }
    }
}

} // verus!
