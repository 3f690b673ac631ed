//! A keyed table: entries under unique (height, round) keys.
use vstd::prelude::*;

use crate::height::Round;

verus! {

/// The key of a table entry. Tables keyed by height alone use `Round::Nil`.
#[derive(Clone, Copy, Debug, PartialEq, Eq, Structural, Hash)]
pub struct TableKey {
    pub height: u64,
    pub round: Round,
}

/// Entries under unique keys, in insertion order.
pub struct Table<V> {
    entries: Vec<(TableKey, V)>,
    contents: Ghost<Map<TableKey, V>>,
}

impl<V> Table<V> {
    /// The table as a map from keys to values.
    pub closed spec fn view(&self) -> Map<TableKey, V> {
        self.contents@
    }

    pub closed spec fn wf(&self) -> bool {
        &&& forall|i: int|
            0 <= i < self.entries@.len() ==> self.contents@.contains_key(
                (#[trigger] self.entries@[i]).0,
            ) && self.contents@[self.entries@[i].0] == self.entries@[i].1
        &&& forall|k: TableKey| #[trigger]
            self.contents@.contains_key(k) ==> exists|i: int|
                0 <= i < self.entries@.len() && (#[trigger] self.entries@[i]).0 == k
        &&& forall|i: int, j: int|
            0 <= i < j < self.entries@.len() ==> (#[trigger] self.entries@[i]).0
                != (#[trigger] self.entries@[j]).0
    }

    pub fn new() -> (r: Table<V>)
        ensures
            r.wf(),
            r@ == Map::<TableKey, V>::empty(),
    {
        Table { entries: Vec::new(), contents: Ghost(Map::empty()) }
    }

    fn find(&self, key: TableKey) -> (r: Option<usize>)
        requires
            self.wf(),
        ensures
            r matches Some(i) ==> i < self.entries@.len() && self.entries@[i as int].0 == key,
            r is None ==> !self@.contains_key(key),
    {
        let mut i: usize = 0;
        while i < self.entries.len()
            invariant
                self.wf(),
                i <= self.entries@.len(),
                forall|j: int| 0 <= j < i ==> (#[trigger] self.entries@[j]).0 != key,
            decreases self.entries@.len() - i,
        {
            if self.entries[i].0 == key {
                return Some(i);
            }
            i = i + 1;
        }
        None
    }

    pub fn get(&self, key: TableKey) -> (r: Option<&V>)
        requires
            self.wf(),
        ensures
            self@.contains_key(key) <==> r is Some,
            r matches Some(v) ==> *v == self@[key],
    {
        match self.find(key) {
            Some(i) => Some(&self.entries[i].1),
            None => None,
        }
    }

    pub fn contains(&self, key: TableKey) -> (r: bool)
        requires
            self.wf(),
        ensures
            r == self@.contains_key(key),
    {
        self.find(key).is_some()
    }

    /// Sets the value under `key`, replacing what was there.
    pub fn insert(&mut self, key: TableKey, value: V)
        requires
            old(self).wf(),
        ensures
            final(self).wf(),
            final(self)@ == old(self)@.insert(key, value),
    {
        let ghost m = self.contents@.insert(key, value);
        match self.find(key) {
            Some(i) => {
                let ghost old_entries = self.entries@;
                self.entries.set(i, (key, value));
                self.contents = Ghost(m);
                proof {
                    assert forall|k: TableKey| #[trigger]
                        self.contents@.contains_key(k) implies exists|j: int|
                        0 <= j < self.entries@.len() && (#[trigger] self.entries@[j]).0 == k by {
                        if k != key {
                            let j = choose|j: int|
                                0 <= j < old_entries.len() && (#[trigger] old_entries[j]).0 == k;
                            assert(self.entries@[j].0 == k);
                        } else {
                            assert(self.entries@[i as int].0 == k);
                        }
                    }
                }
            },
            None => {
                self.entries.push((key, value));
                self.contents = Ghost(m);
                proof {
                    let n = self.entries@.len() - 1;
                    assert forall|k: TableKey| #[trigger]
                        self.contents@.contains_key(k) implies exists|j: int|
                        0 <= j < self.entries@.len() && (#[trigger] self.entries@[j]).0 == k by {
                        if k != key {
                            let j = choose|j: int|
                                0 <= j < old(self).entries@.len() && (#[trigger] old(
                                    self,
                                ).entries@[j]).0 == k;
                            assert(self.entries@[j].0 == k);
                        } else {
                            assert(self.entries@[n].0 == k);
                        }
                    }
                }
            },
        }
    }

    /// Sets the value under `key` unless the key is taken; returns whether it did.
    pub fn insert_if_absent(&mut self, key: TableKey, value: V) -> (r: bool)
        requires
            old(self).wf(),
        ensures
            final(self).wf(),
            r == !old(self)@.contains_key(key),
            final(self)@ == if r { old(self)@.insert(key, value) } else { old(self)@ },
    {
        if self.contains(key) {
            false
        } else {
            self.insert(key, value);
            true
        }
    }

    /// The entries whose height is at least `retain`.
    pub open spec fn retained(m: Map<TableKey, V>, retain: u64) -> Map<TableKey, V> {
        m.restrict(m.dom().filter(|k: TableKey| k.height >= retain))
    }

    /// Removes every entry whose height is below `retain`; returns their keys.
    pub fn remove_below(&mut self, retain: u64) -> (r: Vec<TableKey>)
        requires
            old(self).wf(),
        ensures
            final(self).wf(),
            final(self)@ == Self::retained(old(self)@, retain),
            forall|k: TableKey| #[trigger]
                r@.contains(k) <==> old(self)@.contains_key(k) && k.height < retain,
            forall|i: int, j: int| 0 <= i < j < r@.len() ==> #[trigger] r@[i] != #[trigger] r@[j],
    {
        let ghost target = Self::retained(old(self)@, retain);
        let ghost old_entries = self.entries@;
        let ghost old_map = self.contents@;
        let mut kept: Vec<(TableKey, V)> = Vec::new();
        let mut removed: Vec<TableKey> = Vec::new();
        let ghost mut idx: Seq<int> = Seq::empty();
        while self.entries.len() > 0
            invariant
                old(self).wf(),
                old_entries == old(self).entries@,
                old_map == old(self).contents@,
                self.entries@.len() <= old_entries.len(),
                self.entries@ == old_entries.take(self.entries@.len() as int),
                idx.len() == kept@.len(),
                forall|j: int|
                    0 <= j < kept@.len() ==> self.entries@.len() <= #[trigger] idx[j]
                        < old_entries.len() && old_entries[idx[j]] == kept@[j]
                        && kept@[j].0.height >= retain,
                forall|i: int, j: int| 0 <= i < j < kept@.len() ==> #[trigger] idx[i] > #[trigger] idx[j],
                forall|a: int|
                    self.entries@.len() <= a < old_entries.len() && (
                    #[trigger] old_entries[a]).0.height >= retain ==> exists|j: int|
                        0 <= j < kept@.len() && idx[j] == a,
                forall|k: TableKey| #[trigger]
                    removed@.contains(k) <==> exists|a: int|
                        self.entries@.len() <= a < old_entries.len() && (#[trigger] old_entries[a]).0
                            == k && k.height < retain,
                forall|i: int, j: int| 0 <= i < j < removed@.len() ==> #[trigger] removed@[i] != #[trigger] removed@[j],
            decreases self.entries@.len(),
        {
            let ghost n = self.entries@.len() - 1;
            let e = self.entries.pop().unwrap();
            assert(e == old_entries[n]);
            let ghost old_idx = idx;
            if e.0.height >= retain {
                kept.push(e);
                proof {
                    idx = idx.push(n);
                    assert forall|a: int|
                        n <= a < old_entries.len() && (#[trigger] old_entries[a]).0.height
                            >= retain implies exists|j: int| 0 <= j < kept@.len() && idx[j] == a by {
                        if a == n {
                            assert(idx[idx.len() - 1] == a);
                        } else {
                            let j = choose|j: int| 0 <= j < old_idx.len() && old_idx[j] == a;
                            assert(idx[j] == a);
                        }
                    }
                }
            } else {
                let ghost before = removed@;
                proof {
                    if before.contains(e.0) {
                        let a = choose|a: int|
                            n + 1 <= a < old_entries.len() && (#[trigger] old_entries[a]).0 == e.0
                                && e.0.height < retain;
                        assert(old_entries[n].0 != old_entries[a].0);
                    }
                }
                removed.push(e.0);
                proof {
                    assert forall|i: int, j: int| 0 <= i < j < removed@.len() implies #[trigger] removed@[i] != #[trigger] removed@[j] by {
                        if j == removed@.len() - 1 {
                            assert(before[i] == removed@[i]);
                            assert(before.contains(before[i]));
                        }
                    }
                    assert forall|k: TableKey| #[trigger] removed@.contains(k) implies exists|a: int|
                        n <= a < old_entries.len() && (#[trigger] old_entries[a]).0 == k
                            && k.height < retain by {
                        if k == e.0 {
                            assert(old_entries[n].0 == k);
                        } else {
                            assert(before.contains(k));
                        }
                    }
                    assert forall|k: TableKey| (exists|a: int|
                        n <= a < old_entries.len() && (#[trigger] old_entries[a]).0 == k
                            && k.height < retain) implies #[trigger] removed@.contains(k) by {
                        let a = choose|a: int|
                            n <= a < old_entries.len() && (#[trigger] old_entries[a]).0 == k
                                && k.height < retain;
                        assert(removed@ =~= before.push(e.0));
                        if a == n {
                            assert(removed@[removed@.len() - 1] == k);
                        } else {
                            assert(before.contains(k));
                            let i = choose|i: int| 0 <= i < before.len() && before[i] == k;
                            assert(removed@[i] == k);
                        }
                    }
                    assert forall|a: int|
                        n <= a < old_entries.len() && (#[trigger] old_entries[a]).0.height
                            >= retain implies exists|j: int| 0 <= j < kept@.len() && idx[j] == a by {
                        assert(a != n);
                    }
                }
            }
            assert(self.entries@ =~= old_entries.take(self.entries@.len() as int));
        }
        proof {
            assert forall|i: int|
                0 <= i < kept@.len() implies target.contains_key((#[trigger] kept@[i]).0)
                && target[kept@[i].0] == kept@[i].1 by {
                let a = idx[i];
                assert(old_entries[a] == kept@[i]);
                assert(old(self).entries@[a] == kept@[i]);
                assert(old_map.contains_key(kept@[i].0));
                assert(old_map.dom().filter(|k: TableKey| k.height >= retain).contains(kept@[i].0));
                assert(target.dom().contains(kept@[i].0));
            }
            assert forall|k: TableKey| #[trigger] target.contains_key(k) implies exists|i: int|
                0 <= i < kept@.len() && (#[trigger] kept@[i]).0 == k by {
                assert(target.dom().contains(k));
                assert(old_map.contains_key(k) && k.height >= retain);
                let a = choose|a: int| 0 <= a < old_entries.len() && (#[trigger] old_entries[a]).0 == k;
                assert(old_entries[a].0.height >= retain);
                let j = choose|j: int| 0 <= j < kept@.len() && idx[j] == a;
                assert(kept@[j].0 == k);
            }
            assert forall|i: int, j: int| 0 <= i < j < kept@.len() implies (#[trigger] kept@[i]).0
                != (#[trigger] kept@[j]).0 by {
                assert(idx[i] > idx[j]);
            }
            assert forall|k: TableKey| #[trigger]
                removed@.contains(k) <==> old_map.contains_key(k) && k.height < retain by {
                if old_map.contains_key(k) && k.height < retain {
                    let a = choose|a: int| 0 <= a < old_entries.len() && (#[trigger] old_entries[a]).0 == k;
                    assert(old_entries[a].0 == k);
                }
            }
        }
        let ghost kept_v = kept@;
        self.entries = kept;
        self.contents = Ghost(target);
        assert forall|k: TableKey| #[trigger] self.contents@.contains_key(k) implies exists|i: int|
            0 <= i < self.entries@.len() && (#[trigger] self.entries@[i]).0 == k by {
            let i = choose|i: int| 0 <= i < kept_v.len() && (#[trigger] kept_v[i]).0 == k;
            assert(self.entries@[i].0 == k);
        }
        removed
    }

    /// The lowest height among the keys, if any.
    pub fn min_height(&self) -> (r: Option<u64>)
        requires
            self.wf(),
        ensures
            r is None <==> self@.dom() == Set::<TableKey>::empty(),
            r matches Some(h) ==> (exists|k: TableKey|
                #[trigger] self@.contains_key(k) && k.height == h) && forall|k: TableKey|
                #[trigger] self@.contains_key(k) ==> h <= k.height,
    {
        if self.entries.len() == 0 {
            assert(self@.dom() =~= Set::<TableKey>::empty());
            return None;
        }
        let mut best: u64 = self.entries[0].0.height;
        let mut at: usize = 0;
        let mut i: usize = 1;
        while i < self.entries.len()
            invariant
                self.wf(),
                1 <= i <= self.entries@.len(),
                at < i,
                self.entries@[at as int].0.height == best,
                forall|j: int| 0 <= j < i ==> best <= (#[trigger] self.entries@[j]).0.height,
            decreases self.entries@.len() - i,
        {
            if self.entries[i].0.height < best {
                best = self.entries[i].0.height;
                at = i;
            }
            i = i + 1;
        }
        proof {
            let k0 = self.entries@[at as int].0;
            assert(self@.contains_key(k0));
            assert(self@.dom().contains(k0));
            assert forall|k: TableKey| #[trigger] self@.contains_key(k) implies best <= k.height by {
                let j = choose|j: int| 0 <= j < self.entries@.len() && (#[trigger] self.entries@[j]).0 == k;
            }
        }
        Some(best)
    }

    /// The highest height among the keys, if any.
    pub fn max_height(&self) -> (r: Option<u64>)
        requires
            self.wf(),
        ensures
            r is None <==> self@.dom() == Set::<TableKey>::empty(),
            r matches Some(h) ==> (exists|k: TableKey|
                #[trigger] self@.contains_key(k) && k.height == h) && forall|k: TableKey|
                #[trigger] self@.contains_key(k) ==> k.height <= h,
    {
        if self.entries.len() == 0 {
            assert(self@.dom() =~= Set::<TableKey>::empty());
            return None;
        }
        let mut best: u64 = self.entries[0].0.height;
        let mut at: usize = 0;
        let mut i: usize = 1;
        while i < self.entries.len()
            invariant
                self.wf(),
                1 <= i <= self.entries@.len(),
                at < i,
                self.entries@[at as int].0.height == best,
                forall|j: int| 0 <= j < i ==> (#[trigger] self.entries@[j]).0.height <= best,
            decreases self.entries@.len() - i,
        {
            if self.entries[i].0.height > best {
                best = self.entries[i].0.height;
                at = i;
            }
            i = i + 1;
        }
        proof {
            let k0 = self.entries@[at as int].0;
            assert(self@.contains_key(k0));
            assert(self@.dom().contains(k0));
            assert forall|k: TableKey| #[trigger] self@.contains_key(k) implies k.height <= best by {
                let j = choose|j: int| 0 <= j < self.entries@.len() && (#[trigger] self.entries@[j]).0 == k;
            }
        }
        Some(best)
    }
}

} // verus!
