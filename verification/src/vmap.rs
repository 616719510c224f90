//! A finite map from `u64` keys to values, backed by parallel vectors.
//!
//! The engine's trackers index almost everything by 64-bit object ids
//! (entity ids, character ids, effect instance ids widened to 64 bits), so one
//! map type with a `Map<u64, V>` view serves them all. Insertion order is kept,
//! which makes every walk over the entries deterministic.

use vstd::prelude::*;

verus! {

pub struct VMap<V> {
    keys: Vec<u64>,
    vals: Vec<V>,
}

impl<V> VMap<V> {
    /// The keys in insertion order.
    pub closed spec fn key_seq(self) -> Seq<u64> {
        self.keys@
    }

    /// The values, parallel to `key_seq`.
    pub closed spec fn val_seq(self) -> Seq<V> {
        self.vals@
    }

    pub open spec fn wf(self) -> bool {
        &&& self.key_seq().len() == self.val_seq().len()
        &&& forall|i: int, j: int|
            0 <= i < j < self.key_seq().len() ==> self.key_seq()[i] != self.key_seq()[j]
    }

    pub closed spec fn view(self) -> Map<u64, V> {
        Map::new(
            |k: u64| self.keys@.contains(k),
            |k: u64| self.vals@[self.keys@.index_of(k)],
        )
    }

    pub proof fn lemma_contains(self, k: u64)
        ensures
            self@.contains_key(k) <==> self.key_seq().contains(k),
    {
    }

    /// The entry at position `i` is in the map.
    pub proof fn lemma_entry(self, i: int)
        requires
            self.wf(),
            0 <= i < self.key_seq().len(),
        ensures
            self@.contains_key(self.key_seq()[i]),
            self@[self.key_seq()[i]] == self.val_seq()[i],
    {
        let k = self.key_seq()[i];
        assert(self.keys@.contains(k));
        let j = self.keys@.index_of(k);
        assert(self.keys@[j] == k);
        assert(j == i);
    }

    pub fn new() -> (r: VMap<V>)
        ensures
            r.wf(),
            r@ == Map::<u64, V>::empty(),
            r.key_seq() == Seq::<u64>::empty(),
    {
        let r = VMap { keys: Vec::new(), vals: Vec::new() };
        proof {
            assert(r@ =~= Map::<u64, V>::empty());
        }
        r
    }

    pub fn len(&self) -> (n: usize)
        ensures
            n == self.key_seq().len(),
    {
        self.keys.len()
    }

    pub fn key_at(&self, i: usize) -> (k: u64)
        requires
            i < self.key_seq().len(),
        ensures
            k == self.key_seq()[i as int],
    {
        self.keys[i]
    }

    pub fn val_at(&self, i: usize) -> (v: &V)
        requires
            self.wf(),
            i < self.key_seq().len(),
        ensures
            *v == self.val_seq()[i as int],
            self@.contains_key(self.key_seq()[i as int]),
            *v == self@[self.key_seq()[i as int]],
    {
        proof {
            self.lemma_entry(i as int);
        }
        &self.vals[i]
    }

    pub fn contains_key(&self, k: u64) -> (r: bool)
        requires
            self.wf(),
        ensures
            r == self@.contains_key(k),
    {
        let mut i: usize = 0;
        while i < self.keys.len()
            invariant
                i <= self.keys.len(),
                forall|j: int| 0 <= j < i ==> self.keys@[j] != k,
            decreases self.keys.len() - i,
        {
            if self.keys[i] == k {
                proof {
                    self.lemma_contains(k);
                }
                return true;
            }
            i += 1;
        }
        proof {
            self.lemma_contains(k);
        }
        false
    }

    pub fn get(&self, k: u64) -> (r: Option<&V>)
        requires
            self.wf(),
        ensures
            match r {
                Some(v) => self@.contains_key(k) && *v == self@[k],
                None => !self@.contains_key(k),
            },
    {
        let mut i: usize = 0;
        while i < self.keys.len()
            invariant
                i <= self.keys.len(),
                self.wf(),
                forall|j: int| 0 <= j < i ==> self.keys@[j] != k,
            decreases self.keys.len() - i,
        {
            if self.keys[i] == k {
                proof {
                    self.lemma_entry(i as int);
                }
                return Some(&self.vals[i]);
            }
            i += 1;
        }
        proof {
            self.lemma_contains(k);
        }
        None
    }

    /// Insert or replace: the new map is the old one with `k` bound to `v`.
    pub fn insert(&mut self, k: u64, v: V)
        requires
            old(self).wf(),
        ensures
            final(self).wf(),
            final(self)@ == old(self)@.insert(k, v),
            old(self)@.contains_key(k) ==> final(self).key_seq() == old(self).key_seq(),
            !old(self)@.contains_key(k) ==> final(self).key_seq() == old(self).key_seq().push(k),
    {
        let ghost pre = *old(self);
        let mut i: usize = 0;
        while i < self.keys.len()
            invariant
                i <= self.keys.len(),
                *self == pre,
                pre == *old(self),
                pre.wf(),
                forall|j: int| 0 <= j < i ==> self.keys@[j] != k,
            decreases self.keys.len() - i,
        {
            if self.keys[i] == k {
                self.vals[i] = v;
                proof {
                    assert(self.key_seq() == pre.key_seq());
                    assert(self.val_seq() == pre.val_seq().update(i as int, v));
                    assert(pre.keys@.contains(k));
                    assert forall|k2: u64| #[trigger] self@.contains_key(k2)
                        <==> pre@.insert(k, v).contains_key(k2) by {
                        pre.lemma_contains(k2);
                        self.lemma_contains(k2);
                    }
                    assert forall|k2: u64| self@.contains_key(k2)
                        implies #[trigger] self@[k2] == pre@.insert(k, v)[k2] by {
                        self.lemma_contains(k2);
                        let j = choose|j: int|
                            0 <= j < self.keys@.len() && self.keys@[j] == k2;
                        self.lemma_entry(j);
                        if k2 == k {
                            assert(j == i);
                        } else {
                            assert(j != i);
                            pre.lemma_entry(j);
                        }
                    }
                    assert(self@ =~= pre@.insert(k, v));
                }
                return ;
            }
            i += 1;
        }
        self.keys.push(k);
        self.vals.push(v);
        proof {
            assert(self.key_seq() == pre.key_seq().push(k));
            assert(self.val_seq() == pre.val_seq().push(v));
            assert(!pre.keys@.contains(k));
            pre.lemma_contains(k);
            assert forall|i2: int, j2: int|
                0 <= i2 < j2 < self.key_seq().len() implies self.key_seq()[i2]
                != self.key_seq()[j2] by {
                if j2 == self.key_seq().len() - 1 {
                    assert(pre.keys@[i2] == self.keys@[i2]);
                    assert(pre.keys@.contains(pre.keys@[i2]));
                }
            }
            assert forall|k2: u64| #[trigger] self@.contains_key(k2)
                <==> pre@.insert(k, v).contains_key(k2) by {
                pre.lemma_contains(k2);
                self.lemma_contains(k2);
                if k2 == k {
                    assert(self.keys@[self.keys@.len() - 1] == k);
                    assert(self.keys@.contains(k));
                } else {
                    if pre.keys@.contains(k2) {
                        let j = choose|j: int|
                            0 <= j < pre.keys@.len() && pre.keys@[j] == k2;
                        assert(self.keys@[j] == k2);
                        assert(self.keys@.contains(k2));
                    }
                    if self.keys@.contains(k2) {
                        let j = choose|j: int|
                            0 <= j < self.keys@.len() && self.keys@[j] == k2;
                        assert(j < pre.keys@.len());
                        assert(pre.keys@[j] == k2);
                        assert(pre.keys@.contains(k2));
                    }
                }
            }
            assert forall|k2: u64| self@.contains_key(k2)
                implies #[trigger] self@[k2] == pre@.insert(k, v)[k2] by {
                self.lemma_contains(k2);
                let j = choose|j: int| 0 <= j < self.keys@.len() && self.keys@[j] == k2;
                self.lemma_entry(j);
                if k2 == k {
                    assert(j == self.keys@.len() - 1);
                } else {
                    assert(j < pre.keys@.len());
                    pre.lemma_entry(j);
                }
            }
            assert(self@ =~= pre@.insert(k, v));
        }
    }

    /// Remove the binding for `k`, handing back its value if it was there.
    pub fn remove(&mut self, k: u64) -> (r: Option<V>)
        requires
            old(self).wf(),
        ensures
            final(self).wf(),
            final(self)@ == old(self)@.remove(k),
            match r {
                Some(v) => old(self)@.contains_key(k) && v == old(self)@[k],
                None => !old(self)@.contains_key(k),
            },
    {
        let ghost pre = *old(self);
        let mut i: usize = 0;
        while i < self.keys.len()
            invariant
                i <= self.keys.len(),
                *self == pre,
                pre == *old(self),
                pre.wf(),
                forall|j: int| 0 <= j < i ==> self.keys@[j] != k,
            decreases self.keys.len() - i,
        {
            if self.keys[i] == k {
                proof {
                    pre.lemma_entry(i as int);
                }
                self.keys.remove(i);
                let v = self.vals.remove(i);
                proof {
                    assert(self.key_seq() == pre.key_seq().remove(i as int));
                    assert(self.val_seq() == pre.val_seq().remove(i as int));
                    assert forall|i2: int, j2: int|
                        0 <= i2 < j2 < self.key_seq().len() implies self.key_seq()[i2]
                        != self.key_seq()[j2] by {
                        let pi = if i2 < i { i2 } else { i2 + 1 };
                        let pj = if j2 < i { j2 } else { j2 + 1 };
                        assert(self.keys@[i2] == pre.keys@[pi]);
                        assert(self.keys@[j2] == pre.keys@[pj]);
                    }
                    assert forall|k2: u64| #[trigger] self@.contains_key(k2)
                        <==> pre@.remove(k).contains_key(k2) by {
                        pre.lemma_contains(k2);
                        self.lemma_contains(k2);
                        if k2 != k {
                            if pre.keys@.contains(k2) {
                                let j = choose|j: int|
                                    0 <= j < pre.keys@.len() && pre.keys@[j] == k2;
                                assert(j != i);
                                let nj = if j < i { j } else { j - 1 };
                                assert(self.keys@[nj] == k2);
                                assert(self.keys@.contains(k2));
                            }
                            if self.keys@.contains(k2) {
                                let j = choose|j: int|
                                    0 <= j < self.keys@.len() && self.keys@[j] == k2;
                                let pj = if j < i { j } else { j + 1 };
                                assert(pre.keys@[pj] == k2);
                                assert(pre.keys@.contains(k2));
                            }
                        } else {
                            if self.keys@.contains(k) {
                                let j = choose|j: int|
                                    0 <= j < self.keys@.len() && self.keys@[j] == k;
                                let pj = if j < i { j } else { j + 1 };
                                assert(pre.keys@[pj] == k);
                                assert(pre.keys@[i as int] == k);
                                assert(false);
                            }
                        }
                    }
                    assert forall|k2: u64| self@.contains_key(k2)
                        implies #[trigger] self@[k2] == pre@.remove(k)[k2] by {
                        self.lemma_contains(k2);
                        let j = choose|j: int|
                            0 <= j < self.keys@.len() && self.keys@[j] == k2;
                        self.lemma_entry(j);
                        let pj = if j < i { j } else { j + 1 };
                        assert(pre.keys@[pj] == k2);
                        pre.lemma_entry(pj);
                        assert(pre.vals@[pj] == self.vals@[j]);
                    }
                    assert(self@ =~= pre@.remove(k));
                }
                return Some(v);
            }
            i += 1;
        }
        proof {
            pre.lemma_contains(k);
            assert(self@ =~= pre@.remove(k));
        }
        None
    }

    /// Drop every binding.
    pub fn clear(&mut self)
        ensures
            final(self).wf(),
            final(self)@ == Map::<u64, V>::empty(),
            final(self).key_seq() == Seq::<u64>::empty(),
    {
        self.keys.clear();
        self.vals.clear();
        proof {
            assert(self@ =~= Map::<u64, V>::empty());
        }
    }
}

} // verus!
