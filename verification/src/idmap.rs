//! A map from 128-bit identifiers, walked in the order of its keys.

use vstd::prelude::*;

verus! {

/// A map whose keys are identifiers. Its entries stand in the order of their keys.
pub struct IdMap<V> {
    entries: Vec<(u128, V)>,
}

pub open spec fn sorted_ids(keys: Seq<u128>) -> bool {
    forall|i: int, j: int| 0 <= i < j < keys.len() ==> #[trigger] keys[i] < #[trigger] keys[j]
}

impl<V> IdMap<V> {
    /// The keys in order.
    pub closed spec fn keys(&self) -> Seq<u128> {
        self.entries@.map_values(|e: (u128, V)| e.0)
    }

    /// The values in the order of their keys.
    pub closed spec fn values(&self) -> Seq<V> {
        self.entries@.map_values(|e: (u128, V)| e.1)
    }

    #[verifier::type_invariant]
    pub closed spec fn wf(&self) -> bool {
        sorted_ids(self.keys())
    }

    closed spec fn index_of(&self, k: u128) -> int {
        choose|i: int| 0 <= i < self.entries@.len() && (#[trigger] self.entries@[i]).0 == k
    }

    /// The keys stand in order and are those that the map holds; each value stands where its
    /// key does.
    pub proof fn keys_are_the_domain(&self)
        requires
            self.wf(),
        ensures
            sorted_ids(self.keys()),
            self.keys().len() == self.values().len(),
            forall|k: u128| self@.dom().contains(k) <==> self.keys().contains(k),
            forall|i: int|
                0 <= i < self.keys().len() ==> self@[#[trigger] self.keys()[i]] == self.values()[i],
    {
        self.lemma_lookup();
        assert forall|k: u128| self@.dom().contains(k) <==> self.keys().contains(k) by {
            if self@.dom().contains(k) {
                let i = self.index_of(k);
                assert(self.keys()[i] == k);
            }
            if self.keys().contains(k) {
                let i = choose|i: int| 0 <= i < self.keys().len() && self.keys()[i] == k;
                assert(self.entries@[i].0 == k);
            }
        }
        assert forall|i: int| 0 <= i < self.keys().len() implies self@[#[trigger] self.keys()[i]]
            == self.values()[i] by {
            assert(self.entries@[i].0 == self.keys()[i]);
        }
    }

    proof fn lemma_lookup(&self)
        requires
            self.wf(),
        ensures
            forall|i: int|
                #![trigger self.entries@[i]]
                0 <= i < self.entries@.len() ==> self@.dom().contains(self.entries@[i].0)
                    && self@[self.entries@[i].0] == self.entries@[i].1,
            forall|k: u128| #[trigger] self@.dom().contains(k) ==> exists|i: int|
                0 <= i < self.entries@.len() && (#[trigger] self.entries@[i]).0 == k,
    {
        assert forall|i: int|
            #![trigger self.entries@[i]]
            0 <= i < self.entries@.len() implies self@.dom().contains(self.entries@[i].0)
            && self@[self.entries@[i].0] == self.entries@[i].1 by {
            let k = self.entries@[i].0;
            let j = self.index_of(k);
            assert(0 <= j < self.entries@.len() && self.entries@[j].0 == k);
            assert(self.keys()[i] == k && self.keys()[j] == k);
        }
    }

    pub fn new() -> (r: Self)
        ensures
            r@ == Map::<u128, V>::empty(),
            r.keys() == Seq::<u128>::empty(),
    {
        let r = IdMap { entries: Vec::new() };
        assert(r@ =~= Map::<u128, V>::empty());
        r
    }

    /// The first position whose key is not below `key`.
    fn position(&self, key: u128) -> (r: usize)
        requires
            self.wf(),
        ensures
            r <= self.entries@.len(),
            forall|i: int| 0 <= i < r ==> (#[trigger] self.entries@[i]).0 < key,
            forall|i: int| r <= i < self.entries@.len() ==> (#[trigger] self.entries@[i]).0 >= key,
    {
        let mut lo: usize = 0;
        let mut hi: usize = self.entries.len();
        while lo < hi
            invariant
                lo <= hi <= self.entries@.len(),
                self.wf(),
                forall|i: int| 0 <= i < lo ==> (#[trigger] self.entries@[i]).0 < key,
                forall|i: int|
                    hi <= i < self.entries@.len() ==> (#[trigger] self.entries@[i]).0 >= key,
            decreases hi - lo,
        {
            let mid: usize = lo + (hi - lo) / 2;
            let ghost keys = self.keys();
            assert(keys[mid as int] == self.entries@[mid as int].0);
            if self.entries[mid].0 < key {
                assert forall|i: int| 0 <= i < mid + 1 implies (#[trigger] self.entries@[i]).0
                    < key by {
                    assert(keys[i] == self.entries@[i].0);
                }
                lo = mid + 1;
            } else {
                assert forall|i: int| mid <= i < self.entries@.len() implies (
                #[trigger] self.entries@[i]).0 >= key by {
                    assert(keys[i] == self.entries@[i].0);
                }
                hi = mid;
            }
        }
        lo
    }

    pub fn len(&self) -> (r: usize)
        ensures
            r == self.keys().len(),
            r == self.values().len(),
    {
        self.entries.len()
    }

    pub fn key_at(&self, i: usize) -> (r: u128)
        requires
            i < self.keys().len(),
        ensures
            r == self.keys()[i as int],
    {
        self.entries[i].0
    }

    pub fn value_at(&self, i: usize) -> (r: &V)
        requires
            i < self.keys().len(),
        ensures
            *r == self.values()[i as int],
    {
        &self.entries[i].1
    }

    pub fn get(&self, key: u128) -> (r: Option<&V>)
        ensures
            r is Some == self@.dom().contains(key),
            r is Some ==> *r->0 == self@[key],
    {
        proof {
            use_type_invariant(self);
            self.lemma_lookup();
        }
        let i: usize = self.position(key);
        if i < self.entries.len() && self.entries[i].0 == key {
            return Some(&self.entries[i].1);
        }
        proof {
            if self@.dom().contains(key) {
                let j = choose|j: int|
                    0 <= j < self.entries@.len() && (#[trigger] self.entries@[j]).0 == key;
                assert(j >= i);
                assert(self.keys()[i as int] < self.keys()[j]);
            }
        }
        None
    }

    pub fn contains_key(&self, key: u128) -> (r: bool)
        ensures
            r == self@.dom().contains(key),
    {
        self.get(key).is_some()
    }

    /// Sets the value of a key.
    pub fn insert(&mut self, key: u128, value: V)
        ensures
            final(self)@ == old(self)@.insert(key, value),
    {
        proof {
            use_type_invariant(&*self);
            self.lemma_lookup();
        }
        let i: usize = self.position(key);
        let here: bool = i < self.entries.len() && self.entries[i].0 == key;
        let ghost before = *self;
        let mut e: Vec<(u128, V)> = Vec::new();
        std::mem::swap(&mut e, &mut self.entries);
        if here {
            e.remove(i);
        }
        e.insert(i, (key, value));
        proof {
            let after = IdMap { entries: e };
            let ks = after.keys();
            let was = before.keys();
            assert forall|x: int, y: int| 0 <= x < y < ks.len() implies #[trigger] ks[x]
                < #[trigger] ks[y] by {
                let ox = if x < i {
                    x
                } else if here {
                    x
                } else {
                    x - 1
                };
                let oy = if y < i {
                    y
                } else if here {
                    y
                } else {
                    y - 1
                };
                assert(ks[x] == e@[x].0 && ks[y] == e@[y].0);
                if x == i {
                    assert(before.entries@[oy].0 >= key);
                    assert(was[oy] == before.entries@[oy].0);
                    if here {
                        assert(was[i as int] < was[oy]);
                    } else if before.entries@[oy].0 == key {
                        assert(oy != i);
                        assert(was[i as int] < was[oy]);
                        assert(before.entries@[i as int].0 >= key);
                    }
                } else if y == i {
                    assert(before.entries@[x].0 < key);
                } else {
                    assert(was[ox] < was[oy]);
                }
            }
            assert(after.wf());
            after.lemma_lookup();
            let m = before@.insert(key, value);
            assert forall|q: u128| after@.dom().contains(q) <==> m.dom().contains(q) by {
                if after@.dom().contains(q) {
                    let x = choose|x: int| 0 <= x < e@.len() && (#[trigger] e@[x]).0 == q;
                    if x < i {
                        assert(before.entries@[x].0 == q);
                    } else if x > i {
                        let ox = if here {
                            x
                        } else {
                            x - 1
                        };
                        assert(before.entries@[ox].0 == q);
                    }
                }
                if m.dom().contains(q) {
                    if q == key {
                        assert(e@[i as int].0 == q);
                    } else {
                        let x = choose|x: int|
                            0 <= x < before.entries@.len() && (#[trigger] before.entries@[x]).0 == q;
                        let nx = if x < i {
                            x
                        } else if here {
                            x
                        } else {
                            x + 1
                        };
                        assert(e@[nx].0 == q);
                    }
                }
            }
            assert forall|q: u128| after@.dom().contains(q) implies after@[q] == m[q] by {
                let x = choose|x: int| 0 <= x < e@.len() && (#[trigger] e@[x]).0 == q;
                assert(after@[q] == e@[x].1);
                if x < i {
                    assert(before.entries@[x].0 == q);
                } else if x > i {
                    let ox = if here {
                        x
                    } else {
                        x - 1
                    };
                    assert(before.entries@[ox].0 == q);
                    assert(ks[i as int] < ks[x]);
                }
            }
            assert(after@ =~= m);
        }
        self.entries = e;
    }

    /// Takes a key and its value out.
    pub fn remove(&mut self, key: u128)
        ensures
            final(self)@ == old(self)@.remove(key),
    {
        let _ = self.take(key);
    }

    /// Takes a key and its value out, and returns the value.
    pub fn take(&mut self, key: u128) -> (r: Option<V>)
        ensures
            final(self)@ == old(self)@.remove(key),
            r == (if old(self)@.dom().contains(key) {
                Some(old(self)@[key])
            } else {
                None
            }),
    {
        proof {
            use_type_invariant(&*self);
            self.lemma_lookup();
        }
        let i: usize = self.position(key);
        let ghost before = *self;
        if i < self.entries.len() && self.entries[i].0 == key {
            let mut e: Vec<(u128, V)> = Vec::new();
            std::mem::swap(&mut e, &mut self.entries);
            let gone = e.remove(i);
            proof {
                let after = IdMap { entries: e };
                let ks = after.keys();
                let was = before.keys();
                assert forall|x: int, y: int| 0 <= x < y < ks.len() implies #[trigger] ks[x]
                    < #[trigger] ks[y] by {
                    let ox = if x < i {
                        x
                    } else {
                        x + 1
                    };
                    let oy = if y < i {
                        y
                    } else {
                        y + 1
                    };
                    assert(ks[x] == was[ox] && ks[y] == was[oy]);
                }
                assert(after.wf());
                after.lemma_lookup();
                let m = before@.remove(key);
                assert forall|q: u128| after@.dom().contains(q) <==> m.dom().contains(q) by {
                    if after@.dom().contains(q) {
                        let x = choose|x: int| 0 <= x < e@.len() && (#[trigger] e@[x]).0 == q;
                        let ox = if x < i {
                            x
                        } else {
                            x + 1
                        };
                        assert(before.entries@[ox].0 == q);
                        assert(was[ox] == q && was[i as int] == key);
                    }
                    if m.dom().contains(q) {
                        let x = choose|x: int|
                            0 <= x < before.entries@.len() && (#[trigger] before.entries@[x]).0 == q;
                        let nx = if x < i {
                            x
                        } else {
                            x - 1
                        };
                        assert(e@[nx].0 == q);
                    }
                }
                assert forall|q: u128| after@.dom().contains(q) implies after@[q] == m[q] by {
                    let x = choose|x: int| 0 <= x < e@.len() && (#[trigger] e@[x]).0 == q;
                    let ox = if x < i {
                        x
                    } else {
                        x + 1
                    };
                    assert(after@[q] == e@[x].1);
                    assert(before.entries@[ox].0 == q);
                    assert(m.dom().contains(q));
                }
                assert(after@ =~= m);
            }
            self.entries = e;
            Some(gone.1)
        } else {
            proof {
                if before@.dom().contains(key) {
                    let j = choose|j: int|
                        0 <= j < before.entries@.len() && (#[trigger] before.entries@[j]).0 == key;
                    assert(j >= i);
                    assert(before.keys()[i as int] < before.keys()[j]);
                }
                assert(before@ =~= before@.remove(key));
            }
            None
        }
    }
}

impl<V> View for IdMap<V> {
    type V = Map<u128, V>;

    closed spec fn view(&self) -> Map<u128, V> {
        Map::new(
            |k: u128| exists|i: int| 0 <= i < self.entries@.len() && (#[trigger] self.entries@[i]).0 == k,
            |k: u128| self.entries@[self.index_of(k)].1,
        )
    }
}

} // verus!
