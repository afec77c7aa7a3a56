//! A map from texts, walked in the order of its keys.

use vstd::prelude::*;
use crate::text::same_text;
use crate::types::TrackId;

verus! {

/// Lexicographic order of two texts, by character.
pub open spec fn text_less(a: Seq<char>, b: Seq<char>) -> bool
    decreases a.len(),
{
    if b.len() == 0 {
        false
    } else if a.len() == 0 {
        true
    } else if a[0] != b[0] {
        a[0] < b[0]
    } else {
        text_less(a.drop_first(), b.drop_first())
    }
}

/// No text stands before itself.
pub proof fn text_less_irreflexive(a: Seq<char>)
    ensures
        !text_less(a, a),
    decreases a.len(),
{
    if a.len() > 0 {
        text_less_irreflexive(a.drop_first());
    }
}

/// The order is transitive.
pub proof fn text_less_transitive(a: Seq<char>, b: Seq<char>, c: Seq<char>)
    requires
        text_less(a, b),
        text_less(b, c),
    ensures
        text_less(a, c),
    decreases a.len(),
{
    if a.len() > 0 && a[0] == b[0] && b[0] == c[0] {
        text_less_transitive(a.drop_first(), b.drop_first(), c.drop_first());
    }
}

/// Of two different texts one stands before the other.
pub proof fn text_less_total(a: Seq<char>, b: Seq<char>)
    ensures
        a == b || text_less(a, b) || text_less(b, a),
    decreases a.len(),
{
    if a.len() > 0 && b.len() > 0 && a[0] == b[0] {
        text_less_total(a.drop_first(), b.drop_first());
        if a.drop_first() == b.drop_first() {
            assert(a =~= seq![a[0]] + a.drop_first());
            assert(b =~= seq![b[0]] + b.drop_first());
        }
    } else if a.len() == 0 && b.len() == 0 {
        assert(a =~= b);
    }
}

/// Whether the first text stands before the second.
pub fn less_text(a: &str, b: &str) -> (r: bool)
    ensures
        r == text_less(a@, b@),
{
    let x = crate::text::chars_of(a);
    let y = crate::text::chars_of(b);
    let mut i: usize = 0;
    proof {
        assert(a@.skip(0) =~= a@);
        assert(b@.skip(0) =~= b@);
    }
    loop
        invariant
            x@ == a@,
            y@ == b@,
            i <= x@.len(),
            i <= y@.len(),
            text_less(a@, b@) == text_less(a@.skip(i as int), b@.skip(i as int)),
        decreases x@.len() - i,
    {
        let ghost s = a@.skip(i as int);
        let ghost t = b@.skip(i as int);
        if i >= y.len() {
            return false;
        }
        if i >= x.len() {
            return true;
        }
        if x[i] != y[i] {
            return x[i] < y[i];
        }
        proof {
            assert(s.drop_first() =~= a@.skip(i + 1));
            assert(t.drop_first() =~= b@.skip(i + 1));
        }
        i = i + 1;
    }
}

/// A map whose keys are texts. Its entries stand in the order of their keys.
pub struct StrMap<V> {
    entries: Vec<(String, V)>,
}

pub open spec fn sorted_keys(keys: Seq<Seq<char>>) -> bool {
    forall|i: int, j: int| 0 <= i < j < keys.len() ==> text_less(#[trigger] keys[i], #[trigger] keys[j])
}

impl<V> StrMap<V> {
    /// The keys in order.
    pub closed spec fn keys(&self) -> Seq<Seq<char>> {
        self.entries@.map_values(|e: (String, V)| e.0@)
    }

    /// The values in the order of their keys.
    pub closed spec fn values(&self) -> Seq<V> {
        self.entries@.map_values(|e: (String, V)| e.1)
    }

    #[verifier::type_invariant]
    pub closed spec fn wf(&self) -> bool {
        sorted_keys(self.keys())
    }

    closed spec fn index_of(&self, k: Seq<char>) -> int {
        choose|i: int| 0 <= i < self.entries@.len() && #[trigger] self.entries@[i].0@ == k
    }

    /// The keys stand in order and are those that the map holds; each value stands where its
    /// key does.
    pub proof fn keys_are_the_domain(&self)
        requires
            self.wf(),
        ensures
            sorted_keys(self.keys()),
            self.keys().no_duplicates(),
            self.keys().len() == self.values().len(),
            forall|k: Seq<char>| self@.dom().contains(k) <==> self.keys().contains(k),
            forall|i: int| 0 <= i < self.keys().len() ==> self@[#[trigger] self.keys()[i]] == self.values()[i],
    {
        self.lemma_lookup();
        assert forall|i: int, j: int| 0 <= i < self.keys().len() && 0 <= j < self.keys().len() && i != j
            implies self.keys()[i] != self.keys()[j] by {
            text_less_irreflexive(self.keys()[i]);
            if i < j {
                assert(text_less(self.keys()[i], self.keys()[j]));
            } else {
                assert(text_less(self.keys()[j], self.keys()[i]));
            }
        }
    }

    proof fn lemma_lookup(&self)
        requires
            self.wf(),
        ensures
            forall|i: int| #![trigger self.entries@[i]] 0 <= i < self.entries@.len() ==> self@.dom().contains(self.entries@[i].0@)
                && self@[self.entries@[i].0@] == self.entries@[i].1,
            forall|k: Seq<char>| #[trigger] self@.dom().contains(k) ==> exists|i: int| 0 <= i < self.entries@.len() && #[trigger] self.entries@[i].0@ == k,
            forall|i: int| 0 <= i < self.keys().len() ==> self@[#[trigger] self.keys()[i]] == self.values()[i],
            forall|k: Seq<char>| self@.dom().contains(k) <==> self.keys().contains(k),
    {
        let keys = self.keys();
        assert forall|i: int| #![trigger self.entries@[i]] 0 <= i < self.entries@.len() implies self@.dom().contains(self.entries@[i].0@)
            && self@[self.entries@[i].0@] == self.entries@[i].1 by {
            let k = self.entries@[i].0@;
            assert(self.entries@[i].0@ == k);
            let j = self.index_of(k);
            assert(0 <= j < self.entries@.len() && self.entries@[j].0@ == k);
            text_less_irreflexive(k);
            assert(keys[i] == k && keys[j] == k);
            if i < j {
                assert(text_less(keys[i], keys[j]));
            } else if j < i {
                assert(text_less(keys[j], keys[i]));
            }
        }
        assert forall|i: int| 0 <= i < self.keys().len() implies self@[#[trigger] self.keys()[i]] == self.values()[i] by {
            assert(self.entries@[i].0@ == self.keys()[i]);
        }
        assert forall|k: Seq<char>| self@.dom().contains(k) <==> self.keys().contains(k) by {
            if self@.dom().contains(k) {
                let i = choose|i: int| 0 <= i < self.entries@.len() && #[trigger] self.entries@[i].0@ == k;
                assert(keys[i] == k);
            }
            if keys.contains(k) {
                let i = choose|i: int| 0 <= i < keys.len() && keys[i] == k;
                assert(self.entries@[i].0@ == k);
            }
        }
    }

    pub fn new() -> (r: Self)
        ensures
            r@ == Map::<Seq<char>, V>::empty(),
            r.keys() == Seq::<Seq<char>>::empty(),
    {
        let r = StrMap { entries: Vec::new() };
        proof {
            assert(r@ =~= Map::<Seq<char>, V>::empty());
        }
        r
    }

    /// The first position whose key does not stand before `key`.
    fn position(&self, key: &str) -> (r: usize)
        requires
            self.wf(),
        ensures
            r <= self.entries@.len(),
            forall|i: int| 0 <= i < r ==> text_less(#[trigger] self.entries@[i].0@, key@),
            forall|i: int| r <= i < self.entries@.len() ==> !text_less(#[trigger] self.entries@[i].0@, key@),
    {
        let mut lo: usize = 0;
        let mut hi: usize = self.entries.len();
        while lo < hi
            invariant
                lo <= hi <= self.entries@.len(),
                self.wf(),
                forall|i: int| 0 <= i < lo ==> text_less(#[trigger] self.entries@[i].0@, key@),
                forall|i: int| hi <= i < self.entries@.len() ==> !text_less(#[trigger] self.entries@[i].0@, key@),
            decreases hi - lo,
        {
            let mid: usize = lo + (hi - lo) / 2;
            let ghost keys = self.keys();
            assert(keys[mid as int] == self.entries@[mid as int].0@);
            if less_text(&self.entries[mid].0, key) {
                assert forall|i: int| 0 <= i < mid + 1 implies text_less(#[trigger] self.entries@[i].0@, key@) by {
                    assert(keys[i] == self.entries@[i].0@);
                    if i < mid {
                        text_less_transitive(keys[i], keys[mid as int], key@);
                    }
                }
                lo = mid + 1;
            } else {
                assert forall|i: int| mid <= i < self.entries@.len() implies !text_less(#[trigger] self.entries@[i].0@, key@) by {
                    assert(keys[i] == self.entries@[i].0@);
                    if i > mid && text_less(keys[i], key@) {
                        text_less_transitive(keys[mid as int], keys[i], key@);
                    }
                }
                hi = mid;
            }
        }
        lo
    }

    pub fn len(&self) -> (r: usize)
        ensures
            r == self.keys().len(),
            r == self.values().len(),
    {
        self.entries.len()
    }

    /// The key at a position of the order.
    pub fn key_at(&self, i: usize) -> (r: &String)
        requires
            i < self.keys().len(),
        ensures
            r@ == self.keys()[i as int],
    {
        &self.entries[i].0
    }

    /// The value at a position of the order.
    pub fn value_at(&self, i: usize) -> (r: &V)
        requires
            i < self.keys().len(),
        ensures
            *r == self.values()[i as int],
    {
        &self.entries[i].1
    }

    pub fn get(&self, key: &str) -> (r: Option<&V>)
        ensures
            r is Some == self@.dom().contains(key@),
            r is Some ==> *r->0 == self@[key@],
    {
        proof {
            use_type_invariant(self);
            self.lemma_lookup();
        }
        let i: usize = self.position(key);
        if i < self.entries.len() && same_text(&self.entries[i].0, key) {
            return Some(&self.entries[i].1);
        }
        proof {
            if self@.dom().contains(key@) {
                let j = choose|j: int| 0 <= j < self.entries@.len() && #[trigger] self.entries@[j].0@ == key@;
                text_less_irreflexive(key@);
                assert(j >= i);
                assert(j != i);
                assert(text_less(self.keys()[i as int], self.keys()[j]));
                assert(!text_less(self.entries@[i as int].0@, key@));
            }
        }
        None
    }

    pub fn contains_key(&self, key: &str) -> (r: bool)
        ensures
            r == self@.dom().contains(key@),
    {
        self.get(key).is_some()
    }

    /// Sets the value of a key.
    pub fn insert(&mut self, key: String, value: V)
        ensures
            final(self)@ == old(self)@.insert(key@, value),
    {
        proof {
            use_type_invariant(&*self);
            self.lemma_lookup();
        }
        let i: usize = self.position(&key);
        let here: bool = i < self.entries.len() && same_text(&self.entries[i].0, &key);
        let ghost before = *self;
        let ghost k = key@;
        let mut e: Vec<(String, V)> = Vec::new();
        std::mem::swap(&mut e, &mut self.entries);
        if here {
            e.remove(i);
        }
        e.insert(i, (key, value));
        proof {
            let after = StrMap { entries: e };
            let ks = after.keys();
            let was = before.keys();
            text_less_irreflexive(k);
            assert forall|x: int, y: int| 0 <= x < y < ks.len() implies text_less(#[trigger] ks[x], #[trigger] ks[y]) by {
                let ox = if x < i { x } else if here { x } else { x - 1 };
                let oy = if y < i { y } else if here { y } else { y - 1 };
                assert(ks[x] == e@[x].0@ && ks[y] == e@[y].0@);
                if x < i && y == i {
                    assert(text_less(before.entries@[x].0@, k));
                } else if x == i {
                    assert(!text_less(before.entries@[oy].0@, k));
                    if here {
                        assert(text_less(was[i as int], was[oy]));
                    } else {
                        assert(was[oy] == before.entries@[oy].0@);
                        text_less_total(k, before.entries@[oy].0@);
                        if before.entries@[oy].0@ == k {
                            if oy > i {
                                assert(text_less(was[i as int], was[oy]));
                                assert(!text_less(before.entries@[i as int].0@, k));
                            }
                        }
                    }
                } else {
                    assert(text_less(was[ox], was[oy]));
                }
            }
            assert(after.wf());
            after.lemma_lookup();
            let m = before@.insert(k, value);
            assert forall|q: Seq<char>| after@.dom().contains(q) <==> m.dom().contains(q) by {
                if after@.dom().contains(q) {
                    let x = choose|x: int| 0 <= x < e@.len() && #[trigger] e@[x].0@ == q;
                    if x < i {
                        assert(before.entries@[x].0@ == q);
                    } else if x > i {
                        let ox = if here { x } else { x - 1 };
                        assert(before.entries@[ox].0@ == q);
                    }
                }
                if m.dom().contains(q) {
                    if q == k {
                        assert(e@[i as int].0@ == q);
                    } else {
                        let x = choose|x: int| 0 <= x < before.entries@.len() && #[trigger] before.entries@[x].0@ == q;
                        let nx = if x < i { x } else if here { x } else { x + 1 };
                        assert(e@[nx].0@ == q);
                    }
                }
            }
            assert forall|q: Seq<char>| after@.dom().contains(q) implies after@[q] == m[q] by {
                let x = choose|x: int| 0 <= x < e@.len() && #[trigger] e@[x].0@ == q;
                assert(after@[q] == e@[x].1);
                if x < i {
                    assert(before.entries@[x].0@ == q);
                    assert(text_less(before.entries@[x].0@, k));
                } else if x > i {
                    let ox = if here { x } else { x - 1 };
                    assert(before.entries@[ox].0@ == q);
                    assert(text_less(ks[i as int], ks[x]));
                }
            }
            assert(after@ =~= m);
        }
        self.entries = e;
    }

    /// Takes a key and its value out.
    pub fn remove(&mut self, key: &str)
        ensures
            final(self)@ == old(self)@.remove(key@),
    {
        let _ = self.take(key);
    }

    /// Takes a key and its value out, and returns the value.
    pub fn take(&mut self, key: &str) -> (r: Option<V>)
        ensures
            final(self)@ == old(self)@.remove(key@),
            r == (if old(self)@.dom().contains(key@) {
                Some(old(self)@[key@])
            } else {
                None
            }),
    {
        proof {
            use_type_invariant(&*self);
            self.lemma_lookup();
        }
        let i: usize = self.position(key);
        let ghost before = *self;
        if i < self.entries.len() && same_text(&self.entries[i].0, key) {
            let mut e: Vec<(String, V)> = Vec::new();
            std::mem::swap(&mut e, &mut self.entries);
            let gone = e.remove(i);
            proof {
                let after = StrMap { entries: e };
                let ks = after.keys();
                let was = before.keys();
                text_less_irreflexive(key@);
                assert forall|x: int, y: int| 0 <= x < y < ks.len() implies text_less(#[trigger] ks[x], #[trigger] ks[y]) by {
                    let ox = if x < i { x } else { x + 1 };
                    let oy = if y < i { y } else { y + 1 };
                    assert(ks[x] == was[ox] && ks[y] == was[oy]);
                }
                assert(after.wf());
                after.lemma_lookup();
                let m = before@.remove(key@);
                assert forall|q: Seq<char>| after@.dom().contains(q) <==> m.dom().contains(q) by {
                    if after@.dom().contains(q) {
                        let x = choose|x: int| 0 <= x < e@.len() && #[trigger] e@[x].0@ == q;
                        let ox = if x < i { x } else { x + 1 };
                        assert(before.entries@[ox].0@ == q);
                        if x < i {
                            assert(text_less(was[x], was[i as int]));
                        } else {
                            assert(text_less(was[i as int], was[ox]));
                        }
                    }
                    if m.dom().contains(q) {
                        let x = choose|x: int| 0 <= x < before.entries@.len() && #[trigger] before.entries@[x].0@ == q;
                        let nx = if x < i { x } else { x - 1 };
                        assert(e@[nx].0@ == q);
                    }
                }
                assert forall|q: Seq<char>| after@.dom().contains(q) implies after@[q] == m[q] by {
                    let x = choose|x: int| 0 <= x < e@.len() && #[trigger] e@[x].0@ == q;
                    let ox = if x < i { x } else { x + 1 };
                    assert(after@[q] == e@[x].1);
                    assert(before.entries@[ox].0@ == q);
                    assert(m.dom().contains(q));
                }
                assert(after@ =~= m);
            }
            self.entries = e;
            Some(gone.1)
        } else {
            proof {
                if before@.dom().contains(key@) {
                    let j = choose|j: int| 0 <= j < before.entries@.len() && #[trigger] before.entries@[j].0@ == key@;
                    text_less_irreflexive(key@);
                    assert(j >= i);
                    assert(j != i);
                    assert(text_less(before.keys()[i as int], before.keys()[j]));
                    assert(!text_less(before.entries@[i as int].0@, key@));
                }
                assert(before@ =~= before@.remove(key@));
            }
            None
        }
    }
}

impl StrMap<String> {
    pub fn duplicate(&self) -> (r: Self)
        ensures
            r@ == self@,
    {
        proof {
            use_type_invariant(self);
        }
        let mut e: Vec<(String, String)> = Vec::new();
        let mut i: usize = 0;
        while i < self.entries.len()
            invariant
                i <= self.entries@.len(),
                e@ == self.entries@.take(i as int),
            decreases self.entries@.len() - i,
        {
            let k = self.entries[i].0.clone();
            let v = self.entries[i].1.clone();
            assert((k, v) == self.entries@[i as int]);
            e.push((k, v));
            i = i + 1;
        }
        assert(e@ =~= self.entries@);
        let r = StrMap { entries: e };
        proof {
            self.lemma_lookup();
            r.lemma_lookup();
            assert(r@.dom() =~= self@.dom());
            assert forall|q: Seq<char>| r@.dom().contains(q) implies r@[q] == self@[q] by {
                let x = choose|x: int| 0 <= x < e@.len() && #[trigger] e@[x].0@ == q;
                assert(r@[q] == e@[x].1);
                assert(self@[q] == self.entries@[x].1);
            }
            assert(r@ =~= self@);
        }
        r
    }
}

/// The map without the keys that have the value `id`.
pub open spec fn without_value(m: Map<Seq<char>, TrackId>, id: TrackId) -> Map<Seq<char>, TrackId> {
    Map::new(|k: Seq<char>| m.dom().contains(k) && m[k] != id, |k: Seq<char>| m[k])
}

impl StrMap<TrackId> {
    /// Takes every key with the value `id` out.
    pub fn drop_value(&mut self, id: TrackId)
        ensures
            final(self)@ == without_value(old(self)@, id),
    {
        proof {
            use_type_invariant(&*self);
            self.lemma_lookup();
        }
        let ghost before = *self;
        let ghost was = before.entries@;
        let mut e: Vec<(String, TrackId)> = Vec::new();
        let ghost mut from = Seq::<int>::empty();
        let mut i: usize = 0;
        while i < self.entries.len()
            invariant
                *self == before,
                was == before.entries@,
                before.wf(),
                i <= was.len(),
                from.len() == e@.len(),
                forall|x: int| 0 <= x < from.len() ==> 0 <= #[trigger] from[x] < i && e@[x] == was[from[x]] && was[from[x]].1 != id,
                forall|x: int, y: int| 0 <= x < y < from.len() ==> (#[trigger] from[x]) < (#[trigger] from[y]),
                forall|j: int| 0 <= j < i && (#[trigger] was[j]).1 != id ==> from.contains(j),
            decreases was.len() - i,
        {
            if self.entries[i].1 != id {
                let k = self.entries[i].0.clone();
                e.push((k, self.entries[i].1));
                proof {
                    let f = from.push(i as int);
                    assert forall|j: int| 0 <= j < i + 1 && (#[trigger] was[j]).1 != id implies f.contains(j) by {
                        if j < i {
                            let x = choose|x: int| 0 <= x < from.len() && from[x] == j;
                            assert(f[x] == j);
                        } else {
                            assert(f[from.len() as int] == j);
                        }
                    }
                    from = f;
                }
            }
            i = i + 1;
        }
        proof {
            let after = StrMap { entries: e };
            let ks = after.keys();
            assert forall|x: int, y: int| 0 <= x < y < ks.len() implies text_less(#[trigger] ks[x], #[trigger] ks[y]) by {
                assert(from[x] < from[y]);
                assert(ks[x] == before.keys()[from[x]]);
                assert(ks[y] == before.keys()[from[y]]);
            }
            assert(after.wf());
            after.lemma_lookup();
            let m = without_value(before@, id);
            assert forall|q: Seq<char>| after@.dom().contains(q) <==> m.dom().contains(q) by {
                if after@.dom().contains(q) {
                    let x = choose|x: int| 0 <= x < e@.len() && #[trigger] e@[x].0@ == q;
                    assert(was[from[x]].0@ == q);
                }
                if m.dom().contains(q) {
                    let j = choose|j: int| 0 <= j < was.len() && #[trigger] was[j].0@ == q;
                    assert(was[j].1 != id);
                    let x = choose|x: int| 0 <= x < from.len() && from[x] == j;
                    assert(e@[x].0@ == q);
                }
            }
            assert forall|q: Seq<char>| after@.dom().contains(q) implies after@[q] == m[q] by {
                let x = choose|x: int| 0 <= x < e@.len() && #[trigger] e@[x].0@ == q;
                assert(after@[q] == e@[x].1);
                assert(was[from[x]].0@ == q);
                assert(m.dom().contains(q));
            }
            assert(after@ =~= m);
        }
        self.entries = e;
    }
}

impl<V> View for StrMap<V> {
    type V = Map<Seq<char>, V>;

    closed spec fn view(&self) -> Map<Seq<char>, V> {
        Map::new(
            |k: Seq<char>| exists|i: int| 0 <= i < self.entries@.len() && #[trigger] self.entries@[i].0@ == k,
            |k: Seq<char>| self.entries@[self.index_of(k)].1,
        )
    }
}

} // verus!
