//! The table of keys and what each stands for.

use vstd::prelude::*;
use crate::actions::{action_id, action_ids_are_distinct, action_of_key, default_key_of, BuiltinAction};
use crate::ids::{uuid_from_text, uuid_round_trip, uuid_text, uuid_to_text, uuid_value};
use crate::queue::bumped;
use crate::text::{
    chars_of, lemma_split_once, lemma_strip_other, lemma_strip_own, split_once, split_once_of, string_of,
    strip_prefix, stripped,
};
use crate::traits::BrowseNode;
use crate::types::{PlaylistId, SourceId};

verus! {

/// What a key stands for: a playlist of the library, a playlist of a source, or an action.
#[derive(Debug)]
pub enum HotkeyTarget {
    Local(PlaylistId),
    Remote(SourceId, BrowseNode),
    Builtin(BuiltinAction),
}

pub enum HotkeyView {
    Local(PlaylistId),
    Remote(Seq<char>, Option<Seq<char>>),
    Builtin(BuiltinAction),
}

impl View for HotkeyTarget {
    type V = HotkeyView;

    open spec fn view(&self) -> HotkeyView {
        match self {
            HotkeyTarget::Local(id) => HotkeyView::Local(*id),
            HotkeyTarget::Remote(s, n) => HotkeyView::Remote(s@, n@),
            HotkeyTarget::Builtin(a) => HotkeyView::Builtin(*a),
        }
    }
}

impl Clone for HotkeyTarget {
    fn clone(&self) -> (r: HotkeyTarget)
        ensures
            r@ == self@,
    {
        match self {
            HotkeyTarget::Local(id) => HotkeyTarget::Local(*id),
            HotkeyTarget::Remote(s, n) => HotkeyTarget::Remote(s.clone(), n.clone()),
            HotkeyTarget::Builtin(a) => HotkeyTarget::Builtin(*a),
        }
    }
}

pub open spec fn opt_target(t: Option<HotkeyTarget>) -> Option<HotkeyView> {
    match t {
        Some(t) => Some(t@),
        None => None,
    }
}

/// The text by which a target is stored.
pub open spec fn target_text(t: HotkeyView) -> Seq<char> {
    match t {
        HotkeyView::Local(id) => "local:"@ + uuid_text(id.0),
        HotkeyView::Remote(s, n) => "remote:"@ + (s + seq![':'] + (match n {
            Some(p) => p,
            None => seq![],
        })),
        HotkeyView::Builtin(a) => "builtin:"@ + action_id(a),
    }
}

/// The target that a stored text names.
pub open spec fn target_named(s: Seq<char>, t: HotkeyView) -> bool {
    match stripped(s, "local:"@) {
        Some(rest) => match uuid_value(rest) {
            Some(id) => t == HotkeyView::Local(PlaylistId(id)),
            None => false,
        },
        None => match stripped(s, "builtin:"@) {
            Some(rest) => t is Builtin && action_id(t->Builtin_0) == rest,
            None => match stripped(s, "remote:"@) {
                Some(rest) => match split_once_of(rest, ':') {
                    Some((source, node)) => t == HotkeyView::Remote(
                        source,
                        if node.len() == 0 {
                            None
                        } else {
                            Some(node)
                        },
                    ),
                    None => false,
                },
                None => false,
            },
        },
    }
}

/// A source name without a colon and a path that is not empty can be stored.
pub open spec fn storable_target(t: HotkeyView) -> bool {
    match t {
        HotkeyView::Remote(s, n) => !s.contains(':') && (n matches Some(p) ==> p.len() > 0),
        _ => true,
    }
}

impl HotkeyTarget {
    pub fn same(&self, other: &HotkeyTarget) -> (r: bool)
        ensures
            r == (self@ == other@),
    {
        match (self, other) {
            (HotkeyTarget::Local(a), HotkeyTarget::Local(b)) => *a == *b,
            (HotkeyTarget::Remote(s, n), HotkeyTarget::Remote(t, m)) => s.same(t) && n.same(m),
            (HotkeyTarget::Builtin(a), HotkeyTarget::Builtin(b)) => *a == *b,
            _ => false,
        }
    }

    pub fn is_builtin(&self) -> (r: bool)
        ensures
            r == (self@ is Builtin),
    {
        match self {
            HotkeyTarget::Builtin(_) => true,
            _ => false,
        }
    }

    /// The text by which this target is stored.
    pub fn to_text(&self) -> (r: String)
        ensures
            r@ == target_text(self@),
    {
        match self {
            HotkeyTarget::Local(id) => {
                let mut s = "local:".to_owned();
                s.append(&uuid_to_text(id.0));
                s
            },
            HotkeyTarget::Remote(source, node) => {
                let mut s = "remote:".to_owned();
                s.append(source.as_str());
                s.push(':');
                match node {
                    BrowseNode::Root => {},
                    BrowseNode::Path(p) => {
                        s.append(p);
                    },
                }
                assert(s@ =~= target_text(self@));
                s
            },
            HotkeyTarget::Builtin(a) => {
                let mut s = "builtin:".to_owned();
                s.append(a.id());
                s
            },
        }
    }

    /// The target that a stored text names.
    pub fn from_text(s: &str) -> (r: Option<HotkeyTarget>)
        ensures
            match r {
                Some(t) => target_named(s@, t@),
                None => forall|t: HotkeyView| !target_named(s@, t),
            },
    {
        let v = chars_of(s);
        if let Some(rest) = strip_prefix(&v, "local:") {
            let rest = string_of(&rest);
            return match uuid_from_text(&rest) {
                Some(id) => Some(HotkeyTarget::Local(PlaylistId(id))),
                None => None,
            };
        }
        if let Some(rest) = strip_prefix(&v, "builtin:") {
            let rest = string_of(&rest);
            return match BuiltinAction::from_id(&rest) {
                Some(a) => Some(HotkeyTarget::Builtin(a)),
                None => None,
            };
        }
        if let Some(rest) = strip_prefix(&v, "remote:") {
            if let Some((source, node)) = split_once(&rest, ':') {
                let path = string_of(&node);
                let node = if node.len() == 0 {
                    BrowseNode::Root
                } else {
                    BrowseNode::Path(path)
                };
                return Some(HotkeyTarget::Remote(SourceId::new(&string_of(&source)), node));
            }
        }
        None
    }
}

/// A stored text names at most one target.
pub proof fn target_text_names_one(s: Seq<char>, t: HotkeyView, u: HotkeyView)
    requires
        target_named(s, t),
        target_named(s, u),
    ensures
        t == u,
{
    if stripped(s, "local:"@) is None && stripped(s, "builtin:"@) is Some {
        action_ids_are_distinct(t->Builtin_0, u->Builtin_0);
    }
}

/// What was stored of a target names it again.
pub proof fn target_text_round_trip(t: HotkeyView)
    requires
        storable_target(t),
    ensures
        target_named(target_text(t), t),
{
    reveal_strlit("local:");
    reveal_strlit("remote:");
    reveal_strlit("builtin:");
    match t {
        HotkeyView::Local(id) => {
            lemma_strip_own("local:"@, uuid_text(id.0));
            uuid_round_trip(id.0);
        },
        HotkeyView::Builtin(a) => {
            lemma_strip_other("builtin:"@, action_id(a), "local:"@, 0);
            lemma_strip_own("builtin:"@, action_id(a));
        },
        HotkeyView::Remote(source, n) => {
            let node = match n {
                Some(p) => p,
                None => seq![],
            };
            let rest = source + seq![':'] + node;
            lemma_strip_other("remote:"@, rest, "local:"@, 0);
            lemma_strip_other("remote:"@, rest, "builtin:"@, 0);
            lemma_strip_own("remote:"@, rest);
            lemma_split_once(source, ':', node);
        },
    }
}

/// Whether an action was moved to a key of its own.
pub open spec fn remapped(m: Map<char, HotkeyView>, a: BuiltinAction) -> bool {
    exists|k: char| #[trigger] m.dom().contains(k) && m[k] == HotkeyView::Builtin(a)
}

/// The action whose default a key is, unless it was moved elsewhere.
pub open spec fn defaulting_to(m: Map<char, HotkeyView>, key: char) -> Option<BuiltinAction> {
    match action_of_key(key) {
        Some(a) => if remapped(m, a) {
            None
        } else {
            Some(a)
        },
        None => None,
    }
}

/// What answers to a key.
pub open spec fn effective_target(m: Map<char, HotkeyView>, key: char) -> Option<HotkeyView> {
    if m.dom().contains(key) {
        Some(m[key])
    } else {
        match defaulting_to(m, key) {
            Some(a) => Some(HotkeyView::Builtin(a)),
            None => None,
        }
    }
}

/// The entries of a table that a condition picks.
pub open spec fn picked(m: Map<char, HotkeyView>, keep: spec_fn(char, HotkeyView) -> bool) -> Map<char, HotkeyView> {
    Map::new(|k: char| m.dom().contains(k) && keep(k, m[k]), |k: char| m[k])
}

pub open spec fn other_than(t: HotkeyView) -> spec_fn(char, HotkeyView) -> bool {
    |k: char, u: HotkeyView| u != t
}

/// Picks the entries that hide no action.
pub open spec fn hides_nothing(m: Map<char, HotkeyView>) -> spec_fn(char, HotkeyView) -> bool {
    |k: char, u: HotkeyView| u is Builtin || defaulting_to(m, k) is None
}

/// Picks the entries whose targets are not in a row.
pub open spec fn not_among(row: Seq<HotkeyView>) -> spec_fn(char, HotkeyView) -> bool {
    |k: char, u: HotkeyView| !row.contains(u)
}

/// The table after a target was bound to a key.
pub open spec fn bound(m: Map<char, HotkeyView>, key: char, t: HotkeyView) -> Map<char, HotkeyView> {
    picked(m, other_than(t)).insert(key, t)
}

/// Whether another action holds a key.
pub open spec fn held_by_action(m: Map<char, HotkeyView>, key: char, t: HotkeyView) -> bool {
    effective_target(m, key) matches Some(o) && o != t && o is Builtin
}

/// The keys of the entries are distinct.
spec fn distinct_keys(v: Seq<(char, HotkeyTarget)>) -> bool {
    forall|i: int, j: int| 0 <= i < j < v.len() ==> (#[trigger] v[i]).0 != (#[trigger] v[j]).0
}

spec fn has_key(v: Seq<(char, HotkeyTarget)>, k: char) -> bool {
    exists|i: int| 0 <= i < v.len() && (#[trigger] v[i]).0 == k
}

spec fn index_of(v: Seq<(char, HotkeyTarget)>, k: char) -> int {
    choose|i: int| 0 <= i < v.len() && (#[trigger] v[i]).0 == k
}

spec fn table(v: Seq<(char, HotkeyTarget)>) -> Map<char, HotkeyView> {
    Map::new(|k: char| has_key(v, k), |k: char| v[index_of(v, k)].1@)
}

proof fn lemma_entry(v: Seq<(char, HotkeyTarget)>, i: int)
    requires
        distinct_keys(v),
        0 <= i < v.len(),
    ensures
        table(v).dom().contains(v[i].0),
        table(v)[v[i].0] == v[i].1@,
        index_of(v, v[i].0) == i,
{
    assert(has_key(v, v[i].0));
    let j = index_of(v, v[i].0);
    assert(v[j].0 == v[i].0);
}

/// The entries whose flags are set.
fn flagged(v: &Vec<(char, HotkeyTarget)>, flags: &Vec<bool>, Ghost(keep): Ghost<spec_fn(char, HotkeyView) -> bool>) -> (r: Vec<(char, HotkeyTarget)>)
    requires
        distinct_keys(v@),
        flags@.len() == v@.len(),
        forall|i: int| 0 <= i < v@.len() ==> #[trigger] flags@[i] == keep(v@[i].0, v@[i].1@),
    ensures
        distinct_keys(r@),
        table(r@) == picked(table(v@), keep),
        r@.len() <= v@.len(),
        r@.len() == v@.len() <==> forall|i: int| 0 <= i < v@.len() ==> #[trigger] flags@[i],
{
    let mut out: Vec<(char, HotkeyTarget)> = Vec::new();
    let ghost mut from: Seq<int> = seq![];
    let mut i: usize = 0;
    while i < v.len()
        invariant
            i <= v@.len(),
            flags@.len() == v@.len(),
            from.len() == out@.len(),
            out@.len() <= i,
            out@.len() == i <==> forall|j: int| 0 <= j < i ==> #[trigger] flags@[j],
            forall|x: int|
                0 <= x < from.len() ==> 0 <= #[trigger] from[x] < i && flags@[from[x]] && out@[x].0
                    == v@[from[x]].0 && out@[x].1@ == v@[from[x]].1@,
            forall|x: int, y: int| 0 <= x < y < from.len() ==> (#[trigger] from[x]) < (#[trigger] from[y]),
            forall|j: int| 0 <= j < i && #[trigger] flags@[j] ==> from.contains(j),
        decreases v@.len() - i,
    {
        if flags[i] {
            let ghost was = from;
            out.push((v[i].0, v[i].1.clone()));
            proof {
                from = from.push(i as int);
                assert forall|j: int| 0 <= j < i + 1 && #[trigger] flags@[j] implies from.contains(j) by {
                    if j == i {
                        assert(from[was.len() as int] == j);
                    } else {
                        let x = choose|x: int| 0 <= x < was.len() && was[x] == j;
                        assert(from[x] == j);
                    }
                }
            }
        }
        i = i + 1;
    }
    proof {
        assert forall|x: int, y: int| 0 <= x < y < out@.len() implies (#[trigger] out@[x]).0 != (
        #[trigger] out@[y]).0 by {
            assert(from[x] < from[y]);
            assert(v@[from[x]].0 != v@[from[y]].0);
        }
        let want = picked(table(v@), keep);
        assert forall|k: char| table(out@).dom().contains(k) <==> want.dom().contains(k) by {
            if has_key(out@, k) {
                let x = index_of(out@, k);
                lemma_entry(v@, from[x]);
            }
            if want.dom().contains(k) {
                let j = index_of(v@, k);
                lemma_entry(v@, j);
                assert(flags@[j]);
                let x = choose|x: int| 0 <= x < from.len() && from[x] == j;
                assert(out@[x].0 == k);
            }
        }
        assert forall|k: char| table(out@).dom().contains(k) implies table(out@)[k] == want[k] by {
            let x = index_of(out@, k);
            lemma_entry(v@, from[x]);
        }
        assert(table(out@) =~= want);
    }
    out
}

/// The keys and what each stands for, with a count of the changes.
pub struct Hotkeys {
    entries: Vec<(char, HotkeyTarget)>,
    generation: u64,
}

impl View for Hotkeys {
    type V = Map<char, HotkeyView>;

    closed spec fn view(&self) -> Map<char, HotkeyView> {
        table(self.entries@)
    }
}

impl Hotkeys {
    #[verifier::type_invariant]
    spec fn wf(self) -> bool {
        distinct_keys(self.entries@)
    }

    pub closed spec fn changes(&self) -> u64 {
        self.generation
    }

    pub fn new() -> (r: Hotkeys)
        ensures
            r@ == Map::<char, HotkeyView>::empty(),
            r.changes() == 0,
    {
        let r = Hotkeys { entries: Vec::new(), generation: 0 };
        assert(r@ =~= Map::<char, HotkeyView>::empty());
        r
    }

    /// How often the table has changed.
    pub fn generation(&self) -> (r: u64)
        ensures
            r == self.changes(),
    {
        self.generation
    }

    /// The keys and what each stands for, in no order.
    pub fn list(&self) -> (r: Vec<(char, HotkeyTarget)>)
        ensures
            forall|i: int|
                0 <= i < r@.len() ==> self@.dom().contains((#[trigger] r@[i]).0) && self@[r@[i].0]
                    == r@[i].1@,
            forall|k: char|
                self@.dom().contains(k) ==> exists|i: int| 0 <= i < r@.len() && (#[trigger] r@[i]).0 == k,
            forall|i: int, j: int| 0 <= i < j < r@.len() ==> (#[trigger] r@[i]).0 != (#[trigger] r@[j]).0,
    {
        proof {
            use_type_invariant(self);
        }
        let mut out: Vec<(char, HotkeyTarget)> = Vec::new();
        let mut i: usize = 0;
        while i < self.entries.len()
            invariant
                i <= self.entries@.len(),
                out@.len() == i,
                forall|j: int|
                    0 <= j < i ==> (#[trigger] out@[j]).0 == self.entries@[j].0 && out@[j].1@
                        == self.entries@[j].1@,
            decreases self.entries@.len() - i,
        {
            out.push((self.entries[i].0, self.entries[i].1.clone()));
            i = i + 1;
        }
        proof {
            assert forall|j: int| 0 <= j < out@.len() implies self@.dom().contains((#[trigger] out@[j]).0)
                && self@[out@[j].0] == out@[j].1@ by {
                lemma_entry(self.entries@, j);
            }
            assert forall|k: char| self@.dom().contains(k) implies exists|i: int|
                0 <= i < out@.len() && (#[trigger] out@[i]).0 == k by {
                assert(out@[index_of(self.entries@, k)].0 == k);
            }
        }
        out
    }

    /// What a key stands for by the table.
    pub fn get(&self, key: char) -> (r: Option<HotkeyTarget>)
        ensures
            opt_target(r) == (if self@.dom().contains(key) {
                Some(self@[key])
            } else {
                None
            }),
    {
        proof {
            use_type_invariant(self);
        }
        let mut i: usize = 0;
        while i < self.entries.len()
            invariant
                i <= self.entries@.len(),
                distinct_keys(self.entries@),
                forall|j: int| 0 <= j < i ==> (#[trigger] self.entries@[j]).0 != key,
            decreases self.entries@.len() - i,
        {
            if self.entries[i].0 == key {
                proof {
                    lemma_entry(self.entries@, i as int);
                }
                return Some(self.entries[i].1.clone());
            }
            i = i + 1;
        }
        None
    }

    /// A key that stands for a target by the table.
    pub fn key_of(&self, target: &HotkeyTarget) -> (r: Option<char>)
        ensures
            match r {
                Some(k) => self@.dom().contains(k) && self@[k] == target@,
                None => forall|k: char| #[trigger] self@.dom().contains(k) ==> self@[k] != target@,
            },
    {
        proof {
            use_type_invariant(self);
        }
        let mut i: usize = 0;
        while i < self.entries.len()
            invariant
                i <= self.entries@.len(),
                distinct_keys(self.entries@),
                forall|j: int| 0 <= j < i ==> (#[trigger] self.entries@[j]).1@ != target@,
            decreases self.entries@.len() - i,
        {
            if self.entries[i].1.same(target) {
                proof {
                    lemma_entry(self.entries@, i as int);
                }
                return Some(self.entries[i].0);
            }
            i = i + 1;
        }
        None
    }

    /// A key that gives a target now: one of the table, or the default of an action.
    pub fn effective_key(&self, target: &HotkeyTarget) -> (r: Option<char>)
        ensures
            match r {
                Some(k) => (self@.dom().contains(k) && self@[k] == target@) || (target@ is Builtin && !remapped(
                    self@,
                    target@->Builtin_0,
                ) && default_key_of(target@->Builtin_0) == Some(k)),
                None => (forall|k: char| #[trigger] self@.dom().contains(k) ==> self@[k] != target@) && (
                target@ is Builtin ==> default_key_of(target@->Builtin_0) is None),
            },
    {
        match self.key_of(target) {
            Some(k) => Some(k),
            None => match target {
                HotkeyTarget::Builtin(a) => a.default_key(),
                _ => None,
            },
        }
    }

    /// The action whose default a key is, unless it was moved elsewhere.
    fn defaulting(&self, key: char) -> (r: Option<BuiltinAction>)
        ensures
            r == defaulting_to(self@, key),
    {
        match BuiltinAction::of_key(key) {
            None => None,
            Some(a) => match self.key_of(&HotkeyTarget::Builtin(a)) {
                Some(k) => {
                    assert(self@.dom().contains(k) && self@[k] == HotkeyView::Builtin(a));
                    None
                },
                None => Some(a),
            },
        }
    }

    /// What answers to a key: its entry, or the action that it gives by default.
    pub fn target_at(&self, key: char) -> (r: Option<HotkeyTarget>)
        ensures
            opt_target(r) == effective_target(self@, key),
    {
        match self.get(key) {
            Some(t) => Some(t),
            None => match self.defaulting(key) {
                Some(a) => Some(HotkeyTarget::Builtin(a)),
                None => None,
            },
        }
    }

    /// Binds a key. The target loses the key it had, and what held the key loses it and is
    /// returned. A key that an action holds is refused, with that action.
    pub fn bind(&mut self, key: char, target: HotkeyTarget) -> (r: Result<Option<HotkeyTarget>, HotkeyTarget>)
        ensures
            r is Err <==> held_by_action(old(self)@, key, target@),
            match r {
                Err(o) => Some(o@) == effective_target(old(self)@, key) && *final(self) == *old(self),
                Ok(stolen) => {
                    &&& final(self)@ == bound(old(self)@, key, target@)
                    &&& final(self).changes() == bumped(old(self).changes())
                    &&& opt_target(stolen) == (if old(self)@.dom().contains(key) && old(self)@[key]
                        != target@ {
                        Some(old(self)@[key])
                    } else {
                        None
                    })
                },
            },
    {
        proof {
            use_type_invariant(&*self);
        }
        if let Some(o) = self.target_at(key) {
            if !o.same(&target) && o.is_builtin() {
                return Err(o);
            }
        }
        let stolen = match self.get(key) {
            Some(t) => if t.same(&target) {
                None
            } else {
                Some(t)
            },
            None => None,
        };
        let ghost keep = |k: char, u: HotkeyView| u != target@ && k != key;
        let mut flags: Vec<bool> = Vec::new();
        let mut i: usize = 0;
        while i < self.entries.len()
            invariant
                i <= self.entries@.len(),
                flags@.len() == i,
                keep == (|k: char, u: HotkeyView| u != target@ && k != key),
                forall|j: int|
                    0 <= j < i ==> #[trigger] flags@[j] == keep(self.entries@[j].0, self.entries@[j].1@),
            decreases self.entries@.len() - i,
        {
            let f: bool = !self.entries[i].1.same(&target) && self.entries[i].0 != key;
            flags.push(f);
            i = i + 1;
        }
        let mut left = flagged(&self.entries, &flags, Ghost(keep));
        let ghost before = left@;
        assert(!has_key(before, key)) by {
            if has_key(before, key) {
                assert(table(before).dom().contains(key));
            }
        }
        left.push((key, target));
        proof {
            assert(distinct_keys(left@)) by {
                assert forall|x: int, y: int| 0 <= x < y < left@.len() implies (#[trigger] left@[x]).0 != (
                #[trigger] left@[y]).0 by {
                    if y == before.len() {
                        assert(left@[x] == before[x]);
                    } else {
                        assert(left@[x] == before[x] && left@[y] == before[y]);
                    }
                }
            }
            lemma_push(before, key, target);
            assert(table(left@) =~= bound(old(self)@, key, target@));
        }
        self.entries = left;
        self.generation = self.generation.wrapping_add(1);
        Ok(stolen)
    }

    /// Drops every entry of a target; says whether there was one.
    pub fn unbind(&mut self, target: &HotkeyTarget) -> (r: bool)
        ensures
            final(self)@ == picked(old(self)@, other_than(target@)),
            r <==> exists|k: char| #[trigger] old(self)@.dom().contains(k) && old(self)@[k] == target@,
            final(self).changes() == (if r {
                bumped(old(self).changes())
            } else {
                old(self).changes()
            }),
    {
        let mut row: Vec<HotkeyTarget> = Vec::new();
        row.push(target.clone());
        let ghost views = Seq::new(row@.len(), |i: int| row@[i]@);
        assert(views[0] == target@);
        assert forall|u: HotkeyView| views.contains(u) <==> u == target@ by {
            if u == target@ {
                assert(views[0] == u);
            }
        }
        let r = self.drop_targets(&row);
        assert(self@ =~= picked(old(self)@, other_than(target@)));
        r
    }

    /// Drops every entry whose target is in a row; says whether there was one.
    pub fn drop_targets(&mut self, row: &Vec<HotkeyTarget>) -> (r: bool)
        ensures
            ({
                let views = Seq::new(row@.len(), |i: int| row@[i]@);
                &&& final(self)@ == picked(old(self)@, not_among(views))
                &&& r <==> exists|k: char| #[trigger] old(self)@.dom().contains(k) && views.contains(
                    old(self)@[k],
                )
            }),
            final(self).changes() == (if r {
                bumped(old(self).changes())
            } else {
                old(self).changes()
            }),
    {
        proof {
            use_type_invariant(&*self);
        }
        let ghost views = Seq::new(row@.len(), |i: int| row@[i]@);
        let ghost keep = not_among(views);
        let mut flags: Vec<bool> = Vec::new();
        let mut i: usize = 0;
        while i < self.entries.len()
            invariant
                i <= self.entries@.len(),
                flags@.len() == i,
                views == Seq::new(row@.len(), |i: int| row@[i]@),
                keep == not_among(views),
                forall|j: int|
                    0 <= j < i ==> #[trigger] flags@[j] == keep(self.entries@[j].0, self.entries@[j].1@),
            decreases self.entries@.len() - i,
        {
            let mut found: bool = false;
            let mut k: usize = 0;
            while k < row.len()
                invariant
                    i < self.entries@.len(),
                    k <= row@.len(),
                    views == Seq::new(row@.len(), |i: int| row@[i]@),
                    found == exists|x: int| 0 <= x < k && #[trigger] views[x] == self.entries@[i as int].1@,
                decreases row@.len() - k,
            {
                assert(views[k as int] == row@[k as int]@);
                if row[k].same(&self.entries[i].1) {
                    found = true;
                }
                k = k + 1;
            }
            assert(found == views.contains(self.entries@[i as int].1@));
            flags.push(!found);
            i = i + 1;
        }
        let left = flagged(&self.entries, &flags, Ghost(keep));
        let changed: bool = left.len() != self.entries.len();
        proof {
            if changed {
                let j = choose|j: int| 0 <= j < flags@.len() && !#[trigger] flags@[j];
                lemma_entry(self.entries@, j);
            }
            if exists|k: char| #[trigger] self@.dom().contains(k) && views.contains(self@[k]) {
                let k = choose|k: char| #[trigger] self@.dom().contains(k) && views.contains(self@[k]);
                let j = index_of(self.entries@, k);
                assert(!flags@[j]);
            }
        }
        self.entries = left;
        if changed {
            self.generation = self.generation.wrapping_add(1);
        }
        changed
    }

    /// Takes a whole table over, without the playlists that would hide an action; returns those,
    /// each with its action.
    pub fn replace(&mut self, entries: &Vec<(char, HotkeyTarget)>) -> (dropped: Vec<(char, HotkeyTarget, BuiltinAction)>)
        requires
            forall|i: int, j: int| 0 <= i < j < entries@.len() ==> (#[trigger] entries@[i]).0 != (#[trigger] entries@[j]).0,
        ensures
            ({
                let m = whole_table(entries@);
                &&& final(self)@ == picked(m, hides_nothing(m))
                &&& forall|i: int|
                    0 <= i < dropped@.len() ==> {
                        let (k, t, a) = #[trigger] dropped@[i];
                        &&& m.dom().contains(k) && m[k] == t@ && !(t@ is Builtin)
                        &&& defaulting_to(m, k) == Some(a)
                    }
                &&& forall|k: char|
                    m.dom().contains(k) && !hides_nothing(m)(k, m[k]) ==> exists|i: int|
                        0 <= i < dropped@.len() && (#[trigger] dropped@[i]).0 == k
            }),
            forall|i: int, j: int|
                0 <= i < j < dropped@.len() ==> (#[trigger] dropped@[i]).0 != (#[trigger] dropped@[j]).0,
            final(self).changes() == bumped(old(self).changes()),
    {
        let ghost m = whole_table(entries@);
        let mut copy: Vec<(char, HotkeyTarget)> = Vec::new();
        let mut i: usize = 0;
        while i < entries.len()
            invariant
                i <= entries@.len(),
                copy@.len() == i,
                forall|j: int|
                    0 <= j < i ==> (#[trigger] copy@[j]).0 == entries@[j].0 && copy@[j].1@ == entries@[j].1@,
            decreases entries@.len() - i,
        {
            copy.push((entries[i].0, entries[i].1.clone()));
            i = i + 1;
        }
        assert(distinct_keys(copy@));
        let all = Hotkeys { entries: copy, generation: 0 };
        assert(all@ =~= m) by {
            assert forall|k: char| has_key(copy@, k) <==> m.dom().contains(k) by {
                if has_key(copy@, k) {
                    let j = index_of(copy@, k);
                    assert(entries@[j].0 == k);
                }
                if m.dom().contains(k) {
                    let j = choose|j: int| 0 <= j < entries@.len() && (#[trigger] entries@[j]).0 == k;
                    assert(copy@[j].0 == k);
                }
            }
            assert forall|k: char| has_key(copy@, k) implies all@[k] == m[k] by {
                let j = index_of(copy@, k);
                let x = choose|j: int| 0 <= j < entries@.len() && (#[trigger] entries@[j]).0 == k;
                assert(entries@[j].0 == k);
                assert(j == x);
            }
        }
        let ghost keep = hides_nothing(m);
        let mut flags: Vec<bool> = Vec::new();
        let mut dropped: Vec<(char, HotkeyTarget, BuiltinAction)> = Vec::new();
        let ghost mut from: Seq<int> = seq![];
        let mut i: usize = 0;
        while i < all.entries.len()
            invariant
                i <= all.entries@.len(),
                flags@.len() == i,
                all@ == m,
                distinct_keys(all.entries@),
                keep == hides_nothing(m),
                forall|j: int|
                    0 <= j < i ==> #[trigger] flags@[j] == keep(all.entries@[j].0, all.entries@[j].1@),
                from.len() == dropped@.len(),
                forall|x: int|
                    0 <= x < from.len() ==> 0 <= #[trigger] from[x] < i && dropped@[x].0
                        == all.entries@[from[x]].0 && dropped@[x].1@ == all.entries@[from[x]].1@ && !(
                    dropped@[x].1@ is Builtin) && defaulting_to(m, dropped@[x].0) == Some(dropped@[x].2),
                forall|x: int, y: int| 0 <= x < y < from.len() ==> (#[trigger] from[x]) < (#[trigger] from[y]),
                forall|j: int| 0 <= j < i && !#[trigger] flags@[j] ==> from.contains(j),
            decreases all.entries@.len() - i,
        {
            let hidden = if all.entries[i].1.is_builtin() {
                None
            } else {
                all.defaulting(all.entries[i].0)
            };
            flags.push(hidden.is_none());
            if let Some(a) = hidden {
                let ghost was = from;
                dropped.push((all.entries[i].0, all.entries[i].1.clone(), a));
                proof {
                    from = from.push(i as int);
                    assert forall|j: int| 0 <= j < i + 1 && !#[trigger] flags@[j] implies from.contains(j) by {
                        if j == i {
                            assert(from[was.len() as int] == j);
                        } else {
                            let x = choose|x: int| 0 <= x < was.len() && was[x] == j;
                            assert(from[x] == j);
                        }
                    }
                }
            }
            i = i + 1;
        }
        let left = flagged(&all.entries, &flags, Ghost(keep));
        proof {
            assert forall|x: int| 0 <= x < dropped@.len() implies {
                let (k, t, a) = #[trigger] dropped@[x];
                &&& m.dom().contains(k) && m[k] == t@ && !(t@ is Builtin)
                &&& defaulting_to(m, k) == Some(a)
            } by {
                lemma_entry(all.entries@, from[x]);
            }
            assert forall|k: char| m.dom().contains(k) && !hides_nothing(m)(k, m[k]) implies exists|i: int|
                0 <= i < dropped@.len() && (#[trigger] dropped@[i]).0 == k by {
                let j = index_of(all.entries@, k);
                assert(!flags@[j]);
                let x = choose|x: int| 0 <= x < from.len() && from[x] == j;
                assert(dropped@[x].0 == k);
            }
            assert forall|x: int, y: int| 0 <= x < y < dropped@.len() implies (#[trigger] dropped@[x]).0 != (
            #[trigger] dropped@[y]).0 by {
                assert(from[x] < from[y]);
                assert(all.entries@[from[x]].0 != all.entries@[from[y]].0);
            }
        }
        self.entries = left;
        self.generation = self.generation.wrapping_add(1);
        dropped
    }
}

/// The table that a row of entries with distinct keys is.
pub open spec fn whole_table(v: Seq<(char, HotkeyTarget)>) -> Map<char, HotkeyView> {
    Map::new(
        |k: char| exists|i: int| 0 <= i < v.len() && (#[trigger] v[i]).0 == k,
        |k: char| v[choose|i: int| 0 <= i < v.len() && (#[trigger] v[i]).0 == k].1@,
    )
}

proof fn lemma_push(v: Seq<(char, HotkeyTarget)>, key: char, t: HotkeyTarget)
    requires
        distinct_keys(v),
        !has_key(v, key),
    ensures
        table(v.push((key, t))) == table(v).insert(key, t@),
{
    let w = v.push((key, t));
    assert(distinct_keys(w)) by {
        assert forall|x: int, y: int| 0 <= x < y < w.len() implies (#[trigger] w[x]).0 != (#[trigger] w[y]).0 by {
            assert(w[x] == v[x]);
            if y < v.len() {
                assert(w[y] == v[y]);
            }
        }
    }
    assert forall|k: char| has_key(w, k) <==> (has_key(v, k) || k == key) by {
        if has_key(v, k) {
            assert(w[index_of(v, k)].0 == k);
        }
        if k == key {
            assert(w[v.len() as int].0 == k);
        }
        if has_key(w, k) && k != key {
            assert(v[index_of(w, k)].0 == k);
        }
    }
    assert forall|k: char| has_key(w, k) implies table(w)[k] == table(v).insert(key, t@)[k] by {
        let x = index_of(w, k);
        if x < v.len() {
            assert(w[x] == v[x]);
            lemma_entry(v, x);
        }
    }
    assert(table(w) =~= table(v).insert(key, t@));
}

/// No playlist stands on a key that an action gives by default.
pub open spec fn unshadowed(m: Map<char, HotkeyView>) -> bool {
    forall|k: char| #[trigger] m.dom().contains(k) && !(m[k] is Builtin) ==> defaulting_to(m, k) is None
}

/// No two keys stand for one target.
pub open spec fn one_key_each(m: Map<char, HotkeyView>) -> bool {
    forall|k: char, l: char|
        #[trigger] m.dom().contains(k) && #[trigger] m.dom().contains(l) && m[k] == m[l] ==> k == l
}

/// Binding keeps every action reachable and gives each target one key.
pub proof fn binding_hides_no_action(m: Map<char, HotkeyView>, key: char, t: HotkeyView)
    requires
        unshadowed(m),
        !held_by_action(m, key, t),
    ensures
        unshadowed(bound(m, key, t)),
        one_key_each(m) ==> one_key_each(bound(m, key, t)),
        effective_target(bound(m, key, t), key) == Some(t),
{
    let n = bound(m, key, t);
    assert forall|a: BuiltinAction| remapped(m, a) implies remapped(n, a) by {
        let k = choose|k: char| #[trigger] m.dom().contains(k) && m[k] == HotkeyView::Builtin(a);
        if t == HotkeyView::Builtin(a) {
            assert(n.dom().contains(key) && n[key] == HotkeyView::Builtin(a));
        } else {
            if k == key {
                assert(effective_target(m, key) == Some(HotkeyView::Builtin(a)));
            }
            assert(n.dom().contains(k) && n[k] == HotkeyView::Builtin(a));
        }
    }
    assert forall|k: char| #[trigger] n.dom().contains(k) && !(n[k] is Builtin) implies defaulting_to(n, k) is None by {
        if k != key {
            assert(m.dom().contains(k));
        } else if m.dom().contains(key) && !(m[key] is Builtin) {
        } else if m.dom().contains(key) {
            assert(effective_target(m, key) == Some(m[key]));
        }
    }
}

/// A table that was taken over hides no action.
pub proof fn replacing_hides_no_action(m: Map<char, HotkeyView>)
    ensures
        unshadowed(picked(m, hides_nothing(m))),
{
    let n = picked(m, hides_nothing(m));
    assert forall|a: BuiltinAction| remapped(m, a) implies remapped(n, a) by {
        let k = choose|k: char| #[trigger] m.dom().contains(k) && m[k] == HotkeyView::Builtin(a);
        assert(n.dom().contains(k) && n[k] == HotkeyView::Builtin(a));
    }
    assert forall|k: char| #[trigger] n.dom().contains(k) && !(n[k] is Builtin) implies defaulting_to(n, k) is None by {
        assert(hides_nothing(m)(k, m[k]));
    }
}

} // verus!
