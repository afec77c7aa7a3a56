//! What the warnings panel shows: the health of the plugins and the failures of work in the
//! background.

use vstd::prelude::*;
use crate::plugin::{HealthView, PluginHealth};
use crate::queue::bumped;
use crate::strmap::StrMap;
use crate::text::same_text;
use crate::types::SourceId;

verus! {

/// How many failures are kept.
pub const MAX_BACKGROUND_FAILURES: usize = 20;

pub struct Warnings {
    pub health: Vec<(SourceId, PluginHealth)>,
    /// Contexts and messages, the oldest first.
    pub failures: Vec<(String, String)>,
    /// How each plugin's last setup ended.
    pub last_setup: StrMap<PluginHealth>,
    /// How often something that is shown may have changed.
    pub revision: u64,
}

pub struct WarningsView {
    pub health: Seq<(Seq<char>, HealthView)>,
    pub failures: Seq<(Seq<char>, Seq<char>)>,
    pub last_setup: Map<Seq<char>, HealthView>,
    pub revision: u64,
}

pub open spec fn health_views(v: Seq<(SourceId, PluginHealth)>) -> Seq<(Seq<char>, HealthView)> {
    v.map_values(|h: (SourceId, PluginHealth)| (h.0@, h.1@))
}

pub open spec fn failure_views(v: Seq<(String, String)>) -> Seq<(Seq<char>, Seq<char>)> {
    v.map_values(|f: (String, String)| (f.0@, f.1@))
}

impl View for Warnings {
    type V = WarningsView;

    open spec fn view(&self) -> WarningsView {
        WarningsView {
            health: health_views(self.health@),
            failures: failure_views(self.failures@),
            last_setup: self.last_setup@.map_values(|h: PluginHealth| h@),
            revision: self.revision,
        }
    }
}

/// The failures with one more: a repeat is not listed twice, and the oldest makes room.
pub open spec fn with_failure(v: Seq<(Seq<char>, Seq<char>)>, context: Seq<char>, message: Seq<char>) -> Seq<(Seq<char>, Seq<char>)> {
    if v.contains((context, message)) {
        v
    } else if v.len() == MAX_BACKGROUND_FAILURES {
        v.remove(0).push((context, message))
    } else {
        v.push((context, message))
    }
}

/// The warnings after a failure.
pub open spec fn warned(w: WarningsView, context: Seq<char>, message: Seq<char>) -> WarningsView {
    if w.failures.contains((context, message)) {
        w
    } else {
        WarningsView {
            failures: with_failure(w.failures, context, message),
            revision: bumped(w.revision),
            ..w
        }
    }
}

/// What a probe found, with the failure of the last setup in place of an unhealthy result.
pub open spec fn overlaid(probed: Seq<(Seq<char>, HealthView)>, last: Map<Seq<char>, HealthView>) -> Seq<(Seq<char>, HealthView)> {
    probed.map_values(
        |p: (Seq<char>, HealthView)|
            if p.1 is Healthy || !last.dom().contains(p.0) || last[p.0] is Healthy {
                p
            } else {
                (p.0, last[p.0])
            },
    )
}

/// Whether a probe found a plugin well.
pub open spec fn found_well(probed: Seq<(Seq<char>, HealthView)>, id: Seq<char>) -> bool {
    exists|i: int| 0 <= i < probed.len() && (#[trigger] probed[i]).0 == id && probed[i].1 is Healthy
}

/// The ends of setups that still count: those of plugins that the probe did not find well.
pub open spec fn kept_setups(last: Map<Seq<char>, HealthView>, probed: Seq<(Seq<char>, HealthView)>) -> Map<Seq<char>, HealthView> {
    last.remove_keys(Set::new(|id: Seq<char>| found_well(probed, id)))
}

/// The warnings once the health is what a probe found.
pub open spec fn after_probe(w: WarningsView, probed: Seq<(Seq<char>, HealthView)>) -> WarningsView {
    WarningsView {
        health: overlaid(probed, w.last_setup),
        last_setup: kept_setups(w.last_setup, probed),
        revision: bumped(w.revision),
        ..w
    }
}

/// How many plugins are not well.
pub open spec fn unwell(v: Seq<(Seq<char>, HealthView)>) -> nat
    decreases v.len(),
{
    if v.len() == 0 {
        0
    } else {
        unwell(v.drop_last()) + (if v.last().1 is Healthy {
            0nat
        } else {
            1
        })
    }
}

impl Warnings {
    pub fn new() -> (r: Warnings)
        ensures
            r@ == (WarningsView { health: seq![], failures: seq![], last_setup: Map::empty(), revision: 0 }),
    {
        let r = Warnings { health: Vec::new(), failures: Vec::new(), last_setup: StrMap::new(), revision: 0 };
        assert(r@.health =~= seq![]);
        assert(r@.failures =~= seq![]);
        assert(r@.last_setup =~= Map::empty());
        r
    }

    /// Lists a failure.
    pub fn warn(&mut self, context: &str, message: &str)
        ensures
            final(self)@ == warned(old(self)@, context@, message@),
    {
        let ghost v = self@.failures;
        let mut i: usize = 0;
        while i < self.failures.len()
            invariant
                i <= self.failures@.len(),
                *self == *old(self),
                v == self@.failures,
                forall|j: int| 0 <= j < i ==> v[j] != (context@, message@),
            decreases self.failures@.len() - i,
        {
            assert(v[i as int] == (self.failures@[i as int].0@, self.failures@[i as int].1@));
            if same_text(&self.failures[i].0, context) && same_text(&self.failures[i].1, message) {
                assert(v.contains((context@, message@)));
                return;
            }
            i = i + 1;
        }
        assert(!v.contains((context@, message@)));
        let ghost was = self.failures@;
        if self.failures.len() == MAX_BACKGROUND_FAILURES {
            self.failures.remove(0);
            assert(failure_views(self.failures@) =~= v.remove(0));
        }
        let ghost mid = self.failures@;
        self.failures.push((context.to_owned(), message.to_owned()));
        assert(failure_views(self.failures@) =~= failure_views(mid).push((context@, message@)));
        self.revision = self.revision.wrapping_add(1);
    }

    /// What the warnings button counts.
    pub fn warning_count(&self) -> (r: u64)
        requires
            self@.health.len() + self@.failures.len() <= u64::MAX,
        ensures
            r == unwell(self@.health) + self@.failures.len(),
    {
        let ghost v = self@.health;
        let mut n: u64 = 0;
        let mut i: usize = 0;
        assert(v.take(0) =~= seq![]);
        while i < self.health.len()
            invariant
                i <= self.health@.len(),
                v == self@.health,
                n <= i,
                n == unwell(v.take(i as int)),
                self@.health.len() + self@.failures.len() <= u64::MAX,
            decreases self.health@.len() - i,
        {
            assert(v.take(i + 1).drop_last() =~= v.take(i as int));
            assert(v[i as int] == (self.health@[i as int].0@, self.health@[i as int].1@));
            if !self.health[i].1.is_ok() {
                n = n + 1;
            }
            i = i + 1;
        }
        assert(v.take(i as int) =~= v);
        n + self.failures.len() as u64
    }

    fn overlay_setup(&self, probed: &Vec<(SourceId, PluginHealth)>) -> (r: Vec<(SourceId, PluginHealth)>)
        ensures
            health_views(r@) == overlaid(health_views(probed@), self@.last_setup),
    {
        let ghost v = health_views(probed@);
        let ghost want = overlaid(v, self@.last_setup);
        let mut out: Vec<(SourceId, PluginHealth)> = Vec::new();
        let mut i: usize = 0;
        while i < probed.len()
            invariant
                i <= probed@.len(),
                v == health_views(probed@),
                want == overlaid(v, self@.last_setup),
                out@.len() == i,
                forall|j: int| 0 <= j < i ==> ((#[trigger] out@[j]).0@, out@[j].1@) == want[j],
            decreases probed@.len() - i,
        {
            let p = &probed[i];
            assert(v[i as int] == (p.0@, p.1@));
            let health = if p.1.is_ok() {
                p.1.clone()
            } else {
                match self.last_setup.get(p.0.as_str()) {
                    Some(h) => if h.is_ok() {
                        p.1.clone()
                    } else {
                        h.clone()
                    },
                    None => p.1.clone(),
                }
            };
            out.push((p.0.clone(), health));
            i = i + 1;
        }
        assert(health_views(out@) =~= want);
        out
    }

    /// Forgets how the setups of plugins ended that a probe found well.
    fn supersede_setups(&mut self, probed: &Vec<(SourceId, PluginHealth)>)
        ensures
            final(self)@ == (WarningsView {
                last_setup: kept_setups(old(self)@.last_setup, health_views(probed@)),
                ..old(self)@
            }),
    {
        let ghost v = health_views(probed@);
        let ghost was = self.last_setup@;
        let mut i: usize = 0;
        while i < probed.len()
            invariant
                i <= probed@.len(),
                v == health_views(probed@),
                was == old(self).last_setup@,
                self.health == old(self).health,
                self.failures == old(self).failures,
                self.revision == old(self).revision,
                forall|k: Seq<char>|
                    #[trigger] self.last_setup@.dom().contains(k) <==> was.dom().contains(k) && !found_well(
                        v.take(i as int),
                        k,
                    ),
                forall|k: Seq<char>| #[trigger] self.last_setup@.dom().contains(k) ==> self.last_setup@[k] == was[k],
            decreases probed@.len() - i,
        {
            let p = &probed[i];
            assert(v[i as int] == (p.0@, p.1@));
            let ghost before = self.last_setup@;
            if p.1.is_ok() {
                self.last_setup.remove(p.0.as_str());
            }
            proof {
                let t = v.take(i as int);
                let u = v.take(i + 1);
                assert forall|k: Seq<char>| found_well(u, k) == (found_well(t, k) || (v[i as int].0 == k
                    && v[i as int].1 is Healthy)) by {
                    if found_well(t, k) {
                        let j = choose|j: int| 0 <= j < t.len() && (#[trigger] t[j]).0 == k && t[j].1 is Healthy;
                        assert(u[j] == t[j]);
                    }
                    if v[i as int].0 == k && v[i as int].1 is Healthy {
                        assert(u[i as int] == v[i as int]);
                    }
                    if found_well(u, k) {
                        let j = choose|j: int| 0 <= j < u.len() && (#[trigger] u[j]).0 == k && u[j].1 is Healthy;
                        if j < i {
                            assert(t[j] == u[j]);
                        }
                    }
                }
                assert forall|k: Seq<char>|
                    #[trigger] self.last_setup@.dom().contains(k) <==> was.dom().contains(k) && !found_well(u, k) by {
                    assert(before.dom().contains(k) <==> was.dom().contains(k) && !found_well(t, k));
                }
                assert forall|k: Seq<char>| #[trigger] self.last_setup@.dom().contains(k) implies self.last_setup@[k]
                    == was[k] by {
                    assert(before.dom().contains(k));
                }
            }
            i = i + 1;
        }
        assert(v.take(i as int) =~= v);
        assert(self@.last_setup =~= kept_setups(old(self)@.last_setup, v));
    }

    /// Takes what a probe of the plugins found.
    pub fn refresh_plugin_health(&mut self, probed: &Vec<(SourceId, PluginHealth)>)
        ensures
            final(self)@ == after_probe(old(self)@, health_views(probed@)),
    {
        self.health = self.overlay_setup(probed);
        self.supersede_setups(probed);
        self.revision = self.revision.wrapping_add(1);
    }

    /// Takes what a probe of the plugins found; says whether anything that is shown is different.
    pub fn apply_probed_plugin_health(&mut self, probed: &Vec<(SourceId, PluginHealth)>) -> (r: bool)
        ensures
            r == (overlaid(health_views(probed@), old(self)@.last_setup) != old(self)@.health),
            final(self)@ == (if r {
                after_probe(old(self)@, health_views(probed@))
            } else {
                WarningsView {
                    last_setup: kept_setups(old(self)@.last_setup, health_views(probed@)),
                    ..old(self)@
                }
            }),
    {
        let health = self.overlay_setup(probed);
        self.supersede_setups(probed);
        if same_health(&health, &self.health) {
            return false;
        }
        self.health = health;
        self.revision = self.revision.wrapping_add(1);
        true
    }

    /// Remembers how a plugin's setup ended.
    pub fn record_setup_result(&mut self, id: &SourceId, health: PluginHealth)
        ensures
            final(self)@ == (WarningsView {
                last_setup: old(self)@.last_setup.insert(id@, health@),
                ..old(self)@
            }),
    {
        self.last_setup.insert(id.as_str().to_owned(), health);
        assert(self@.last_setup =~= old(self)@.last_setup.insert(id@, health@));
    }

    /// Whether a plugin is known not to be well.
    pub fn known_unwell(&self, id: &SourceId) -> (r: bool)
        ensures
            r == exists|i: int|
                0 <= i < self@.health.len() && (#[trigger] self@.health[i]).0 == id@ && !(
                self@.health[i].1 is Healthy),
    {
        let ghost v = self@.health;
        let mut i: usize = 0;
        while i < self.health.len()
            invariant
                i <= self.health@.len(),
                v == self@.health,
                forall|j: int| 0 <= j < i ==> !((#[trigger] v[j]).0 == id@ && !(v[j].1 is Healthy)),
            decreases self.health@.len() - i,
        {
            assert(v[i as int] == (self.health@[i as int].0@, self.health@[i as int].1@));
            if self.health[i].0.same(id) && !self.health[i].1.is_ok() {
                return true;
            }
            i = i + 1;
        }
        false
    }

    /// Whether a plugin is known to be well.
    pub fn known_well(&self, id: &SourceId) -> (r: bool)
        ensures
            r == exists|i: int|
                0 <= i < self@.health.len() && (#[trigger] self@.health[i]).0 == id@ && self@.health[i].1 is Healthy,
    {
        let ghost v = self@.health;
        let mut i: usize = 0;
        while i < self.health.len()
            invariant
                i <= self.health@.len(),
                v == self@.health,
                forall|j: int| 0 <= j < i ==> !((#[trigger] v[j]).0 == id@ && v[j].1 is Healthy),
            decreases self.health@.len() - i,
        {
            assert(v[i as int] == (self.health@[i as int].0@, self.health@[i as int].1@));
            if self.health[i].0.same(id) && self.health[i].1.is_ok() {
                return true;
            }
            i = i + 1;
        }
        false
    }
}

fn same_health(a: &Vec<(SourceId, PluginHealth)>, b: &Vec<(SourceId, PluginHealth)>) -> (r: bool)
    ensures
        r == (health_views(a@) == health_views(b@)),
{
    let ghost x = health_views(a@);
    let ghost y = health_views(b@);
    if a.len() != b.len() {
        assert(x.len() != y.len());
        return false;
    }
    let mut i: usize = 0;
    while i < a.len()
        invariant
            a@.len() == b@.len(),
            i <= a@.len(),
            x == health_views(a@),
            y == health_views(b@),
            forall|j: int| 0 <= j < i ==> x[j] == y[j],
        decreases a@.len() - i,
    {
        assert(x[i as int] == (a@[i as int].0@, a@[i as int].1@));
        assert(y[i as int] == (b@[i as int].0@, b@[i as int].1@));
        if !(a[i].0.same(&b[i].0) && a[i].1.same(&b[i].1)) {
            return false;
        }
        i = i + 1;
    }
    assert(x =~= y);
    true
}

/// A failed setup is shown in place of what a probe finds amiss, until a probe finds the plugin
/// well; from then on what is found amiss is shown itself. A setup that ended well hides nothing.
pub proof fn failed_setups_show_until_a_probe_is_well(w: WarningsView, id: Seq<char>, found: HealthView, again: HealthView)
    requires
        !(found is Healthy),
        !(again is Healthy),
    ensures
        ({
            let first = after_probe(w, seq![(id, found)]);
            let well = after_probe(first, seq![(id, HealthView::Healthy)]);
            let last = after_probe(well, seq![(id, again)]);
            &&& first.health == seq![
                (
                    id,
                    if w.last_setup.dom().contains(id) && !(w.last_setup[id] is Healthy) {
                        w.last_setup[id]
                    } else {
                        found
                    },
                ),
            ]
            &&& well.health == seq![(id, HealthView::Healthy)]
            &&& last.health == seq![(id, again)]
        }),
{
    let first = after_probe(w, seq![(id, found)]);
    let well = after_probe(first, seq![(id, HealthView::Healthy)]);
    let last = after_probe(well, seq![(id, again)]);
    assert(seq![(id, HealthView::Healthy)][0] == (id, HealthView::Healthy));
    assert(found_well(seq![(id, HealthView::Healthy)], id));
    assert(!well.last_setup.dom().contains(id));
    assert(first.health =~= seq![
        (
            id,
            if w.last_setup.dom().contains(id) && !(w.last_setup[id] is Healthy) {
                w.last_setup[id]
            } else {
                found
            },
        ),
    ]);
    assert(well.health =~= seq![(id, HealthView::Healthy)]);
    assert(last.health =~= seq![(id, again)]);
}

/// No failure is listed twice, no more than allowed are listed, and the latest is.
pub proof fn failures_are_bounded(v: Seq<(Seq<char>, Seq<char>)>, context: Seq<char>, message: Seq<char>)
    requires
        v.no_duplicates(),
        v.len() <= MAX_BACKGROUND_FAILURES,
    ensures
        with_failure(v, context, message).no_duplicates(),
        with_failure(v, context, message).len() <= MAX_BACKGROUND_FAILURES,
        with_failure(v, context, message).contains((context, message)),
{
    let w = with_failure(v, context, message);
    if !v.contains((context, message)) {
        assert(w[w.len() - 1] == (context, message));
        assert forall|i: int, j: int| 0 <= i < w.len() && 0 <= j < w.len() && i != j implies w[i] != w[j] by {
            let d: int = if v.len() == MAX_BACKGROUND_FAILURES {
                1
            } else {
                0
            };
            if i < w.len() - 1 {
                assert(w[i] == v[i + d]);
                assert(v.contains(v[i + d]));
            }
            if j < w.len() - 1 {
                assert(w[j] == v[j + d]);
                assert(v.contains(v[j + d]));
            }
        }
    }
}

} // verus!
