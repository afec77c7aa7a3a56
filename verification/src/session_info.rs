//! The rest of what a session tells: its sources, its warnings, the keys of actions, and when it
//! looks for a new release.

use vstd::prelude::*;
use crate::actions::default_key_of;
use crate::hotkeys::{remapped, HotkeyTarget};
use crate::plugin::PluginHealth;
use crate::rate_limit::random_below;
use crate::scan::ScanMode;
use crate::session::{facts_views, touched, Session, SourceView};
use crate::strmap::{sorted_keys, StrMap};
use crate::text::{join_strings, joined, str_views};
use crate::types::SourceId;
use crate::warnings::{failure_views, health_views};

verus! {

/// How often plugins are probed, in seconds.
pub const PLUGIN_HEALTH_CHECK_INTERVAL: u64 = 30;

/// A probe of the plugins looks for a release once in this many times: three times a day.
pub const UPDATE_CHECK_ODDS: u64 = 960;

/// The names of the sources.
pub open spec fn source_names_in(v: Seq<SourceView>) -> Set<Seq<char>> {
    Set::new(|name: Seq<char>| exists|i: int| 0 <= i < v.len() && #[trigger] v[i].id == name)
}

pub open spec fn source_id_views(v: Seq<SourceId>) -> Seq<Seq<char>> {
    v.map_values(|s: SourceId| s@)
}

/// The names of the sources as one line.
pub open spec fn registered(names: Seq<Seq<char>>) -> Seq<char> {
    if names.len() == 0 {
        "(none)"@
    } else {
        joined(names, ", "@)
    }
}

impl Session {
    /// The sources, in the order of their names.
    pub fn source_ids(&self) -> (r: Vec<SourceId>)
        ensures
            sorted_keys(source_id_views(r@)),
            forall|name: Seq<char>|
                source_id_views(r@).contains(name) <==> source_names_in(self@.sources).contains(name),
    {
        let ghost v = self@.sources;
        let mut names: StrMap<()> = StrMap::new();
        let n: usize = self.sources.len();
        let mut i: usize = 0;
        while i < n
            invariant
                i <= n == self.sources@.len(),
                v == facts_views(self.sources@),
                v.len() == n,
                forall|name: Seq<char>|
                    #[trigger] names@.dom().contains(name) <==> exists|k: int| 0 <= k < i && #[trigger] v[k].id == name,
            decreases n - i,
        {
            assert(v[i as int] == self.sources@[i as int]@);
            let ghost before = names@;
            let ghost id = self.sources@[i as int].id@;
            names.insert(self.sources[i].id.as_str().to_owned(), ());
            assert forall|name: Seq<char>|
                #[trigger] names@.dom().contains(name) <==> exists|k: int| 0 <= k < i + 1 && #[trigger] v[k].id == name by {
                if name == id {
                    assert(v[i as int].id == name);
                } else if names@.dom().contains(name) {
                    assert(before.dom().contains(name));
                    let k = choose|k: int| 0 <= k < i && #[trigger] v[k].id == name;
                    assert(v[k].id == name);
                }
            }
            i = i + 1;
        }
        proof {
            use_type_invariant(&names);
            names.keys_are_the_domain();
        }
        let mut out: Vec<SourceId> = Vec::new();
        let ghost keys = names.keys();
        let m: usize = names.len();
        let mut j: usize = 0;
        while j < m
            invariant
                j <= m == keys.len(),
                keys == names.keys(),
                out@.len() == j,
                forall|k: int| 0 <= k < j ==> #[trigger] out@[k]@ == keys[k],
            decreases m - j,
        {
            out.push(SourceId::new(names.key_at(j)));
            j = j + 1;
        }
        assert(source_id_views(out@) =~= keys);
        out
    }

    /// The names of the sources as one line.
    pub fn registered_sources(&self) -> (r: String)
        ensures
            exists|names: Seq<Seq<char>>|
                #![trigger registered(names)]
                sorted_keys(names) && (forall|name: Seq<char>| names.contains(name) <==> source_names_in(
                    self@.sources,
                ).contains(name)) && r@ == registered(names),
    {
        let ids = self.source_ids();
        let ghost names = source_id_views(ids@);
        let mut texts: Vec<String> = Vec::new();
        let n: usize = ids.len();
        let mut i: usize = 0;
        while i < n
            invariant
                i <= n == ids@.len(),
                texts@.len() == i,
                forall|k: int| 0 <= k < i ==> #[trigger] texts@[k]@ == ids@[k]@,
            decreases n - i,
        {
            texts.push(ids[i].as_str().to_owned());
            i = i + 1;
        }
        assert(str_views(texts@) =~= names);
        if n == 0 {
            let r = "(none)".to_owned();
            assert(r@ == registered(names));
            r
        } else {
            let r = join_strings(&texts, ", ");
            assert(r@ == registered(names));
            r
        }
    }

    /// How each plugin was found.
    pub fn plugin_statuses(&self) -> (r: &Vec<(SourceId, PluginHealth)>)
        ensures
            health_views(r@) == self@.w.p.warnings.health,
    {
        &self.playback.warnings.health
    }

    /// What failed in the background, the oldest first.
    pub fn background_failures(&self) -> (r: &Vec<(String, String)>)
        ensures
            failure_views(r@) == self@.w.p.warnings.failures,
    {
        &self.playback.warnings.failures
    }

    /// The key that gives a target now: the one that was bound to it, or else the default of an
    /// action that was not moved.
    pub fn effective_hotkey(&self, target: &HotkeyTarget) -> (r: Option<char>)
        ensures
            match r {
                Some(k) => (self@.keys.dom().contains(k) && self@.keys[k] == target@) || (target@ is Builtin && !remapped(
                    self@.keys,
                    target@->Builtin_0,
                ) && default_key_of(target@->Builtin_0) == Some(k)),
                None => (forall|k: char| #[trigger] self@.keys.dom().contains(k) ==> self@.keys[k] != target@) && (
                target@ is Builtin ==> default_key_of(target@->Builtin_0) is None),
            },
    {
        self.hotkeys.effective_key(target)
    }

    /// Switches scanning on, without fetching, or off. Gives the mode to scan in.
    pub fn set_scan_enabled(&mut self, enabled: bool) -> (r: ScanMode)
        ensures
            final(self)@ == touched(old(self)@),
            r == (if enabled {
                ScanMode::CacheOnly
            } else {
                ScanMode::Disabled
            }),
    {
        self.touch();
        if enabled {
            ScanMode::CacheOnly
        } else {
            ScanMode::Disabled
        }
    }

    /// Whether to look for a release now: the user lets it happen, and none was installed by
    /// this run.
    pub fn check_for_update(&self, installed: bool) -> (r: bool)
        ensures
            r == (self@.cfg.auto_update && !installed),
    {
        self.cfg.auto_update && !installed
    }

    /// Whether a probe of the plugins that drew this number looks for a release.
    pub fn checks_at(&self, draw: u64, installed: bool) -> (r: bool)
        ensures
            r == (draw == 0 && self@.cfg.auto_update && !installed),
    {
        draw == 0 && self.check_for_update(installed)
    }

    /// Whether this probe of the plugins looks for a release: at random, three times a day or
    /// so, and never when the user does not let it happen.
    pub fn maybe_check_for_update(&self, installed: bool) -> (r: bool)
        ensures
            r ==> self@.cfg.auto_update && !installed,
    {
        let draw: u64 = random_below(UPDATE_CHECK_ODDS);
        self.checks_at(draw, installed)
    }
}

} // verus!
