//! What the player makes of what happens.

use vstd::prelude::*;
use crate::add_files::{add_files, add_of, file_set};
use crate::catalog::ingested;
use crate::command::{Dispatch, DispatchView};
use crate::env::{Env, EnvView};
use crate::event::{CoreEvent, PlayerEvent};
use crate::folders::folders_due;
use crate::import::{ids_needed, import_doc, import_of, ImportFacts};
use crate::moment::Moment;
use crate::playback::{w_play_track, w_warn, PlaybackView, World};
use crate::player_events::{w_cache_ready, w_deferred, w_player_event, w_status};
use crate::playlist_m3u::M3uDoc;
use crate::plugin::PluginHealth;
use crate::queue::bumped;
use crate::remote::{holds_track, Browse};
use crate::session_keys::s_prune;
use crate::session::{facts_views, source_at, touched, Session, SessionView, SourceFacts, SourceView};
use crate::store::{track_of, StoreView};
use crate::strmap::StrMap;
use crate::text::str_views;
use crate::traits::{BrowseNode, Error, PlayerStatus};
use crate::types::{opt_text, ItemKind, PlaylistId, SourceId, Track, TrackId};
use crate::view_cache::{
    ensured, folder_key_of, folder_map, folders_of, hydrated_folders, list_of, refreshed_lists, refreshed_results,
    retry_rows, retriable, with_folders, with_list, CacheView, FolderKind, ResultView,
};
use crate::folders::FoldersView;
use crate::warnings::{after_probe, health_views, WarningsView};

verus! {

/// What the program fetches from sources in the background.
pub enum Fetch {
    Folders { kind: FolderKind, source: SourceId },
    Tracks { source: SourceId, node: BrowseNode, browse: Browse },
}

pub enum FetchView {
    Folders { kind: FolderKind, source: Seq<char> },
    Tracks { source: Seq<char>, node: Option<Seq<char>>, browse: Browse },
}

impl View for Fetch {
    type V = FetchView;

    open spec fn view(&self) -> FetchView {
        match self {
            Fetch::Folders { kind, source } => FetchView::Folders { kind: *kind, source: source@ },
            Fetch::Tracks { source, node, browse } => FetchView::Tracks { source: source@, node: node@, browse: *browse },
        }
    }
}

pub open spec fn fetch_views(v: Seq<Fetch>) -> Seq<FetchView> {
    v.map_values(|f: Fetch| f@)
}

/// A track that a search found is shown, once.
pub open spec fn with_result(c: CacheView, s: StoreView, search: u64, track: TrackId) -> CacheView {
    if c.results.dom().contains(search as u128) {
        let set = c.results[search as u128];
        CacheView {
            results: c.results.insert(
                search as u128,
                if holds_track(set.tracks, track) || track_of(s, track) is None {
                    set
                } else {
                    ResultView {
                        tracks: set.tracks.push(s.tracks[track.0]),
                        generation: bumped(set.generation),
                        ..set
                    }
                },
            ),
            ..c
        }
    } else {
        c
    }
}

pub open spec fn with_collection(c: CacheView, search: u64, x: (Seq<char>, ItemKind, Seq<char>, Option<Seq<char>>)) -> CacheView {
    if c.results.dom().contains(search as u128) {
        let set = c.results[search as u128];
        CacheView {
            results: c.results.insert(
                search as u128,
                ResultView { collections: set.collections.push(x), generation: bumped(set.generation), ..set },
            ),
            ..c
        }
    } else {
        c
    }
}

/// Every copy of a track that is shown follows it.
pub open spec fn with_refreshed(c: CacheView, s: StoreView, id: TrackId) -> CacheView {
    match track_of(s, id) {
        None => c,
        Some(fresh) => CacheView {
            results: c.results.map_values(refreshed_results(id, fresh)),
            lists: c.lists.map_values(refreshed_lists(id, fresh)),
            ..c
        },
    }
}

pub open spec fn well(w: WarningsView, id: Seq<char>) -> bool {
    exists|i: int| 0 <= i < w.health.len() && (#[trigger] w.health[i]).0 == id && w.health[i].1 is Healthy
}

pub open spec fn ill(w: WarningsView, id: Seq<char>) -> bool {
    exists|i: int| 0 <= i < w.health.len() && (#[trigger] w.health[i]).0 == id && !(w.health[i].1 is Healthy)
}

/// The lists of liked tracks of the first `n` sources are loaded, of those whose plugin is well.
pub open spec fn s_liked_lists(v: SessionView, now: u64, n: int) -> (CacheView, Seq<FetchView>)
    decreases n,
{
    if n <= 0 || n > v.sources.len() {
        (v.cache, seq![])
    } else {
        let (c, out) = s_liked_lists(v, now, n - 1);
        let s = v.sources[n - 1];
        match s.liked {
            Some(node) => if well(v.w.p.warnings, s.id) {
                let (l, b) = ensured(v.w.s, list_of(c, s.id, node), retry_rows(c, s.id, node, now) as int, s.id, node);
                (
                    with_list(c, s.id, node, l),
                    match b {
                        Some(browse) => out.push(FetchView::Tracks { source: s.id, node, browse }),
                        None => out,
                    },
                )
            } else {
                (c, out)
            },
            None => (c, out),
        }
    }
}

/// The folders of a source are fetched, where that is due.
pub open spec fn c_folders(c: CacheView, s: StoreView, kind: FolderKind, source: Seq<char>, now: u64) -> (CacheView, bool) {
    let known = folders_of(folder_map(c, kind), source);
    let f = match known {
        Some(f) => f,
        None => hydrated_folders(s, folder_key_of(source, kind)),
    };
    let due = folders_due(f, now);
    (
        CacheView {
            folders_gen: if known is None {
                bumped(c.folders_gen)
            } else {
                c.folders_gen
            },
            ..with_folders(
                c,
                kind,
                source,
                if due {
                    FoldersView { browsing: true, last_attempt: Some(now), ..f }
                } else {
                    f
                },
            )
        },
        due,
    )
}

pub open spec fn told(out: Seq<FetchView>, due: bool, kind: FolderKind, source: Seq<char>) -> Seq<FetchView> {
    if due {
        out.push(FetchView::Folders { kind, source })
    } else {
        out
    }
}

/// The folders of the first `n` sources are fetched where that is due, of those whose plugin is
/// not known to be unwell.
pub open spec fn s_all_folders(v: SessionView, now: u64, n: int) -> (CacheView, Seq<FetchView>)
    decreases n,
{
    if n <= 0 || n > v.sources.len() {
        (v.cache, seq![])
    } else {
        let (c, out) = s_all_folders(v, now, n - 1);
        let s = v.sources[n - 1];
        if ill(v.w.p.warnings, s.id) {
            (c, out)
        } else {
            let (c1, due) = c_folders(c, v.w.s, FolderKind::Playlists, s.id, now);
            let out1 = told(out, due, FolderKind::Playlists, s.id);
            if s.has_albums {
                let (c2, more) = c_folders(c1, v.w.s, FolderKind::Albums, s.id, now);
                (c2, told(out1, more, FolderKind::Albums, s.id))
            } else {
                (c1, out1)
            }
        }
    }
}

impl Session {
    fn ensure_liked_lists(&mut self, now: u64) -> (r: Vec<Fetch>)
        ensures
            ({
                let (c, out) = s_liked_lists(old(self)@, now, old(self)@.sources.len() as int);
                &&& final(self)@ == (SessionView { cache: c, ..old(self)@ })
                &&& fetch_views(r@) == out
            }),
            final(self).playback == old(self).playback,
    {
        let ghost v = self@;
        let mut out: Vec<Fetch> = Vec::new();
        let n: usize = self.sources.len();
        let mut i: usize = 0;
        assert(fetch_views(out@) =~= seq![]);
        while i < n
            invariant
                i <= n == v.sources.len(),
                v == old(self)@,
                self@ == (SessionView { cache: s_liked_lists(v, now, i as int).0, ..v }),
                fetch_views(out@) == s_liked_lists(v, now, i as int).1,
                self.playback == old(self).playback,
            decreases n - i,
        {
            assert(v.sources[i as int] == self.sources@[i as int]@);
            let id = self.sources[i].id.clone();
            let liked = match &self.sources[i].liked {
                Some(node) => Some(node.clone()),
                None => None,
            };
            if let Some(node) = liked {
                if self.playback.warnings.known_well(&id) {
                    let b = self.cache.ensure_remote_playlist_loading(&id, &node, now, true, &self.catalog.store);
                    if let Some(browse) = b {
                        let ghost before = out@;
                        let f = Fetch::Tracks { source: id, node, browse };
                        out.push(f);
                        assert(fetch_views(out@) =~= fetch_views(before).push(f@));
                    }
                }
            }
            i = i + 1;
        }
        out
    }
}


impl Session {
    fn fetch_folders(&mut self, kind: FolderKind, source: &SourceId, now: u64, out: &mut Vec<Fetch>)
        ensures
            ({
                let (c, due) = c_folders(old(self)@.cache, old(self)@.w.s, kind, source@, now);
                &&& final(self)@ == (SessionView { cache: c, ..old(self)@ })
                &&& fetch_views(final(out)@) == told(fetch_views(old(out)@), due, kind, source@)
            }),
            final(self).playback == old(self).playback,
            final(self).sources == old(self).sources,
    {
        if self.cache.ensure_folders(kind, source, now, &self.catalog.store) {
            let ghost before = out@;
            let f = Fetch::Folders { kind, source: source.clone() };
            out.push(f);
            assert(fetch_views(out@) =~= fetch_views(before).push(f@));
        }
    }

    /// Asks for the folders of every source and for the lists of liked tracks, where that is due.
    pub fn ensure_remote_playlists(&mut self, now: u64) -> (r: Vec<Fetch>)
        ensures
            final(self)@ == s_ensure(old(self)@, now).0,
            fetch_views(r@) == s_ensure(old(self)@, now).1,
            final(self).playback == old(self).playback,
    {
        let ghost v = self@;
        let mut out: Vec<Fetch> = Vec::new();
        let n: usize = self.sources.len();
        let mut i: usize = 0;
        assert(fetch_views(out@) =~= seq![]);
        while i < n
            invariant
                i <= n == v.sources.len(),
                v == old(self)@,
                self@ == (SessionView { cache: s_all_folders(v, now, i as int).0, ..v }),
                fetch_views(out@) == s_all_folders(v, now, i as int).1,
                self.playback == old(self).playback,
            decreases n - i,
        {
            assert(v.sources[i as int] == self.sources@[i as int]@);
            let id = self.sources[i].id.clone();
            let albums: bool = self.sources[i].has_albums;
            if !self.playback.warnings.known_unwell(&id) {
                self.fetch_folders(FolderKind::Playlists, &id, now, &mut out);
                if albums {
                    self.fetch_folders(FolderKind::Albums, &id, now, &mut out);
                }
            }
            i = i + 1;
        }
        let mut liked = self.ensure_liked_lists(now);
        let ghost a = out@;
        let ghost b = liked@;
        out.append(&mut liked);
        assert(fetch_views(out@) =~= fetch_views(a) + fetch_views(b));
        out
    }

    /// Installs what is known of a source now; its folders may be fetched again, and keys of
    /// places that are no playlists are dropped.
    pub fn install_source(&mut self, facts: SourceFacts)
        ensures
            final(self)@ == s_install(old(self)@, facts@),
            final(self).playback == old(self).playback,
    {
        let id = facts.id.clone();
        let ghost v = self@.sources;
        let ghost fv = facts@;
        let n: usize = self.sources.len();
        let mut i: usize = 0;
        while i < n && !self.sources[i].id.same(&id)
            invariant
                i <= n == v.len(),
                *self == *old(self),
                v == facts_views(self.sources@),
                id@ == fv.id,
                source_at(v, fv.id, i as int) == source_at(v, fv.id, 0),
            decreases n - i,
        {
            assert(v[i as int] == self.sources@[i as int]@);
            i = i + 1;
        }
        if i < n {
            assert(v[i as int] == self.sources@[i as int]@);
            self.sources.set(i, facts);
            assert(facts_views(self.sources@) =~= v.update(i as int, fv));
        } else {
            self.sources.push(facts);
            assert(facts_views(self.sources@) =~= v.push(fv));
        }
        self.cache.invalidate_remote_playlists(&id);
        self.prune_synthetic_hotkeys();
    }
}

impl Session {
    /// Takes over what a plugin brings along for its source. Without a source the one that is
    /// there stays.
    pub fn apply_wiring(&mut self, source: Option<SourceFacts>)
        ensures
            final(self)@ == (match source {
                Some(f) => s_install(touched(old(self)@), f@),
                None => touched(old(self)@),
            }),
            final(self).playback == old(self).playback,
    {
        self.touch();
        if let Some(f) = source {
            self.install_source(f);
        }
    }
}

pub open spec fn s_ensure(v: SessionView, now: u64) -> (SessionView, Seq<FetchView>) {
    let (c, out) = s_all_folders(v, now, v.sources.len() as int);
    let v1 = SessionView { cache: c, ..v };
    let (c1, more) = s_liked_lists(v1, now, v.sources.len() as int);
    (SessionView { cache: c1, ..v1 }, out + more)
}

pub open spec fn s_install(v: SessionView, f: SourceView) -> SessionView {
    s_prune(
        SessionView {
            sources: match source_at(v.sources, f.id, 0) {
                Some(i) => v.sources.update(i, f),
                None => v.sources.push(f),
            },
            cache: CacheView {
                playlists: retriable(v.cache.playlists, f.id),
                albums: retriable(v.cache.albums, f.id),
                ..v.cache
            },
            ..v
        },
    )
}


#[verifier::opaque]
pub open spec fn s_requested(v: SessionView, e: EnvView, id: TrackId) -> SessionView {
    SessionView { w: w_play_track(v.w, e, id, true), ..v }
}

#[verifier::opaque]
pub open spec fn s_player(v: SessionView, e: EnvView, ev: PlayerEvent, status: PlayerStatus) -> SessionView {
    SessionView { w: w_player_event(v.w, e, v.cache, ev, status), ..v }
}

#[verifier::opaque]
pub open spec fn s_cached(v: SessionView, e: EnvView, id: TrackId) -> SessionView {
    SessionView { w: w_cache_ready(v.w, e, id), ..v }
}

#[verifier::opaque]
pub open spec fn s_playlists_changed(v: SessionView, now: u64) -> (SessionView, Seq<FetchView>) {
    let (c, out) = s_liked_lists(v, now, v.sources.len() as int);
    (SessionView { cache: c, memo_dirty: true, ..v }, out)
}

/// Whether an event leaves what is shown alone: a tick of playback is read live, and a failure
/// moves the warnings only.
pub open spec fn unshown(ev: CoreEvent) -> bool {
    ev is BackgroundFailure || (ev matches CoreEvent::Player(pe) && pe is Progress)
}

/// What the player makes of an event, whether something is to be drawn, and what is fetched.
pub open spec fn s_event(v: SessionView, e: EnvView, ev: CoreEvent, status: PlayerStatus) -> (SessionView, bool, Seq<FetchView>) {
    let v1 = if unshown(ev) {
        v
    } else {
        touched(v)
    };
    match ev {
        CoreEvent::SearchHit { search, track } => if search == v.shown_search {
            (SessionView { cache: with_result(v1.cache, v1.w.s, search, track), ..v1 }, true, seq![])
        } else {
            (v1, false, seq![])
        },
        CoreEvent::SearchCollection { search, source, kind, name, node } => if search == v.shown_search {
            (
                SessionView { cache: with_collection(v1.cache, search, (source@, kind, name@, node@)), ..v1 },
                true,
                seq![],
            )
        } else {
            (v1, false, seq![])
        },
        CoreEvent::SearchDone { search, .. } => (v1, search == v.shown_search, seq![]),
        CoreEvent::TrackUpdated(id) => (
            SessionView { cache: with_refreshed(v1.cache, v1.w.s, id), ..v1 },
            true,
            seq![],
        ),
        CoreEvent::PlaylistsChanged => {
            let (v2, out) = s_playlists_changed(v1, e.ms);
            (v2, true, out)
        },
        CoreEvent::PlayRequested(id) => (s_requested(v1, e, id), true, seq![]),
        CoreEvent::Player(pe) => (s_player(v1, e, pe, status), !(pe is PreloadHint), seq![]),
        CoreEvent::DeferredLoad(seq) => (SessionView { w: w_deferred(v1.w, seq), ..v1 }, false, seq![]),
        CoreEvent::CacheFallbackReady(id) => (s_cached(v1, e, id), true, seq![]),
        CoreEvent::BackgroundFailure { context, message } => (
            SessionView { w: w_warn(v1.w, context@, message@), ..v1 },
            true,
            seq![],
        ),
        _ => (v1, true, seq![]),
    }
}

impl Session {
    fn requested(&mut self, id: TrackId, env: &Env)
        requires
            old(self).wf(),
        ensures
            final(self).wf(),
            final(self)@ == s_requested(old(self)@, env@, id),
    {
        reveal(s_requested);
        self.playback.play_track(id, true, env, &self.catalog, &mut self.bus);
    }

    fn on_player_event(&mut self, pe: &PlayerEvent, status: &PlayerStatus, env: &Env) -> (r: bool)
        requires
            old(self).wf(),
        ensures
            final(self).wf(),
            final(self)@ == s_player(old(self)@, env@, *pe, *status),
            r == !(pe is PreloadHint),
    {
        reveal(s_player);
        self.playback.on_player_event(pe, status, env, &self.cache, &mut self.catalog, &mut self.bus)
    }

    fn on_cached(&mut self, id: TrackId, env: &Env)
        requires
            old(self).wf(),
        ensures
            final(self).wf(),
            final(self)@ == s_cached(old(self)@, env@, id),
    {
        reveal(s_cached);
        self.playback.on_cache_ready(id, env, &self.catalog, &self.bus);
    }

    fn on_playlists_changed(&mut self, now: u64) -> (r: Vec<Fetch>)
        ensures
            (final(self)@, fetch_views(r@)) == s_playlists_changed(old(self)@, now),
            final(self).playback == old(self).playback,
    {
        reveal(s_playlists_changed);
        let r = self.ensure_liked_lists(now);
        self.memo.dirty = true;
        r
    }

    /// Takes an event. `status` is what the player that plays says of itself. A change of the
    /// plugins is taken by `plugins_changed`.
    pub fn on_event(&mut self, ev: &CoreEvent, status: &PlayerStatus, env: &Env) -> (r: (bool, Vec<Fetch>))
        requires
            old(self).wf(),
        ensures
            final(self).wf(),
            (final(self)@, r.0, fetch_views(r.1@)) == s_event(old(self)@, env@, *ev, *status),
    {
        let unshown: bool = match ev {
            CoreEvent::BackgroundFailure { .. } => true,
            CoreEvent::Player(PlayerEvent::Progress { .. }) => true,
            _ => false,
        };
        if !unshown {
            self.touch();
        }
        let none: Vec<Fetch> = Vec::new();
        assert(fetch_views(none@) =~= seq![]);
        match ev {
            CoreEvent::SearchHit { search, track } => {
                let current: bool = *search == self.search_generation;
                if current {
                    self.cache.push_result(*search, *track, &self.catalog.store);
                }
                (current, none)
            },
            CoreEvent::SearchCollection { search, source, kind, name, node } => {
                let current: bool = *search == self.search_generation;
                if current {
                    self.cache.push_collection_result(*search, source.clone(), *kind, name.clone(), node.clone());
                }
                (current, none)
            },
            CoreEvent::SearchDone { search, .. } => (*search == self.search_generation, none),
            CoreEvent::TrackUpdated(id) => {
                self.cache.refresh_cached_track(*id, &self.catalog.store);
                (true, none)
            },
            CoreEvent::PlaylistsChanged => (true, self.on_playlists_changed(env.ms)),
            CoreEvent::PlayRequested(id) => {
                self.requested(*id, env);
                (true, none)
            },
            CoreEvent::Player(pe) => (self.on_player_event(pe, status, env), none),
            CoreEvent::DeferredLoad(seq) => {
                self.playback.on_deferred_load(*seq, &self.catalog, &self.bus);
                (false, none)
            },
            CoreEvent::CacheFallbackReady(id) => {
                self.on_cached(*id, env);
                (true, none)
            },
            CoreEvent::BackgroundFailure { context, message } => {
                self.playback.warnings.warn(context, message);
                (true, none)
            },
            _ => (true, none),
        }
    }

    /// The player was toggled or moved, and says this of itself now.
    pub fn set_status(&mut self, status: &PlayerStatus)
        requires
            old(self).wf(),
        ensures
            final(self).wf(),
            final(self)@ == (SessionView { w: w_status(old(self)@.w, *status, None), ..old(self)@ }),
    {
        self.playback.set_status(status, None, &mut self.catalog, &mut self.bus);
    }

    /// A plugin's setup ended.
    pub fn record_setup_result(&mut self, id: &SourceId, health: PluginHealth)
        requires
            old(self).wf(),
        ensures
            final(self).wf(),
            final(self)@ == ({
                let v = touched(old(self)@);
                SessionView {
                    w: World {
                        p: PlaybackView {
                            warnings: WarningsView {
                                last_setup: v.w.p.warnings.last_setup.insert(id@, health@),
                                ..v.w.p.warnings
                            },
                            ..v.w.p
                        },
                        ..v.w
                    },
                    ..v
                }
            }),
    {
        self.touch();
        self.playback.warnings.record_setup_result(id, health);
    }

    /// Adds the track of an address that a source looked up; a new track gets the identifier
    /// `fresh`. Without one the address cannot be played.
    pub fn add_uri(&mut self, hit: &Option<Track>, fresh: TrackId) -> (r: Result<TrackId, Error>)
        requires
            hit matches Some(t) ==> t.renditions@.len() == 1,
        ensures
            final(self).playback == old(self).playback,
            match *hit {
                None => final(self)@ == old(self)@ && (r matches Err(Error::Other(m)) && m@ == "not a playable URL"@),
                Some(t) => {
                    let v = old(self)@;
                    let (s, id, written) = ingested(v.w.s, t@, fresh);
                    &&& r == Ok::<TrackId, Error>(id)
                    &&& final(self)@ == (SessionView {
                        w: World {
                            s,
                            ev: if written {
                                v.w.ev.push(CoreEvent::TrackUpdated(id))
                            } else {
                                v.w.ev
                            },
                            ..v.w
                        },
                        cache: with_result(v.cache, s, v.shown_search, id),
                        ..v
                    })
                },
            },
    {
        match hit {
            None => Err(Error::Other("not a playable URL".to_owned())),
            Some(t) => {
                let id = self.catalog.ingest_with(t, fresh, &mut self.bus);
                self.cache.push_result(self.search_generation, id, &self.catalog.store);
                Ok(id)
            },
        }
    }

    /// The plugins changed: what they offer now is installed, their health is taken over, and
    /// what is due is fetched.
    pub fn plugins_changed(&mut self, wired: Vec<SourceFacts>, probed: &Vec<(SourceId, PluginHealth)>, now: u64) -> (r: Vec<Fetch>)
        requires
            old(self).wf(),
        ensures
            final(self).wf(),
            (final(self)@, fetch_views(r@)) == s_plugins_changed(
                old(self)@,
                facts_views(wired@),
                health_views(probed@),
                now,
            ),
    {
        let ghost wv = facts_views(wired@);
        let ghost v0 = self@;
        let mut wired = wired;
        let ghost all = wired@;
        let n: usize = wired.len();
        let mut rev: Vec<SourceFacts> = Vec::new();
        let mut i: usize = 0;
        while i < n
            invariant
                i <= n == all.len(),
                wired@ == all.take(n - i),
                rev@.len() == i,
                forall|j: int| 0 <= j < i ==> rev@[j] == all[n - 1 - j],
            decreases n - i,
        {
            if let Some(f) = wired.pop() {
                assert(f == all[n - 1 - i]);
                rev.push(f);
                assert(wired@ =~= all.take(n - i - 1));
            }
            i = i + 1;
        }
        let mut k: usize = 0;
        while k < n
            invariant
                k <= n == all.len(),
                wv == facts_views(all),
                rev@.len() == n - k,
                forall|j: int| 0 <= j < n - k ==> rev@[j] == all[n - 1 - j],
                self@ == s_install_all(v0, wv, k as int),
                self.playback == old(self).playback,
            decreases n - k,
        {
            if let Some(f) = rev.pop() {
                assert(f == all[k as int]);
                assert(wv[k as int] == f@);
                self.install_source(f);
            }
            k = k + 1;
        }
        self.playback.warnings.refresh_plugin_health(probed);
        self.ensure_remote_playlists(now)
    }
}

/// The first `n` sources are installed.
pub open spec fn s_install_all(v: SessionView, wired: Seq<SourceView>, n: int) -> SessionView
    decreases n,
{
    if n <= 0 || n > wired.len() {
        v
    } else {
        s_install(s_install_all(v, wired, n - 1), wired[n - 1])
    }
}

pub open spec fn s_plugins_changed(v: SessionView, wired: Seq<SourceView>, probed: Seq<(Seq<char>, crate::plugin::HealthView)>, now: u64) -> (SessionView, Seq<FetchView>) {
    let v1 = s_install_all(v, wired, wired.len() as int);
    let v2 = SessionView {
        w: World {
            p: PlaybackView {
                warnings: after_probe(v1.w.p.warnings, probed),
                ..v1.w.p
            },
            ..v1.w
        },
        ..v1
    };
    s_ensure(v2, now)
}


impl Session {
    /// Folds a playlist file into the library, and says so.
    pub fn import_m3u(&mut self, doc: &M3uDoc, base: &str, stem: &Option<String>, recognized: &Vec<Option<String>>, tempos: &StrMap<String>, now: Moment, ids: &Vec<TrackId>, fresh: PlaylistId) -> (r: Result<Dispatch, Error>)
        requires
            recognized@.len() == doc.entries@.len(),
            ids_needed(doc.entries@, doc.entries@.len() as int) <= ids@.len(),
        ensures
            final(self).playback == old(self).playback,
            ({
                let v = old(self)@;
                let f = ImportFacts { base: base@, recognized: recognized@, tempos: tempos@, now, ids: ids@ };
                let done = import_of(v.w.s, v.w.ev, *doc, opt_text(*stem), f, fresh);
                &&& final(self)@ == (SessionView {
                    w: World { s: done.s, ev: done.ev, ..v.w },
                    playlists_gen: if done.message is Some {
                        bumped(v.playlists_gen)
                    } else {
                        v.playlists_gen
                    },
                    memo_dirty: v.memo_dirty || done.message is Some,
                    ..v
                })
                &&& r matches Ok(d) && done.message is Some && d@ == DispatchView::Done(done.message->0)
            }),
    {
        match import_doc(doc, base, stem, recognized, tempos, now, ids, fresh, &mut self.catalog, &mut self.bus) {
            Ok(m) => {
                self.memo.dirty = true;
                Ok(Dispatch::Done(m))
            },
            Err(e) => Err(e),
        }
    }

    /// Adds local files to a playlist, or to the queue, and says so.
    pub fn add_files_to_playlist(&mut self, playlist: Option<PlaylistId>, paths: &Vec<String>, base: &str, recognized: &Vec<Option<String>>, files: &StrMap<()>, now: Moment, ids: &Vec<TrackId>) -> (r: Result<Dispatch, Error>)
        requires
            old(self).wf(),
            recognized@.len() == paths@.len(),
            ids@.len() == paths@.len(),
        ensures
            final(self).wf(),
            ({
                let v = old(self)@;
                let done = add_of(
                    v.w.s,
                    v.w.ev,
                    v.w.p.queue,
                    playlist,
                    str_views(paths@),
                    base@,
                    recognized@,
                    file_set(files@),
                    now,
                    ids@,
                );
                &&& final(self)@ == (SessionView {
                    w: World {
                        s: done.s,
                        ev: done.ev,
                        p: PlaybackView {
                            queue: done.queue,
                            ..v.w.p
                        },
                    },
                    playlists_gen: if done.saved {
                        bumped(v.playlists_gen)
                    } else {
                        v.playlists_gen
                    },
                    memo_dirty: v.memo_dirty || done.saved,
                    ..v
                })
                &&& match r {
                    Ok(d) => done.message is Some && d@ == DispatchView::Done(done.message->0),
                    Err(e) => done.message is None && e is NotFound,
                }
            }),
    {
        let before: u64 = self.catalog.playlists_gen();
        let r = add_files(
            playlist,
            paths,
            base,
            recognized,
            files,
            now,
            ids,
            &mut self.catalog,
            &mut self.playback.queue,
            &mut self.bus,
        );
        if self.catalog.playlists_gen() != before {
            self.memo.dirty = true;
        }
        match r {
            Ok(m) => Ok(Dispatch::Done(m)),
            Err(e) => Err(e),
        }
    }
}

} // verus!
