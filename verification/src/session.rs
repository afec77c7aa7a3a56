//! One running player: the library, playback, searches, remote playlists and keys together.

use vstd::prelude::*;
use crate::catalog::Catalog;
use crate::config::{limited_fps, with_source, Config, VisConfig};
use crate::event::{Bus, CoreEvent};
use crate::hotkeys::{HotkeyView, Hotkeys};
use crate::moment::Moment;
use crate::playback::{
    opt_context, w_save_context, world, ContextView, Playback, PlaybackContext, PlaybackView, World,
    NOW_PLAYING_PLAYLIST_ID,
};
use crate::plugin::PluginHealth;
use crate::queue::{bounded, bumped, Queue, QueueView, RepeatSetting};
use crate::search::{Search, SearchView};
use crate::store::{playlist_of, MemStore, StoreView};
use crate::text::{chars_of, lemma_unsigned_decimal, parse_unsigned, unsigned_of};
use crate::traits::{BrowseNode, PlayerState};
use crate::types::{Playlist, PlaylistId, PlaylistView, SourceId, TrackId};
use crate::view_cache::{CacheView, ViewCache};
use crate::warnings::{health_views, overlaid, Warnings, WarningsView};

verus! {

/// The identifier under which the queue is stored.
pub const QUEUE_PLAYLIST_ID: u128 = 0;

/// An identifier that no playlist of the user has; a log of plays was once stored under it.
pub const HISTORY_PLAYLIST_ID: u128 = 1;

/// What is known of a source.
pub struct SourceFacts {
    pub id: SourceId,
    /// Where its liked tracks are.
    pub liked: Option<BrowseNode>,
    /// The places that are no real playlists.
    pub synthetic: Vec<BrowseNode>,
    /// The playlists that grow at their head.
    pub adds_first: Vec<BrowseNode>,
    /// It keeps albums for the user.
    pub has_albums: bool,
}

pub struct SourceView {
    pub id: Seq<char>,
    pub liked: Option<Option<Seq<char>>>,
    pub synthetic: Seq<Option<Seq<char>>>,
    pub adds_first: Seq<Option<Seq<char>>>,
    pub has_albums: bool,
}

pub open spec fn node_views(v: Seq<BrowseNode>) -> Seq<Option<Seq<char>>> {
    v.map_values(|n: BrowseNode| n@)
}

impl View for SourceFacts {
    type V = SourceView;

    open spec fn view(&self) -> SourceView {
        SourceView {
            id: self.id@,
            liked: match self.liked {
                Some(n) => Some(n@),
                None => None,
            },
            synthetic: node_views(self.synthetic@),
            adds_first: node_views(self.adds_first@),
            has_albums: self.has_albums,
        }
    }
}

pub open spec fn facts_views(v: Seq<SourceFacts>) -> Seq<SourceView> {
    v.map_values(|s: SourceFacts| s@)
}

/// Where a source stands among those that are there, from `i` on.
pub open spec fn source_at(v: Seq<SourceView>, id: Seq<char>, i: int) -> Option<int>
    decreases v.len() - i,
{
    if i < 0 || i >= v.len() {
        None
    } else if v[i].id == id {
        Some(i)
    } else {
        source_at(v, id, i + 1)
    }
}

/// Whether a place of a source is no real playlist.
pub open spec fn synthetic_in(v: Seq<SourceView>, source: Seq<char>, node: Option<Seq<char>>) -> bool {
    match source_at(v, source, 0) {
        Some(i) => v[i].synthetic.contains(node),
        None => false,
    }
}

/// What the letters of the keys say of one playlist: which tracks it holds, and of which a change
/// is not answered yet.
pub struct HotkeyMembership {
    pub key: char,
    pub members: Vec<TrackId>,
    pub pending: Vec<TrackId>,
}

/// The table of memberships, kept until something changes.
pub struct HotkeyMemo {
    pub table: Vec<HotkeyMembership>,
    pub dirty: bool,
    /// A playlist of it had not loaded yet.
    pub loading: bool,
    /// When it was built.
    pub built: u64,
}

pub struct Session {
    pub bus: Bus,
    pub catalog: Catalog,
    pub search: Search,
    pub playback: Playback,
    pub cache: ViewCache,
    pub hotkeys: Hotkeys,
    pub sources: Vec<SourceFacts>,
    pub cfg: Config,
    /// The search that is shown.
    pub search_generation: u64,
    /// The first of two tracks to be linked.
    pub link_pick: Option<TrackId>,
    /// How often something that is shown may have changed.
    pub revision: u64,
    pub memo: HotkeyMemo,
}

pub struct SessionView {
    pub w: World,
    pub cache: CacheView,
    pub playlists_gen: u64,
    pub removed_gen: u64,
    pub searches: SearchView,
    pub shown_search: u64,
    pub keys: Map<char, HotkeyView>,
    pub keys_gen: u64,
    pub sources: Seq<SourceView>,
    pub cfg: Config,
    pub link_pick: Option<TrackId>,
    pub revision: u64,
    pub memo_dirty: bool,
}

impl View for Session {
    type V = SessionView;

    open spec fn view(&self) -> SessionView {
        SessionView {
            w: world(self.playback, self.catalog, self.bus),
            cache: self.cache@,
            playlists_gen: self.catalog.playlists_gen,
            removed_gen: self.catalog.removed_gen,
            searches: self.search@,
            shown_search: self.search_generation,
            keys: self.hotkeys@,
            keys_gen: self.hotkeys.changes(),
            sources: facts_views(self.sources@),
            cfg: self.cfg,
            link_pick: self.link_pick,
            revision: self.revision,
            memo_dirty: self.memo.dirty,
        }
    }
}

/// Something that is shown changed.
pub open spec fn touched(v: SessionView) -> SessionView {
    SessionView { revision: bumped(v.revision), ..v }
}

/// The list that played at the last exit, as it is stored; it stands at its last track where the
/// stored place lies behind it.
pub open spec fn restored_context(s: StoreView) -> Option<ContextView> {
    match playlist_of(s, PlaylistId(NOW_PLAYING_PLAYLIST_ID)) {
        Some(p) => if p.items.len() == 0 {
            None
        } else {
            let i = match unsigned_of(p.notes, usize::MAX as nat) {
                Some(i) => i,
                None => 0,
            };
            Some(
                ContextView {
                    tracks: p.items,
                    index: (if i < p.items.len() {
                        i as int
                    } else {
                        p.items.len() - 1
                    }) as usize,
                    remote: None,
                    local: None,
                    name: if p.name.len() > 0 {
                        Some(p.name)
                    } else {
                        None
                    },
                    shuffle_bag: seq![],
                },
            )
        },
        None => None,
    }
}

/// The queue at the last exit, as it is stored.
pub open spec fn restored_queue(s: StoreView) -> Seq<TrackId> {
    match playlist_of(s, PlaylistId(QUEUE_PLAYLIST_ID)) {
        Some(p) => p.items,
        None => seq![],
    }
}

/// The stored form of the queue.
pub open spec fn queue_playlist(q: Seq<TrackId>) -> PlaylistView {
    PlaylistView { id: PlaylistId(QUEUE_PLAYLIST_ID), name: "__queue__"@, notes: ""@, items: q }
}

/// A list that is stored is there again at the next start, at the same place.
pub proof fn context_comes_back(w: World)
    requires
        w.p.context matches Some(x) && x.index < x.tracks.len(),
    ensures
        ({
            let x = w.p.context->0;
            restored_context(w_save_context(w).s) == Some(
                ContextView {
                    remote: None,
                    local: None,
                    shuffle_bag: seq![],
                    name: if x.name matches Some(n) && n.len() > 0 {
                        x.name
                    } else {
                        None
                    },
                    ..x
                },
            )
        }),
{
    let x = w.p.context->0;
    lemma_unsigned_decimal(x.index as nat, usize::MAX as nat);
}

fn restore_context(store: &MemStore) -> (r: Option<PlaybackContext>)
    ensures
        opt_context(r) == restored_context(store@),
{
    match store.get_playlist(PlaylistId(NOW_PLAYING_PLAYLIST_ID)) {
        None => None,
        Some(p) => {
            let n: usize = p.items.len();
            if n == 0 {
                return None;
            }
            let i: usize = match parse_unsigned(&chars_of(&p.notes), usize::MAX as u64) {
                Some(i) => i as usize,
                None => 0,
            };
            let index: usize = if i < n {
                i
            } else {
                n - 1
            };
            let name = if chars_of(&p.name).len() > 0 {
                Some(p.name)
            } else {
                None
            };
            let x = PlaybackContext { tracks: p.items, index, remote: None, local: None, name, shuffle_bag: Vec::new() };
            assert(x@.shuffle_bag =~= seq![]);
            Some(x)
        },
    }
}

/// Events that say, each in turn, that the queue changed.
pub open spec fn queue_changes(n: nat) -> Seq<CoreEvent> {
    Seq::new(n, |i: int| CoreEvent::QueueChanged)
}

/// A player that has just started.
pub open spec fn started(s: StoreView, history: Seq<(TrackId, Moment)>, probed: WarningsView, ev: Seq<CoreEvent>) -> World {
    World {
        p: PlaybackView {
            queue: QueueView {
                queue: restored_queue(s),
                current: None,
                repeat: RepeatSetting::Off,
                shuffle: false,
                history: bounded(history),
                queue_gen: restored_queue(s).len() as u64,
                history_gen: 1,
            },
            context: restored_context(s),
            context_gen: 0,
            now_playing: None,
            state: PlayerState::Stopped,
            progress: (0, 0),
            player: None,
            rendition: None,
            pending_fallback: None,
            failed_sources: seq![],
            load_failures: 0,
            skipping: false,
            last_skip: None,
            deferred: None,
            deferred_seq: 0,
            warnings: probed,
            effects: seq![],
        },
        s,
        ev: ev + queue_changes(restored_queue(s).len()),
    }
}

impl Session {
    /// The history keeps its bound.
    pub open spec fn wf(&self) -> bool {
        self.playback.queue.wf()
    }

    /// Starts a player: the queue and the list that played at the last exit are there again, and
    /// the plays of the log are its history. `probed` is the health of the plugins.
    pub fn new(cfg: Config, bus: Bus, store: MemStore, sources: Vec<SourceFacts>, probed: &Vec<(SourceId, PluginHealth)>, history: &Vec<(TrackId, Moment)>) -> (r: Session)
        ensures
            r.wf(),
            r@ == (SessionView {
                w: started(
                    store@,
                    history@,
                    WarningsView {
                        health: overlaid(health_views(probed@), Map::empty()),
                        failures: seq![],
                        last_setup: Map::empty(),
                        revision: 1,
                    },
                    bus@,
                ),
                cache: CacheView {
                    results: Map::empty(),
                    playlists: Map::empty(),
                    albums: Map::empty(),
                    lists: Map::empty(),
                    pending: Map::empty(),
                    folders_gen: 0,
                },
                playlists_gen: 0,
                removed_gen: 0,
                searches: SearchView { last: 0, live: Set::empty() },
                shown_search: 0,
                keys: Map::empty(),
                keys_gen: 0,
                sources: facts_views(sources@),
                cfg,
                link_pick: None,
                revision: 0,
                memo_dirty: true,
            }),
    {
        let mut bus = bus;
        let ghost before = bus@;
        let mut queue = Queue::new();
        let ghost items = restored_queue(store@);
        assert(before + queue_changes(0) =~= before);
        if let Some(saved) = store.get_playlist(PlaylistId(QUEUE_PLAYLIST_ID)) {
            let n: usize = saved.items.len();
            let mut i: usize = 0;
            assert(items.take(0) =~= seq![]);
            while i < n
                invariant
                    i <= n == items.len(),
                    items == saved.items@,
                    queue.wf(),
                    queue@ == (QueueView {
                        queue: items.take(i as int),
                        current: None,
                        repeat: RepeatSetting::Off,
                        shuffle: false,
                        history: seq![],
                        queue_gen: i as u64,
                        history_gen: 0,
                    }),
                    bus@ == before + queue_changes(i as nat),
                decreases n - i,
            {
                queue.append(saved.items[i], &mut bus);
                assert(items.take(i + 1) =~= items.take(i as int).push(items[i as int]));
                assert(before + queue_changes((i + 1) as nat) =~= (before + queue_changes(i as nat)).push(
                    CoreEvent::QueueChanged,
                ));
                i = i + 1;
            }
            assert(items.take(n as int) =~= items);
        }
        queue.restore_history(history);
        let context = restore_context(&store);
        let mut warnings = Warnings::new();
        warnings.refresh_plugin_health(probed);
        assert(warnings@.last_setup =~= Map::empty());
        let r = Session {
            bus,
            catalog: Catalog::new(store),
            search: Search::new(),
            playback: Playback {
                queue,
                context,
                context_gen: 0,
                now_playing: None,
                state: PlayerState::Stopped,
                progress: (0, 0),
                player: None,
                rendition: None,
                pending_fallback: None,
                failed_sources: Vec::new(),
                load_failures: 0,
                skipping: false,
                last_skip: None,
                deferred: None,
                deferred_seq: 0,
                warnings,
                effects: Vec::new(),
            },
            cache: ViewCache::new(),
            hotkeys: Hotkeys::new(),
            sources,
            cfg,
            search_generation: 0,
            link_pick: None,
            revision: 0,
            memo: HotkeyMemo { table: Vec::new(), dirty: true, loading: false, built: 0 },
        };
        proof {
            assert(r@.w.p.failed_sources =~= seq![]);
            assert(r@.w.p.effects =~= seq![]);
            assert(r@.w.ev =~= before + queue_changes(items.len()));
        }
        r
    }

    /// Stores the queue, so that it is there again at the next start.
    pub fn save_queue(&mut self)
        requires
            old(self).wf(),
        ensures
            final(self).wf(),
            final(self)@ == (SessionView {
                w: World {
                    s: StoreView {
                        playlists: old(self)@.w.s.playlists.insert(
                            QUEUE_PLAYLIST_ID,
                            queue_playlist(old(self)@.w.p.queue.queue),
                        ),
                        ..old(self)@.w.s
                    },
                    ..old(self)@.w
                },
                ..old(self)@
            }),
            restored_queue(final(self)@.w.s) == old(self)@.w.p.queue.queue,
    {
        let p = Playlist {
            id: PlaylistId(QUEUE_PLAYLIST_ID),
            name: "__queue__".to_owned(),
            notes: "".to_owned(),
            items: self.playback.queue.snapshot(),
        };
        self.catalog.store.upsert_playlist(&p);
    }

    /// Moves on any change that is shown.
    pub fn revision(&self) -> (r: u64)
        ensures
            r == self@.revision,
    {
        self.revision
    }

    /// Moves when the warnings may have changed.
    pub fn warnings_revision(&self) -> (r: u64)
        ensures
            r == self@.w.p.warnings.revision,
    {
        self.playback.warnings.revision
    }

    /// Moves when the list that plays has other tracks.
    pub fn context_gen(&self) -> (r: u64)
        ensures
            r == self@.w.p.context_gen,
    {
        self.playback.context_gen
    }

    /// Moves when a track is no longer there.
    pub fn removed_tracks_gen(&self) -> (r: u64)
        ensures
            r == self@.removed_gen,
    {
        self.catalog.removed_gen()
    }

    /// Moves when a playlist of the user changes.
    pub fn playlists_gen(&self) -> (r: u64)
        ensures
            r == self@.playlists_gen,
    {
        self.catalog.playlists_gen()
    }

    /// Moves when a key changes.
    pub fn hotkeys_gen(&self) -> (r: u64)
        ensures
            r == self@.keys_gen,
    {
        self.hotkeys.generation()
    }

    pub(crate) fn touch(&mut self)
        ensures
            final(self)@ == touched(old(self)@),
            final(self).playback == old(self).playback,
    {
        self.revision = self.revision.wrapping_add(1);
    }

    /// Switches a source on or off; it takes effect at the next start.
    pub fn set_source_enabled(&mut self, source: &str, enabled: bool)
        ensures
            final(self)@ == (SessionView {
                cfg: with_source(old(self)@.cfg, source@, enabled),
                ..touched(old(self)@)
            }),
            final(self).wf() == old(self).wf(),
    {
        self.touch();
        self.cfg.set_source_enabled(source, enabled);
    }

    /// Sets the frame rate, within what is supported.
    pub fn set_vis_fps(&mut self, fps: u32)
        ensures
            final(self)@ == (SessionView {
                cfg: Config { vis: VisConfig { fps: limited_fps(fps) }, ..old(self)@.cfg },
                ..touched(old(self)@)
            }),
            final(self).wf() == old(self).wf(),
    {
        self.touch();
        let vis = VisConfig { fps };
        self.cfg.vis = VisConfig { fps: vis.limit() };
    }

    pub fn set_status_line(&mut self, shown: bool)
        ensures
            final(self)@ == (SessionView {
                cfg: Config { status_line: shown, ..old(self)@.cfg },
                ..touched(old(self)@)
            }),
            final(self).wf() == old(self).wf(),
    {
        self.touch();
        self.cfg.status_line = shown;
    }

    pub fn set_show_hints(&mut self, shown: bool)
        ensures
            final(self)@ == (SessionView {
                cfg: Config { show_hints: shown, ..old(self)@.cfg },
                ..touched(old(self)@)
            }),
            final(self).wf() == old(self).wf(),
    {
        self.touch();
        self.cfg.show_hints = shown;
    }

    pub fn set_auto_update(&mut self, on: bool)
        ensures
            final(self)@ == (SessionView {
                cfg: Config { auto_update: on, ..old(self)@.cfg },
                ..touched(old(self)@)
            }),
            final(self).wf() == old(self).wf(),
    {
        self.touch();
        self.cfg.auto_update = on;
    }

    /// Sets the directory of the cache for the next start.
    pub fn set_media_cache_dir(&mut self, dir: String)
        ensures
            final(self)@ == (SessionView {
                cfg: Config { media_cache_dir: dir, ..old(self)@.cfg },
                ..touched(old(self)@)
            }),
            final(self).wf() == old(self).wf(),
    {
        self.touch();
        self.cfg.media_cache_dir = dir;
    }
}

} // verus!
