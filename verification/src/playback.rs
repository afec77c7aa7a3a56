//! What plays, and what plays next.

use vstd::prelude::*;
use crate::catalog::Catalog;
use crate::env::{
    cache_rendition_of, cached_file, picked_player, presence, Env, EnvView,
};
use crate::event::{Bus, CoreEvent};
use crate::moment::Moment;
use crate::queue::{after_play, bumped, requeued, taken_out, Queue, QueueView, RepeatSetting};
use crate::remote::list_ids;
use crate::resolver::{resolved, source_views, Resolution, ResolutionView, Resolver, Target, TargetView};
use crate::store::{track_of, StoreView};
use crate::text::{append_decimal, debug_text, decimal, quoted, string_of};
use crate::traits::{BrowseNode, PlayerState};
use crate::types::{
    opt_text, Playlist, PlaylistId, PlaylistView, Rendition, RenditionView, SourceId, Track, TrackId, TrackView,
};
use crate::view_cache::{changes_of, kept_tracks, shown_rows, CacheView, ViewCache};
use crate::warnings::{warned, Warnings, WarningsView};

verus! {

/// How long a skip waits for another before its track is loaded, in milliseconds.
pub const SKIP_DEBOUNCE: u64 = 200;

/// After this many tracks in a row that could not be loaded playback stops.
pub const MAX_LOAD_FAILURES: u32 = 3;

/// The identifier under which the list that plays is stored.
pub const NOW_PLAYING_PLAYLIST_ID: u128 = 2;

/// The list that playback goes on with once the queue is empty.
pub struct PlaybackContext {
    pub tracks: Vec<TrackId>,
    /// The track that plays, or played last of this list.
    pub index: usize,
    /// The remote list that it is.
    pub remote: Option<(SourceId, BrowseNode)>,
    /// The playlist that it is.
    pub local: Option<PlaylistId>,
    pub name: Option<String>,
    /// What is left of the order by chance, the next at its end.
    pub shuffle_bag: Vec<usize>,
}

pub struct ContextView {
    pub tracks: Seq<TrackId>,
    pub index: usize,
    pub remote: Option<(Seq<char>, Option<Seq<char>>)>,
    pub local: Option<PlaylistId>,
    pub name: Option<Seq<char>>,
    pub shuffle_bag: Seq<usize>,
}

impl View for PlaybackContext {
    type V = ContextView;

    open spec fn view(&self) -> ContextView {
        ContextView {
            tracks: self.tracks@,
            index: self.index,
            remote: match self.remote {
                Some((s, n)) => Some((s@, n@)),
                None => None,
            },
            local: self.local,
            name: opt_text(self.name),
            shuffle_bag: self.shuffle_bag@,
        }
    }
}

pub open spec fn opt_context(c: Option<PlaybackContext>) -> Option<ContextView> {
    match c {
        Some(c) => Some(c@),
        None => None,
    }
}

/// A load that waits for the skips to end.
pub struct Deferred {
    pub seq: u64,
    pub track: TrackId,
    pub player: u32,
    pub rendition: Rendition,
}

pub struct DeferredView {
    pub seq: u64,
    pub track: TrackId,
    pub player: u32,
    pub rendition: RenditionView,
}

pub open spec fn opt_deferred(d: Option<Deferred>) -> Option<DeferredView> {
    match d {
        Some(d) => Some(
            DeferredView { seq: d.seq, track: d.track, player: d.player, rendition: d.rendition@ },
        ),
        None => None,
    }
}

/// What is to be done outside.
pub enum Effect {
    /// Every other player falls silent.
    StopOthers(u32),
    Load { player: u32, rendition: Rendition },
    Preload { player: u32, rendition: Rendition },
    /// A deferred load is announced after the wait of a skip.
    DeferLoad(u64),
    /// A play is written to the history.
    AppendHistory { track: TrackId, at: Moment, primary: String },
    /// What is on disk of a track is put into the cache.
    DecodeCached(TrackId),
    /// The scan takes this track first.
    Prioritize(TrackId),
    /// The end of a remote list was reached: it is looked at, so that more of it is fetched.
    LookAt { source: SourceId, node: BrowseNode },
}

pub enum EffectView {
    StopOthers(u32),
    Load { player: u32, rendition: RenditionView },
    Preload { player: u32, rendition: RenditionView },
    DeferLoad(u64),
    AppendHistory { track: TrackId, at: Moment, primary: Seq<char> },
    DecodeCached(TrackId),
    Prioritize(TrackId),
    LookAt { source: Seq<char>, node: Option<Seq<char>> },
}

impl View for Effect {
    type V = EffectView;

    open spec fn view(&self) -> EffectView {
        match self {
            Effect::StopOthers(p) => EffectView::StopOthers(*p),
            Effect::Load { player, rendition } => EffectView::Load {
                player: *player,
                rendition: rendition@,
            },
            Effect::Preload { player, rendition } => EffectView::Preload {
                player: *player,
                rendition: rendition@,
            },
            Effect::DeferLoad(n) => EffectView::DeferLoad(*n),
            Effect::AppendHistory { track, at, primary } => EffectView::AppendHistory {
                track: *track,
                at: *at,
                primary: primary@,
            },
            Effect::DecodeCached(t) => EffectView::DecodeCached(*t),
            Effect::Prioritize(t) => EffectView::Prioritize(*t),
            Effect::LookAt { source, node } => EffectView::LookAt { source: source@, node: node@ },
        }
    }
}

pub open spec fn effect_views(v: Seq<Effect>) -> Seq<EffectView> {
    v.map_values(|e: Effect| e@)
}

/// The state of playback.
pub struct Playback {
    pub queue: Queue,
    pub context: Option<PlaybackContext>,
    /// How often the tracks of the context were set.
    pub context_gen: u64,
    pub now_playing: Option<TrackId>,
    pub state: PlayerState,
    /// Position and length in milliseconds.
    pub progress: (u32, u32),
    /// The player that plays.
    pub player: Option<u32>,
    /// What was handed to it, and the track that it is.
    pub rendition: Option<(SourceId, String, TrackId)>,
    /// The track that is being put into the cache in order to be played.
    pub pending_fallback: Option<TrackId>,
    /// The sources that failed for the track that plays.
    pub failed_sources: Vec<SourceId>,
    pub load_failures: u32,
    /// A skip that follows another closely is running.
    pub skipping: bool,
    pub last_skip: Option<u64>,
    pub deferred: Option<Deferred>,
    pub deferred_seq: u64,
    pub warnings: Warnings,
    /// What is to be done outside, in order.
    pub effects: Vec<Effect>,
}

pub struct PlaybackView {
    pub queue: QueueView,
    pub context: Option<ContextView>,
    pub context_gen: u64,
    pub now_playing: Option<TrackId>,
    pub state: PlayerState,
    pub progress: (u32, u32),
    pub player: Option<u32>,
    pub rendition: Option<(Seq<char>, Seq<char>, TrackId)>,
    pub pending_fallback: Option<TrackId>,
    pub failed_sources: Seq<Seq<char>>,
    pub load_failures: u32,
    pub skipping: bool,
    pub last_skip: Option<u64>,
    pub deferred: Option<DeferredView>,
    pub deferred_seq: u64,
    pub warnings: WarningsView,
    pub effects: Seq<EffectView>,
}

pub open spec fn opt_handed(r: Option<(SourceId, String, TrackId)>) -> Option<(Seq<char>, Seq<char>, TrackId)> {
    match r {
        Some((s, u, t)) => Some((s@, u@, t)),
        None => None,
    }
}

impl View for Playback {
    type V = PlaybackView;

    open spec fn view(&self) -> PlaybackView {
        PlaybackView {
            queue: self.queue@,
            context: opt_context(self.context),
            context_gen: self.context_gen,
            now_playing: self.now_playing,
            state: self.state,
            progress: self.progress,
            player: self.player,
            rendition: opt_handed(self.rendition),
            pending_fallback: self.pending_fallback,
            failed_sources: source_views(self.failed_sources@),
            load_failures: self.load_failures,
            skipping: self.skipping,
            last_skip: self.last_skip,
            deferred: opt_deferred(self.deferred),
            deferred_seq: self.deferred_seq,
            warnings: self.warnings@,
            effects: effect_views(self.effects@),
        }
    }
}

/// Playback with the library and the events that wait.
pub struct World {
    pub p: PlaybackView,
    pub s: StoreView,
    pub ev: Seq<CoreEvent>,
}

pub open spec fn world(p: Playback, c: Catalog, b: Bus) -> World {
    World { p: p@, s: c.store@, ev: b@ }
}

/// The address by which a track is exported: of the rendition that is picked for it, or else of
/// its file in the cache.
pub open spec fn export_uri(e: EnvView, t: TrackView) -> Option<Seq<char>> {
    match resolved(t, TargetView::ExportM3u, presence(e, t)) {
        ResolutionView::Ready(r) => Some(r.uri),
        ResolutionView::Gap(_) => cached_file(e, t.renditions, 0),
    }
}

/// A player starts on a rendition of a track.
pub open spec fn w_start(w: World, e: EnvView, t: TrackView, r: RenditionView, player: u32, record: bool) -> World {
    let seq = bumped(w.p.deferred_seq);
    let again = w.p.queue.history.len() > 0 && w.p.queue.history.last().0 == t.id;
    let load = if w.p.skipping {
        EffectView::DeferLoad(seq)
    } else {
        EffectView::Load { player, rendition: r }
    };
    let effects = w.p.effects.push(EffectView::StopOthers(player)).push(load);
    World {
        p: PlaybackView {
            queue: if record {
                after_play(w.p.queue, t.id, e.now)
            } else {
                w.p.queue
            },
            now_playing: Some(t.id),
            state: PlayerState::Playing,
            progress: (0, t.duration_ms),
            player: Some(player),
            rendition: Some((r.source, r.uri, t.id)),
            deferred: if w.p.skipping {
                Some(DeferredView { seq, track: t.id, player, rendition: r })
            } else {
                None
            },
            deferred_seq: if w.p.skipping {
                seq
            } else {
                w.p.deferred_seq
            },
            effects: if record && !again {
                effects.push(
                    EffectView::AppendHistory {
                        track: t.id,
                        at: e.now,
                        primary: match export_uri(e, t) {
                            Some(u) => u,
                            None => r.uri,
                        },
                    },
                )
            } else {
                effects
            },
            ..w.p
        },
        ..w
    }
}

/// A track is played from the cache; where it is not there it is put there first.
pub open spec fn w_from_cache(w: World, e: EnvView, t: TrackView, record: bool) -> (World, bool) {
    match cached_file(e, t.renditions, 0) {
        Some(path) => match picked_player(e.players, "local"@, path) {
            Some(player) => (w_start(w, e, t, cache_rendition_of(path, e.now), player, record), true),
            None => (w, false),
        },
        None => (
            World {
                p: PlaybackView {
                    pending_fallback: Some(t.id),
                    effects: w.p.effects.push(EffectView::DecodeCached(t.id)),
                    ..w.p
                },
                ..w
            },
            false,
        ),
    }
}

pub open spec fn w_warn(w: World, context: Seq<char>, message: Seq<char>) -> World {
    World { p: PlaybackView { warnings: warned(w.p.warnings, context, message), ..w.p }, ..w }
}

pub open spec fn cant_play(title: Seq<char>, why: Seq<char>) -> Seq<char> {
    "can't play "@ + debug_text(title) + ": "@ + why
}

/// A track is played.
pub open spec fn w_play_track(w: World, e: EnvView, id: TrackId, record: bool) -> World {
    let w1 = World {
        p: PlaybackView {
            pending_fallback: None,
            failed_sources: seq![],
            queue: QueueView { current: Some(id), ..w.p.queue },
            ..w.p
        },
        ev: if w.p.queue.current != Some(id) {
            w.ev.push(CoreEvent::QueueChanged)
        } else {
            w.ev
        },
        ..w
    };
    match track_of(w.s, id) {
        None => w1,
        Some(t) => match resolved(t, TargetView::Playback, presence(e, t)) {
            ResolutionView::Ready(r) => match picked_player(e.players, r.source, r.uri) {
                Some(player) => w_start(w1, e, t, r, player, record),
                None => {
                    let (w2, ok) = w_from_cache(w1, e, t, record);
                    if ok {
                        w2
                    } else {
                        w_warn(w2, r.source, cant_play(t.title, "no player registered"@))
                    }
                },
            },
            ResolutionView::Gap(reason) => {
                let (w2, ok) = w_from_cache(w1, e, t, record);
                if ok {
                    w2
                } else {
                    w_warn(w2, "playback"@, cant_play(t.title, reason))
                }
            },
        },
    }
}

/// A track is played now, and taken out of the queue if it waits there.
pub open spec fn w_play_now(w: World, e: EnvView, id: TrackId) -> World {
    let w1 = World {
        p: PlaybackView {
            queue: taken_out(w.p.queue, id),
            ..w.p
        },
        ev: if w.p.queue.queue.contains(id) {
            w.ev.push(CoreEvent::QueueChanged)
        } else {
            w.ev
        },
        ..w
    };
    w_play_track(w1, e, id, true)
}

pub open spec fn other_than(index: usize) -> spec_fn(usize) -> bool {
    |i: usize| i != index
}

/// An order by chance without the track that plays, unless that is the only one. An order is
/// taken from its end.
pub open spec fn dealt(deal: Seq<usize>, index: usize) -> Seq<usize> {
    if deal.len() > 1 {
        deal.filter(other_than(index))
    } else {
        deal
    }
}

/// The tracks that a remote list shows once it is looked at.
pub open spec fn live_ids(c: CacheView, s: StoreView, source: Seq<char>, node: Option<Seq<char>>) -> Seq<TrackId> {
    list_ids(shown_rows(changes_of(c, source, node), kept_tracks(c, s, source, node)))
}

/// What the remote list of a context shows now, if that is more than the context has.
pub open spec fn grown(c: CacheView, s: StoreView, x: ContextView) -> Option<Seq<TrackId>> {
    match x.remote {
        Some((source, node)) => if live_ids(c, s, source, node).len() > x.tracks.len() {
            Some(live_ids(c, s, source, node))
        } else {
            None
        },
        None => None,
    }
}

/// The end of the context was reached: the remote list that it is of is looked at.
pub open spec fn w_look(w: World, x: ContextView) -> World {
    match x.remote {
        Some((source, node)) => World {
            p: PlaybackView { effects: w.p.effects.push(EffectView::LookAt { source, node }), ..w.p },
            ..w
        },
        None => w,
    }
}

/// The context made ready for its next track: an order by chance is dealt where none is left. At
/// its end the remote list that it is of is looked at, and taken over if it has grown.
pub open spec fn w_ready(w: World, e: EnvView, c: CacheView) -> World {
    match w.p.context {
        None => w,
        Some(x) => if x.tracks.len() == 0 {
            w
        } else if w.p.queue.shuffle {
            if x.shuffle_bag.len() == 0 {
                World {
                    p: PlaybackView {
                        context: Some(ContextView { shuffle_bag: dealt(e.deal, x.index), ..x }),
                        ..w.p
                    },
                    ..w
                }
            } else {
                w
            }
        } else if x.index + 1 >= x.tracks.len() {
            let w1 = w_look(w, x);
            match grown(c, w.s, x) {
                Some(tracks) => World {
                    p: PlaybackView {
                        context: Some(ContextView { tracks, ..x }),
                        context_gen: bumped(w.p.context_gen),
                        ..w1.p
                    },
                    ..w1
                },
                None => w1,
            }
        } else {
            w
        },
    }
}

/// The index of the context's next track, once it is ready.
pub open spec fn ready_index(p: PlaybackView) -> Option<int> {
    match p.context {
        None => None,
        Some(x) => if x.tracks.len() == 0 {
            None
        } else if p.queue.shuffle {
            if x.shuffle_bag.len() > 0 && x.shuffle_bag.last() < x.tracks.len() {
                Some(x.shuffle_bag.last() as int)
            } else {
                None
            }
        } else if x.index + 1 < x.tracks.len() {
            Some(x.index + 1)
        } else {
            None
        },
    }
}

/// The stored form of a context.
pub open spec fn context_playlist(x: ContextView) -> PlaylistView {
    PlaylistView {
        id: PlaylistId(NOW_PLAYING_PLAYLIST_ID),
        name: match x.name {
            Some(n) => n,
            None => seq![],
        },
        notes: decimal(x.index as nat),
        items: x.tracks,
    }
}

pub open spec fn w_save_context(w: World) -> World {
    match w.p.context {
        None => w,
        Some(x) => World {
            s: StoreView {
                playlists: w.s.playlists.insert(NOW_PLAYING_PLAYLIST_ID, context_playlist(x)),
                ..w.s
            },
            ..w
        },
    }
}

/// The next track of the context is played, if there is one.
pub open spec fn w_next_in_context(w: World, e: EnvView, c: CacheView) -> (World, bool) {
    let w1 = w_ready(w, e, c);
    match ready_index(w1.p) {
        None => (w1, false),
        Some(i) => {
            let x = w1.p.context->0;
            let y = ContextView {
                index: i as usize,
                shuffle_bag: if w1.p.queue.shuffle {
                    x.shuffle_bag.drop_last()
                } else {
                    x.shuffle_bag
                },
                ..x
            };
            let w2 = w_save_context(World { p: PlaybackView { context: Some(y), ..w1.p }, ..w1 });
            (w_play_now(w2, e, x.tracks[i]), true)
        },
    }
}

pub open spec fn w_stop(w: World) -> World {
    World {
        p: PlaybackView { queue: QueueView { current: None, ..w.p.queue }, ..w.p },
        ev: w.ev.push(CoreEvent::QueueChanged),
        ..w
    }
}

/// What comes after a track: itself where it is repeated, the front of the queue, the next of
/// the context, or nothing. A skip ends the repetition of the track.
pub open spec fn w_advance(w: World, e: EnvView, c: CacheView, manual: bool) -> World {
    let repeat = w.p.queue.repeat == RepeatSetting::RepeatTrack;
    if repeat && !manual && w.p.queue.current is Some {
        w_play_track(w, e, w.p.queue.current->0, true)
    } else {
        let w1 = if repeat && manual {
            World {
                p: PlaybackView {
                    queue: QueueView { repeat: RepeatSetting::RepeatPlaylist, ..w.p.queue },
                    ..w.p
                },
                ..w
            }
        } else {
            w
        };
        if w1.p.queue.queue.len() > 0 {
            let id = w1.p.queue.queue[0];
            let w2 = World {
                p: PlaybackView {
                    queue: requeued(w1.p.queue, w1.p.queue.queue.drop_first()),
                    ..w1.p
                },
                ev: w1.ev.push(CoreEvent::QueueChanged),
                ..w1
            };
            w_play_track(w2, e, id, true)
        } else {
            let (w2, ok) = w_next_in_context(w1, e, c);
            if ok {
                w2
            } else {
                w_stop(w2)
            }
        }
    }
}

impl Playback {
    fn push_effect(&mut self, e: Effect)
        ensures
            final(self)@ == (PlaybackView { effects: old(self)@.effects.push(e@), ..old(self)@ }),
            final(self).queue == old(self).queue,
    {
        self.effects.push(e);
        assert(effect_views(self.effects@) =~= effect_views(old(self).effects@).push(e@));
    }

    /// The address by which a track is exported.
    pub fn export_primary_uri(t: &Track, env: &Env) -> (r: Option<String>)
        ensures
            opt_text(r) == export_uri(env@, t@),
    {
        match Resolver::resolve_track(t, &Target::ExportM3u, &env.present(t)) {
            Resolution::Ready(r) => Some(r.uri),
            Resolution::Gap { .. } => env.cached_path(t),
        }
    }

    pub(crate) fn start_playback(&mut self, t: &Track, r: &Rendition, player: u32, record: bool, env: &Env, catalog: &Catalog, bus: &Bus)
        requires
            old(self).queue.wf(),
        ensures
            world(*final(self), *catalog, *bus) == w_start(
                world(*old(self), *catalog, *bus),
                env@,
                t@,
                r@,
                player,
                record,
            ),
            final(self).queue.wf(),
    {
        self.push_effect(Effect::StopOthers(player));
        if self.skipping {
            self.deferred_seq = self.deferred_seq.wrapping_add(1);
            let seq: u64 = self.deferred_seq;
            self.deferred = Some(Deferred { seq, track: t.id, player, rendition: r.clone() });
            self.push_effect(Effect::DeferLoad(seq));
        } else {
            self.deferred = None;
            self.push_effect(Effect::Load { player, rendition: r.clone() });
        }
        self.now_playing = Some(t.id);
        self.state = PlayerState::Playing;
        self.progress = (0, t.duration_ms);
        self.player = Some(player);
        self.rendition = Some((r.source.clone(), r.uri.clone(), t.id));
        if record {
            if let Some(at) = self.queue.record_played_at(t.id, env.now) {
                let primary = match Playback::export_primary_uri(t, env) {
                    Some(u) => u,
                    None => r.uri.clone(),
                };
                self.push_effect(Effect::AppendHistory { track: t.id, at, primary });
            }
        }
    }

    pub(crate) fn play_from_cache(&mut self, t: &Track, record: bool, env: &Env, catalog: &Catalog, bus: &Bus) -> (ok: bool)
        requires
            old(self).queue.wf(),
        ensures
            (world(*final(self), *catalog, *bus), ok) == w_from_cache(
                world(*old(self), *catalog, *bus),
                env@,
                t@,
                record,
            ),
            final(self).queue.wf(),
    {
        match env.cache_rendition(t) {
            Some(r) => match env.pick_player(&r) {
                Some(player) => {
                    self.start_playback(t, &r, player, record, env, catalog, bus);
                    true
                },
                None => false,
            },
            None => {
                self.pending_fallback = Some(t.id);
                self.push_effect(Effect::DecodeCached(t.id));
                false
            },
        }
    }

    fn warn_play(&mut self, context: &str, title: &str, why: &str)
        ensures
            final(self)@ == (PlaybackView {
                warnings: warned(old(self)@.warnings, context@, cant_play(title@, why@)),
                ..old(self)@
            }),
            final(self).queue == old(self).queue,
    {
        let mut m = "can't play ".to_owned();
        m.append(&quoted(title));
        m.append(": ");
        m.append(why);
        self.warnings.warn(context, &m);
    }

    /// Plays a track. `record` says whether the play goes into the history.
    pub fn play_track(&mut self, id: TrackId, record: bool, env: &Env, catalog: &Catalog, bus: &mut Bus)
        requires
            old(self).queue.wf(),
        ensures
            world(*final(self), *catalog, *final(bus)) == w_play_track(
                world(*old(self), *catalog, *old(bus)),
                env@,
                id,
                record,
            ),
            final(self).queue.wf(),
    {
        self.pending_fallback = None;
        self.failed_sources = Vec::new();
        assert(source_views(self.failed_sources@) =~= seq![]);
        let same: bool = match self.queue.get_current() {
            Some(c) => c == id,
            None => false,
        };
        if !same {
            self.queue.set_current(Some(id), bus);
        }
        let t = match catalog.store.get_track(id) {
            Some(t) => t,
            None => {
                return;
            },
        };
        match Resolver::resolve_track(&t, &Target::Playback, &env.present(&t)) {
            Resolution::Ready(r) => match env.pick_player(&r) {
                Some(player) => {
                    self.start_playback(&t, &r, player, record, env, catalog, bus);
                },
                None => {
                    if !self.play_from_cache(&t, record, env, catalog, bus) {
                        self.warn_play(r.source.as_str(), &t.title, "no player registered");
                    }
                },
            },
            Resolution::Gap { reason } => {
                if !self.play_from_cache(&t, record, env, catalog, bus) {
                    self.warn_play("playback", &t.title, &reason);
                }
            },
        }
    }

    /// Plays a track now; one that waits in the queue is taken out of it.
    pub fn play_now(&mut self, id: TrackId, env: &Env, catalog: &Catalog, bus: &mut Bus)
        requires
            old(self).queue.wf(),
        ensures
            world(*final(self), *catalog, *final(bus)) == w_play_now(
                world(*old(self), *catalog, *old(bus)),
                env@,
                id,
            ),
            final(self).queue.wf(),
    {
        self.queue.remove_track(id, bus);
        self.play_track(id, true, env, catalog, bus);
    }

    /// Makes the context ready for its next track, and says where that is.
    pub fn next_context_index(&mut self, env: &Env, cache: &ViewCache, catalog: &Catalog, bus: &Bus) -> (r: Option<usize>)
        requires
            old(self).queue.wf(),
        ensures
            world(*final(self), *catalog, *bus) == w_ready(
                world(*old(self), *catalog, *bus),
                env@,
                cache@,
            ),
            match r {
                Some(i) => ready_index(final(self)@) == Some(i as int),
                None => ready_index(final(self)@) is None,
            },
            final(self).queue.wf(),
    {
        let shuffle: bool = self.queue.get_shuffle();
        let mut context: Option<PlaybackContext> = None;
        std::mem::swap(&mut context, &mut self.context);
        let x = match context {
            None => {
                return None;
            },
            Some(x) => x,
        };
        let mut x = x;
        let n: usize = x.tracks.len();
        let mut found: Option<usize> = None;
        if n > 0 {
            if shuffle {
                if x.shuffle_bag.len() == 0 {
                    x.shuffle_bag = deal(&env.deal, x.index);
                }
                let m: usize = x.shuffle_bag.len();
                if m > 0 && x.shuffle_bag[m - 1] < n {
                    found = Some(x.shuffle_bag[m - 1]);
                }
            } else {
                if x.index >= n - 1 {
                    if let Some((source, node)) = &x.remote {
                        let ghost before = self.effects@;
                        let look = Effect::LookAt { source: source.clone(), node: node.clone() };
                        self.effects.push(look);
                        assert(effect_views(self.effects@) =~= effect_views(before).push(look@));
                        let live = cache.live_ids(source, node, &catalog.store);
                        if live.len() > n {
                            x.tracks = live;
                            self.context_gen = self.context_gen.wrapping_add(1);
                        }
                    }
                }
                if x.tracks.len() - 1 > x.index {
                    found = Some(x.index + 1);
                }
            }
        }
        self.context = Some(x);
        found
    }

    /// Stores the context, so that it is there again at the next start.
    pub fn save_now_playing_context(&self, catalog: &mut Catalog)
        ensures
            final(catalog).store@ == (match self@.context {
                Some(x) => StoreView {
                    playlists: old(catalog).store@.playlists.insert(
                        NOW_PLAYING_PLAYLIST_ID,
                        context_playlist(x),
                    ),
                    ..old(catalog).store@
                },
                None => old(catalog).store@,
            }),
            final(catalog).playlists_gen == old(catalog).playlists_gen,
            final(catalog).removed_gen == old(catalog).removed_gen,
    {
        if let Some(x) = &self.context {
            let mut notes: Vec<char> = Vec::new();
            append_decimal(&mut notes, x.index as u64);
            assert(notes@ =~= decimal(x.index as nat));
            let name = match &x.name {
                Some(n) => n.clone(),
                None => String::new(),
            };
            let p = Playlist {
                id: PlaylistId(NOW_PLAYING_PLAYLIST_ID),
                name,
                notes: string_of(&notes),
                items: crate::types::clone_ids(&x.tracks),
            };
            assert(p@ == context_playlist(x@));
            catalog.store.upsert_playlist(&p);
        }
    }

    /// Plays the next track of the context, if there is one.
    pub fn play_next_in_context(&mut self, env: &Env, cache: &ViewCache, catalog: &mut Catalog, bus: &mut Bus) -> (ok: bool)
        requires
            old(self).queue.wf(),
        ensures
            (world(*final(self), *final(catalog), *final(bus)), ok) == w_next_in_context(
                world(*old(self), *old(catalog), *old(bus)),
                env@,
                cache@,
            ),
            final(self).queue.wf(),
            final(catalog).playlists_gen == old(catalog).playlists_gen,
            final(catalog).removed_gen == old(catalog).removed_gen,
    {
        let i: usize = match self.next_context_index(env, cache, catalog, bus) {
            Some(i) => i,
            None => {
                return false;
            },
        };
        let shuffle: bool = self.queue.get_shuffle();
        let mut context: Option<PlaybackContext> = None;
        std::mem::swap(&mut context, &mut self.context);
        let x = match context {
            Some(x) => x,
            None => {
                return false;
            },
        };
        let mut x = x;
        if shuffle {
            let ghost bag = x.shuffle_bag@;
            x.shuffle_bag.pop();
            assert(x.shuffle_bag@ =~= bag.drop_last());
        }
        let id = x.tracks[i];
        x.index = i;
        self.context = Some(x);
        self.save_now_playing_context(catalog);
        self.play_now(id, env, catalog, bus);
        true
    }

    /// Goes on to what comes after the track that plays. `manual` is for a skip.
    pub fn advance(&mut self, manual: bool, env: &Env, cache: &ViewCache, catalog: &mut Catalog, bus: &mut Bus)
        requires
            old(self).queue.wf(),
        ensures
            world(*final(self), *final(catalog), *final(bus)) == w_advance(
                world(*old(self), *old(catalog), *old(bus)),
                env@,
                cache@,
                manual,
            ),
            final(self).queue.wf(),
            final(catalog).playlists_gen == old(catalog).playlists_gen,
            final(catalog).removed_gen == old(catalog).removed_gen,
    {
        if self.queue.get_repeat() == RepeatSetting::RepeatTrack {
            if manual {
                self.queue.set_repeat(RepeatSetting::RepeatPlaylist);
            } else if let Some(id) = self.queue.get_current() {
                self.play_track(id, true, env, catalog, bus);
                return;
            }
        }
        if let Some(id) = self.queue.pop_front(bus) {
            self.play_track(id, true, env, catalog, bus);
            return;
        }
        if self.play_next_in_context(env, cache, catalog, bus) {
            return;
        }
        self.queue.stop(bus);
    }
}

/// An order by chance without the track that plays, unless that is the only one.
pub fn deal(order: &Vec<usize>, index: usize) -> (r: Vec<usize>)
    ensures
        r@ == dealt(order@, index),
{
    let ghost other = other_than(index);
    let n: usize = order.len();
    let mut out: Vec<usize> = Vec::new();
    let mut i: usize = 0;
    proof {
        reveal(Seq::filter);
        assert(out@ =~= order@.take(0).filter(other));
    }
    while i < n
        invariant
            i <= n == order@.len(),
            other == other_than(index),
            n > 1 ==> out@ == order@.take(i as int).filter(other),
            n <= 1 ==> out@ == order@.take(i as int),
        decreases n - i,
    {
        proof {
            order@.take(i as int).lemma_filter_push(order@[i as int], other);
            assert(order@.take(i + 1) =~= order@.take(i as int).push(order@[i as int]));
        }
        if n == 1 || order[i] != index {
            out.push(order[i]);
        }
        i = i + 1;
    }
    assert(order@.take(i as int) =~= order@);
    out
}

} // verus!
