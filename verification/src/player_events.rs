//! What playback makes of the reports of the players and of the keys that steer it.

use vstd::prelude::*;
use crate::catalog::Catalog;
use crate::env::{picked_player, presence, Env, EnvView};
use crate::event::{Bus, CoreEvent, PlayerEvent};
use crate::playback::{
    effect_views, ready_index, w_advance, w_from_cache, w_play_now, w_play_track, w_ready, w_save_context, w_start,
    w_stop, w_warn, world, ContextView, Deferred, Effect, EffectView, Playback, PlaybackContext, PlaybackView, World,
    MAX_LOAD_FAILURES, SKIP_DEBOUNCE,
};
use crate::queue::{bumped, requeued, stepped_back, RepeatSetting};
use crate::resolver::{resolved, resolved_excluding, source_views, Resolution, ResolutionView, Resolver, Target, TargetView};
use crate::scan::within;
use crate::store::{by_rendition_of, track_of, upserted, StoreView};
use crate::text::{debug_text, quoted};
use crate::traits::{PlayerState, PlayerStatus};
use crate::types::{SourceId, Track, TrackId, TrackView};
use crate::view_cache::{CacheView, ViewCache};

verus! {

/// The track that a player's report is about: what was handed to the player, or else the track
/// with that rendition.
pub open spec fn event_track_of(w: World, source: Seq<char>, uri: Seq<char>) -> Option<TrackId> {
    match w.p.rendition {
        Some((s, u, id)) => if s == source && u == uri {
            Some(id)
        } else {
            stored_track(w.s, source, uri)
        },
        None => stored_track(w.s, source, uri),
    }
}

pub open spec fn stored_track(s: StoreView, source: Seq<char>, uri: Seq<char>) -> Option<TrackId> {
    match by_rendition_of(s, source, uri) {
        Some(t) => Some(t.id),
        None => None,
    }
}

/// A track whose length is not known gets one.
pub open spec fn w_learn(w: World, id: TrackId, duration_ms: u32) -> World {
    match track_of(w.s, id) {
        None => w,
        Some(t) => World {
            s: upserted(
                w.s,
                TrackView {
                    duration_ms: if t.duration_ms == 0 {
                        duration_ms
                    } else {
                        t.duration_ms
                    },
                    ..t
                },
            ),
            ev: w.ev.push(CoreEvent::TrackUpdated(id)),
            ..w
        },
    }
}

/// The length that the library has for the current track.
pub open spec fn known_length(w: World) -> u32 {
    match w.p.queue.current {
        Some(id) => match track_of(w.s, id) {
            Some(t) => t.duration_ms,
            None => 0,
        },
        None => 0,
    }
}

/// Position and length as the player has them; without a length of its own the library's is
/// taken, and a length that the library lacks is learnt.
pub open spec fn w_progress(w: World, position_ms: u32, player_ms: u32) -> World {
    if player_ms > 0 {
        let w1 = if w.p.progress.1 == 0 && w.p.queue.current is Some {
            w_learn(w, w.p.queue.current->0, player_ms)
        } else {
            w
        };
        World { p: PlaybackView { progress: (position_ms, player_ms), ..w1.p }, ..w1 }
    } else {
        World { p: PlaybackView { progress: (position_ms, known_length(w)), ..w.p }, ..w }
    }
}

pub open spec fn w_status(w: World, status: PlayerStatus, state: Option<PlayerState>) -> World {
    let w1 = World {
        p: PlaybackView {
            state: match state {
                Some(s) => s,
                None => status.state,
            },
            ..w.p
        },
        ..w
    };
    w_progress(w1, status.position_ms, status.duration_ms)
}

pub open spec fn w_effect(w: World, e: EffectView) -> World {
    World { p: PlaybackView { effects: w.p.effects.push(e), ..w.p }, ..w }
}

/// The track that comes next, once the context is ready.
pub open spec fn upcoming(w: World) -> Option<TrackId> {
    if w.p.queue.repeat == RepeatSetting::RepeatTrack && w.p.queue.current is Some {
        w.p.queue.current
    } else if w.p.queue.queue.len() > 0 {
        Some(w.p.queue.queue[0])
    } else {
        match ready_index(w.p) {
            Some(i) => Some(w.p.context->0.tracks[i]),
            None => None,
        }
    }
}

/// Whether the context decides what comes next.
pub open spec fn context_decides(w: World) -> bool {
    !(w.p.queue.repeat == RepeatSetting::RepeatTrack && w.p.queue.current is Some) && w.p.queue.queue.len() == 0
}

pub open spec fn w_upcoming(w: World, e: EnvView, c: CacheView) -> World {
    if context_decides(w) {
        w_ready(w, e, c)
    } else {
        w
    }
}

/// What comes next is warmed up, where the player that plays will play it.
pub open spec fn w_preload(w: World, e: EnvView, c: CacheView) -> World {
    let w1 = w_upcoming(w, e, c);
    match upcoming(w1) {
        None => w1,
        Some(id) => match track_of(w1.s, id) {
            None => w1,
            Some(t) => match resolved(t, TargetView::Playback, presence(e, t)) {
                ResolutionView::Ready(r) => match (picked_player(e.players, r.source, r.uri), w1.p.player) {
                    (Some(next), Some(active)) => if next == active {
                        w_effect(w1, EffectView::Preload { player: active, rendition: r })
                    } else {
                        w1
                    },
                    _ => w1,
                },
                ResolutionView::Gap(_) => w1,
            },
        },
    }
}

pub open spec fn load_failed_text(title: Seq<char>, uri: Seq<char>) -> Seq<char> {
    "playback failed for "@ + debug_text(title) + " ("@ + uri + ")"@
}

/// A track failed for good: the next one is played, until too many have failed in a row.
pub open spec fn w_give_up(w: World, e: EnvView, c: CacheView, source: Seq<char>, uri: Seq<char>, t: TrackView) -> World {
    let w1 = w_warn(w, source, load_failed_text(t.title, uri));
    if w1.p.load_failures + 1 < MAX_LOAD_FAILURES {
        w_advance(
            World { p: PlaybackView { load_failures: (w1.p.load_failures + 1) as u32, ..w1.p }, ..w1 },
            e,
            c,
            false,
        )
    } else {
        let w2 = w_stop(World { p: PlaybackView { load_failures: 0, ..w1.p }, ..w1 });
        w_warn(
            World { p: PlaybackView { now_playing: None, ..w2.p }, ..w2 },
            "playback"@,
            "stopped: 3 tracks in a row failed to load"@,
        )
    }
}

/// A rendition failed to load: the next best of the track is tried, then the cache, then the
/// next track.
#[verifier::opaque]
pub open spec fn w_load_failed(w: World, e: EnvView, c: CacheView, source: Seq<char>, uri: Seq<char>) -> World {
    let w1 = World { p: PlaybackView { state: PlayerState::Stopped, ..w.p }, ..w };
    match event_track_of(w1, source, uri) {
        None => w1,
        Some(id) => if w1.p.queue.current != Some(id) || track_of(w1.s, id) is None {
            w1
        } else {
            let t = w1.s.tracks[id.0];
            let w2 = World {
                p: PlaybackView { failed_sources: w1.p.failed_sources.push(source), ..w1.p },
                ..w1
            };
            match resolved_excluding(t, w2.p.failed_sources, presence(e, t)) {
                ResolutionView::Ready(r) => match picked_player(e.players, r.source, r.uri) {
                    Some(player) => w_start(w2, e, t, r, player, true),
                    None => w_last_resort(w2, e, c, source, uri, t),
                },
                ResolutionView::Gap(_) => w_last_resort(w2, e, c, source, uri, t),
            }
        },
    }
}

pub open spec fn w_last_resort(w: World, e: EnvView, c: CacheView, source: Seq<char>, uri: Seq<char>, t: TrackView) -> World {
    let (w1, ok) = w_from_cache(
        World { p: PlaybackView { pending_fallback: None, ..w.p }, ..w },
        e,
        t,
        true,
    );
    if ok {
        w1
    } else {
        w_give_up(w1, e, c, source, uri, t)
    }
}

/// A rendition played to its end.
#[verifier::opaque]
pub open spec fn w_finished(w: World, e: EnvView, c: CacheView, source: Seq<char>, uri: Seq<char>) -> World {
    match event_track_of(w, source, uri) {
        None => w,
        Some(id) => if w.p.queue.current != Some(id) {
            w
        } else {
            let (drained, known) = w.p.progress;
            let w1 = if known == 0 && drained > 0 {
                w_learn(w, id, drained)
            } else {
                w
            };
            w_advance(w1, e, c, false)
        },
    }
}

/// A rendition loads, or plays.
pub open spec fn w_loading(w: World, source: Seq<char>, uri: Seq<char>, playing: bool, status: PlayerStatus) -> World {
    let w1 = match event_track_of(w, source, uri) {
        None => w,
        Some(id) => {
            let w2 = World { p: PlaybackView { now_playing: Some(id), ..w.p }, ..w };
            if playing {
                w_effect(w2, EffectView::Prioritize(id))
            } else {
                w2
            }
        },
    };
    let w3 = if playing {
        World { p: PlaybackView { load_failures: 0, ..w1.p }, ..w1 }
    } else {
        w1
    };
    if w3.p.player is Some {
        w_status(
            w3,
            status,
            if playing {
                Some(PlayerState::Playing)
            } else {
                None
            },
        )
    } else if playing {
        World { p: PlaybackView { state: PlayerState::Playing, ..w3.p }, ..w3 }
    } else {
        w3
    }
}

/// What playback makes of a player's report.
pub open spec fn w_player_event(w: World, e: EnvView, c: CacheView, ev: PlayerEvent, status: PlayerStatus) -> World {
    match ev {
        PlayerEvent::Loading { source, uri } => w_loading(w, source@, uri@, false, status),
        PlayerEvent::Playing { source, uri } => w_loading(w, source@, uri@, true, status),
        PlayerEvent::Progress { position_ms, duration_ms } => w_progress(w, position_ms, duration_ms),
        PlayerEvent::Paused => World { p: PlaybackView { state: PlayerState::Paused, ..w.p }, ..w },
        PlayerEvent::Stopped => World { p: PlaybackView { state: PlayerState::Stopped, ..w.p }, ..w },
        PlayerEvent::Finished { source, uri } => w_finished(w, e, c, source@, uri@),
        PlayerEvent::PreloadHint { source, uri } => if event_track_of(w, source@, uri@) is Some && event_track_of(
            w,
            source@,
            uri@,
        ) == w.p.queue.current {
            w_preload(w, e, c)
        } else {
            w
        },
        PlayerEvent::LoadFailed { source, uri } => w_load_failed(w, e, c, source@, uri@),
        PlayerEvent::Materialized { source, uri } => match event_track_of(w, source@, uri@) {
            Some(id) => w_effect(w, EffectView::Prioritize(id)),
            None => w,
        },
    }
}

/// Whether a skip follows another closely, and the time of this one.
pub open spec fn w_skip(w: World, ms: u64) -> World {
    World {
        p: PlaybackView {
            skipping: w.p.last_skip matches Some(t) && within(t, ms, SKIP_DEBOUNCE),
            last_skip: Some(ms),
            ..w.p
        },
        ..w
    }
}

pub open spec fn w_skipped(w: World) -> World {
    World { p: PlaybackView { skipping: false, ..w.p }, ..w }
}

pub open spec fn w_next(w: World, e: EnvView, c: CacheView) -> World {
    w_skipped(w_advance(w_skip(w, e.ms), e, c, true))
}

/// Back to the play before this one; what plays goes to the front of the queue.
pub open spec fn w_previous(w: World, e: EnvView) -> World {
    let h = w.p.queue.history;
    let w1 = World {
        p: PlaybackView {
            queue: stepped_back(w.p.queue),
            ..w.p
        },
        ..w
    };
    if h.len() <= 1 {
        w1
    } else {
        let w2 = match w1.p.now_playing {
            Some(id) => World {
                p: PlaybackView {
                    queue: requeued(w1.p.queue, seq![id] + w1.p.queue.queue),
                    ..w1.p
                },
                ev: w1.ev.push(CoreEvent::QueueChanged),
                ..w1
            },
            None => w1,
        };
        w_skipped(w_play_track(w_skip(w2, e.ms), e, h[h.len() - 2].0, false))
    }
}

/// A list is played from one of its rows on.
pub open spec fn w_play_context(w: World, e: EnvView, x: ContextView) -> World {
    if x.index < x.tracks.len() {
        w_play_now(
            w_save_context(
                World {
                    p: PlaybackView {
                        context: Some(ContextView { shuffle_bag: seq![], ..x }),
                        context_gen: bumped(w.p.context_gen),
                        ..w.p
                    },
                    ..w
                },
            ),
            e,
            x.tracks[x.index as int],
        )
    } else {
        w
    }
}

/// The wait of a skip is over: its track is loaded, unless another has taken its place.
pub open spec fn w_deferred(w: World, seq: u64) -> World {
    match w.p.deferred {
        Some(d) => if d.seq == seq {
            let w1 = World { p: PlaybackView { deferred: None, ..w.p }, ..w };
            if w.p.queue.current == Some(d.track) {
                w_effect(w1, EffectView::Load { player: d.player, rendition: d.rendition })
            } else {
                w1
            }
        } else {
            w
        },
        None => w,
    }
}

/// A track is in the cache now: it is played, if it is still wanted.
pub open spec fn w_cache_ready(w: World, e: EnvView, id: TrackId) -> World {
    if w.p.pending_fallback == Some(id) && track_of(w.s, id) is Some {
        w_from_cache(
            World { p: PlaybackView { pending_fallback: None, ..w.p }, ..w },
            e,
            w.s.tracks[id.0],
            true,
        ).0
    } else {
        w
    }
}

impl Playback {
    /// The track that a player's report is about.
    pub fn event_track(&self, source: &SourceId, uri: &str, catalog: &Catalog, bus: &Bus) -> (r: Option<TrackId>)
        ensures
            r == event_track_of(world(*self, *catalog, *bus), source@, uri@),
    {
        if let Some((s, u, id)) = &self.rendition {
            if s.same(source) && crate::text::same_text(u, uri) {
                return Some(*id);
            }
        }
        match catalog.store.track_by_rendition(source, uri) {
            Some(t) => Some(t.id),
            None => None,
        }
    }

    fn add_effect(&mut self, e: Effect)
        ensures
            final(self)@ == (PlaybackView { effects: old(self)@.effects.push(e@), ..old(self)@ }),
            final(self).queue == old(self).queue,
    {
        self.effects.push(e);
        assert(effect_views(self.effects@) =~= effect_views(old(self).effects@).push(e@));
    }

    fn learn_duration(&self, id: TrackId, duration_ms: u32, catalog: &mut Catalog, bus: &mut Bus)
        ensures
            world(*self, *final(catalog), *final(bus)) == w_learn(
                world(*self, *old(catalog), *old(bus)),
                id,
                duration_ms,
            ),
            final(catalog).playlists_gen == old(catalog).playlists_gen,
            final(catalog).removed_gen == old(catalog).removed_gen,
    {
        if let Some(t) = catalog.store.get_track(id) {
            let mut t = t;
            if t.duration_ms == 0 {
                t.duration_ms = duration_ms;
            }
            catalog.store.upsert_track(&t);
            bus.send(CoreEvent::TrackUpdated(id));
        }
    }

    fn update_progress(&mut self, position_ms: u32, player_ms: u32, catalog: &mut Catalog, bus: &mut Bus)
        ensures
            world(*final(self), *final(catalog), *final(bus)) == w_progress(
                world(*old(self), *old(catalog), *old(bus)),
                position_ms,
                player_ms,
            ),
            final(self).queue == old(self).queue,
            final(catalog).playlists_gen == old(catalog).playlists_gen,
            final(catalog).removed_gen == old(catalog).removed_gen,
    {
        if player_ms > 0 {
            if self.progress.1 == 0 {
                if let Some(id) = self.queue.get_current() {
                    self.learn_duration(id, player_ms, catalog, bus);
                }
            }
            self.progress = (position_ms, player_ms);
            return;
        }
        let known: u32 = match self.queue.get_current() {
            Some(id) => match catalog.store.get_track(id) {
                Some(t) => t.duration_ms,
                None => 0,
            },
            None => 0,
        };
        self.progress = (position_ms, known);
    }

    /// Takes a player's status; `state` stands in for its own.
    pub fn set_status(&mut self, status: &PlayerStatus, state: Option<PlayerState>, catalog: &mut Catalog, bus: &mut Bus)
        ensures
            world(*final(self), *final(catalog), *final(bus)) == w_status(
                world(*old(self), *old(catalog), *old(bus)),
                *status,
                state,
            ),
            final(self).queue == old(self).queue,
            final(catalog).playlists_gen == old(catalog).playlists_gen,
            final(catalog).removed_gen == old(catalog).removed_gen,
    {
        self.state = match state {
            Some(s) => s,
            None => status.state,
        };
        self.update_progress(status.position_ms, status.duration_ms, catalog, bus);
    }

    /// The track that comes next; nothing is started.
    pub fn upcoming_track(&mut self, env: &Env, cache: &ViewCache, catalog: &Catalog, bus: &Bus) -> (r: Option<TrackId>)
        requires
            old(self).queue.wf(),
        ensures
            world(*final(self), *catalog, *bus) == w_upcoming(
                world(*old(self), *catalog, *bus),
                env@,
                cache@,
            ),
            r == upcoming(world(*final(self), *catalog, *bus)),
            final(self).queue.wf(),
    {
        if self.queue.get_repeat() == RepeatSetting::RepeatTrack {
            if let Some(id) = self.queue.get_current() {
                return Some(id);
            }
        }
        let front = self.queue.window(0, 1);
        if front.len() > 0 {
            return Some(front[0]);
        }
        match self.next_context_index(env, cache, catalog, bus) {
            None => None,
            Some(i) => match &self.context {
                Some(x) => Some(x.tracks[i]),
                None => None,
            },
        }
    }

    fn preload_upcoming(&mut self, env: &Env, cache: &ViewCache, catalog: &Catalog, bus: &Bus)
        requires
            old(self).queue.wf(),
        ensures
            world(*final(self), *catalog, *bus) == w_preload(
                world(*old(self), *catalog, *bus),
                env@,
                cache@,
            ),
            final(self).queue.wf(),
    {
        let id = match self.upcoming_track(env, cache, catalog, bus) {
            Some(id) => id,
            None => {
                return;
            },
        };
        let t = match catalog.store.get_track(id) {
            Some(t) => t,
            None => {
                return;
            },
        };
        if let Resolution::Ready(r) = Resolver::resolve_track(&t, &Target::Playback, &env.present(&t)) {
            if let (Some(next), Some(active)) = (env.pick_player(&r), self.player) {
                if next == active {
                    self.add_effect(Effect::Preload { player: active, rendition: r });
                }
            }
        }
    }

    fn give_up(&mut self, source: &SourceId, uri: &str, t: &Track, env: &Env, cache: &ViewCache, catalog: &mut Catalog, bus: &mut Bus)
        requires
            old(self).queue.wf(),
        ensures
            world(*final(self), *final(catalog), *final(bus)) == w_give_up(
                world(*old(self), *old(catalog), *old(bus)),
                env@,
                cache@,
                source@,
                uri@,
                t@,
            ),
            final(self).queue.wf(),
            final(catalog).playlists_gen == old(catalog).playlists_gen,
            final(catalog).removed_gen == old(catalog).removed_gen,
    {
        let mut m = "playback failed for ".to_owned();
        m.append(&quoted(&t.title));
        m.append(" (");
        m.append(uri);
        m.append(")");
        self.warnings.warn(source.as_str(), &m);
        if self.load_failures < MAX_LOAD_FAILURES - 1 {
            self.load_failures = self.load_failures + 1;
            self.advance(false, env, cache, catalog, bus);
        } else {
            self.load_failures = 0;
            self.queue.stop(bus);
            self.now_playing = None;
            self.warnings.warn("playback", "stopped: 3 tracks in a row failed to load");
        }
    }

    fn last_resort(&mut self, source: &SourceId, uri: &str, t: &Track, env: &Env, cache: &ViewCache, catalog: &mut Catalog, bus: &mut Bus)
        requires
            old(self).queue.wf(),
        ensures
            world(*final(self), *final(catalog), *final(bus)) == w_last_resort(
                world(*old(self), *old(catalog), *old(bus)),
                env@,
                cache@,
                source@,
                uri@,
                t@,
            ),
            final(self).queue.wf(),
            final(catalog).playlists_gen == old(catalog).playlists_gen,
            final(catalog).removed_gen == old(catalog).removed_gen,
    {
        self.pending_fallback = None;
        if !self.play_from_cache(t, true, env, catalog, bus) {
            self.give_up(source, uri, t, env, cache, catalog, bus);
        }
    }

    fn load_failed(&mut self, source: &SourceId, uri: &str, env: &Env, cache: &ViewCache, catalog: &mut Catalog, bus: &mut Bus)
        requires
            old(self).queue.wf(),
        ensures
            world(*final(self), *final(catalog), *final(bus)) == w_load_failed(
                world(*old(self), *old(catalog), *old(bus)),
                env@,
                cache@,
                source@,
                uri@,
            ),
            final(self).queue.wf(),
            final(catalog).playlists_gen == old(catalog).playlists_gen,
            final(catalog).removed_gen == old(catalog).removed_gen,
    {
        reveal(w_load_failed);
        self.state = PlayerState::Stopped;
        let id = match self.event_track(source, uri, catalog, bus) {
            Some(id) => id,
            None => {
                return;
            },
        };
        let current: bool = match self.queue.get_current() {
            Some(c) => c == id,
            None => false,
        };
        if !current {
            return;
        }
        let t = match catalog.store.get_track(id) {
            Some(t) => t,
            None => {
                return;
            },
        };
        let ghost failed = self.failed_sources@;
        self.failed_sources.push(source.clone());
        assert(source_views(self.failed_sources@) =~= source_views(failed).push(source@));
        match Resolver::resolve_playback_excluding(&t, &self.failed_sources, &env.present(&t)) {
            Resolution::Ready(r) => match env.pick_player(&r) {
                Some(player) => {
                    self.start_playback(&t, &r, player, true, env, catalog, bus);
                },
                None => {
                    self.last_resort(source, uri, &t, env, cache, catalog, bus);
                },
            },
            Resolution::Gap { .. } => {
                self.last_resort(source, uri, &t, env, cache, catalog, bus);
            },
        }
    }

    fn finished(&mut self, source: &SourceId, uri: &str, env: &Env, cache: &ViewCache, catalog: &mut Catalog, bus: &mut Bus)
        requires
            old(self).queue.wf(),
        ensures
            world(*final(self), *final(catalog), *final(bus)) == w_finished(
                world(*old(self), *old(catalog), *old(bus)),
                env@,
                cache@,
                source@,
                uri@,
            ),
            final(self).queue.wf(),
            final(catalog).playlists_gen == old(catalog).playlists_gen,
            final(catalog).removed_gen == old(catalog).removed_gen,
    {
        reveal(w_finished);
        let id = match self.event_track(source, uri, catalog, bus) {
            Some(id) => id,
            None => {
                return;
            },
        };
        let current: bool = match self.queue.get_current() {
            Some(c) => c == id,
            None => false,
        };
        if !current {
            return;
        }
        let (drained, known) = self.progress;
        if known == 0 && drained > 0 {
            self.learn_duration(id, drained, catalog, bus);
        }
        self.advance(false, env, cache, catalog, bus);
    }

    fn loading(&mut self, source: &SourceId, uri: &str, playing: bool, status: &PlayerStatus, catalog: &mut Catalog, bus: &mut Bus)
        requires
            old(self).queue.wf(),
        ensures
            world(*final(self), *final(catalog), *final(bus)) == w_loading(
                world(*old(self), *old(catalog), *old(bus)),
                source@,
                uri@,
                playing,
                *status,
            ),
            final(self).queue.wf(),
            final(catalog).playlists_gen == old(catalog).playlists_gen,
            final(catalog).removed_gen == old(catalog).removed_gen,
    {
        if let Some(id) = self.event_track(source, uri, catalog, bus) {
            self.now_playing = Some(id);
            if playing {
                self.add_effect(Effect::Prioritize(id));
            }
        }
        if playing {
            self.load_failures = 0;
        }
        let state = if playing {
            Some(PlayerState::Playing)
        } else {
            None
        };
        if self.player.is_some() {
            self.set_status(status, state, catalog, bus);
        } else if playing {
            self.state = PlayerState::Playing;
        }
    }

    /// Takes a player's report; `status` is how the player that plays stands. Says whether
    /// anything that is shown may have changed.
    pub fn on_player_event(&mut self, ev: &PlayerEvent, status: &PlayerStatus, env: &Env, cache: &ViewCache, catalog: &mut Catalog, bus: &mut Bus) -> (r: bool)
        requires
            old(self).queue.wf(),
        ensures
            world(*final(self), *final(catalog), *final(bus)) == w_player_event(
                world(*old(self), *old(catalog), *old(bus)),
                env@,
                cache@,
                *ev,
                *status,
            ),
            r == !(ev is PreloadHint),
            final(self).queue.wf(),
            final(catalog).playlists_gen == old(catalog).playlists_gen,
            final(catalog).removed_gen == old(catalog).removed_gen,
    {
        match ev {
            PlayerEvent::Loading { source, uri } => {
                self.loading(source, uri, false, status, catalog, bus);
                true
            },
            PlayerEvent::Playing { source, uri } => {
                self.loading(source, uri, true, status, catalog, bus);
                true
            },
            PlayerEvent::Progress { position_ms, duration_ms } => {
                self.update_progress(*position_ms, *duration_ms, catalog, bus);
                true
            },
            PlayerEvent::Paused => {
                self.state = PlayerState::Paused;
                true
            },
            PlayerEvent::Stopped => {
                self.state = PlayerState::Stopped;
                true
            },
            PlayerEvent::Finished { source, uri } => {
                self.finished(source, uri, env, cache, catalog, bus);
                true
            },
            PlayerEvent::PreloadHint { source, uri } => {
                if let Some(id) = self.event_track(source, uri, catalog, bus) {
                    let current: bool = match self.queue.get_current() {
                        Some(c) => c == id,
                        None => false,
                    };
                    if current {
                        self.preload_upcoming(env, cache, catalog, bus);
                    }
                }
                false
            },
            PlayerEvent::LoadFailed { source, uri } => {
                self.load_failed(source, uri, env, cache, catalog, bus);
                true
            },
            PlayerEvent::Materialized { source, uri } => {
                if let Some(id) = self.event_track(source, uri, catalog, bus) {
                    self.add_effect(Effect::Prioritize(id));
                }
                true
            },
        }
    }

    fn skip(&mut self, ms: u64)
        ensures
            final(self)@ == (PlaybackView {
                skipping: old(self)@.last_skip matches Some(t) && within(t, ms, SKIP_DEBOUNCE),
                last_skip: Some(ms),
                ..old(self)@
            }),
            final(self).queue == old(self).queue,
    {
        self.skipping = match self.last_skip {
            Some(t) => ms.saturating_sub(t) < SKIP_DEBOUNCE,
            None => false,
        };
        self.last_skip = Some(ms);
    }

    /// Skips to what comes next.
    pub fn next(&mut self, env: &Env, cache: &ViewCache, catalog: &mut Catalog, bus: &mut Bus)
        requires
            old(self).queue.wf(),
        ensures
            world(*final(self), *final(catalog), *final(bus)) == w_next(
                world(*old(self), *old(catalog), *old(bus)),
                env@,
                cache@,
            ),
            final(self).queue.wf(),
            final(catalog).playlists_gen == old(catalog).playlists_gen,
            final(catalog).removed_gen == old(catalog).removed_gen,
    {
        self.skip(env.ms);
        self.advance(true, env, cache, catalog, bus);
        self.skipping = false;
    }

    /// Goes back to the play before this one; says whether what played went to the front of the
    /// queue.
    pub fn previous(&mut self, env: &Env, catalog: &Catalog, bus: &mut Bus) -> (wedged: bool)
        requires
            old(self).queue.wf(),
        ensures
            world(*final(self), *catalog, *final(bus)) == w_previous(
                world(*old(self), *catalog, *old(bus)),
                env@,
            ),
            wedged == (old(self)@.queue.history.len() > 1 && old(self)@.now_playing is Some),
            final(self).queue.wf(),
    {
        let just = self.now_playing;
        let id = match self.queue.previous_from_history() {
            Some(id) => id,
            None => {
                return false;
            },
        };
        if let Some(playing) = just {
            self.queue.play_next(playing, bus);
        }
        self.skip(env.ms);
        self.play_track(id, false, env, catalog, bus);
        self.skipping = false;
        just.is_some()
    }

    /// Plays a list from one of its rows on, and goes on with it later; a row outside it is
    /// ignored.
    pub fn play_context(&mut self, x: PlaybackContext, env: &Env, catalog: &mut Catalog, bus: &mut Bus)
        requires
            old(self).queue.wf(),
        ensures
            world(*final(self), *final(catalog), *final(bus)) == w_play_context(
                world(*old(self), *old(catalog), *old(bus)),
                env@,
                x@,
            ),
            final(self).queue.wf(),
            final(catalog).playlists_gen == old(catalog).playlists_gen,
            final(catalog).removed_gen == old(catalog).removed_gen,
    {
        let mut x = x;
        if x.index >= x.tracks.len() {
            return;
        }
        let id = x.tracks[x.index];
        x.shuffle_bag = Vec::new();
        assert(x.shuffle_bag@ =~= seq![]);
        self.context = Some(x);
        self.context_gen = self.context_gen.wrapping_add(1);
        self.save_now_playing_context(catalog);
        self.play_now(id, env, catalog, bus);
    }

    /// The wait of a skip is over.
    pub fn on_deferred_load(&mut self, seq: u64, catalog: &Catalog, bus: &Bus)
        ensures
            world(*final(self), *catalog, *bus) == w_deferred(world(*old(self), *catalog, *bus), seq),
            final(self).queue == old(self).queue,
    {
        let mut d: Option<Deferred> = None;
        std::mem::swap(&mut d, &mut self.deferred);
        if let Some(d) = d {
            if d.seq == seq {
                let current: bool = match self.queue.get_current() {
                    Some(c) => c == d.track,
                    None => false,
                };
                if current {
                    self.add_effect(Effect::Load { player: d.player, rendition: d.rendition });
                }
            } else {
                self.deferred = Some(d);
            }
        }
    }

    /// A track is in the cache now.
    pub fn on_cache_ready(&mut self, id: TrackId, env: &Env, catalog: &Catalog, bus: &Bus)
        requires
            old(self).queue.wf(),
        ensures
            world(*final(self), *catalog, *bus) == w_cache_ready(
                world(*old(self), *catalog, *bus),
                env@,
                id,
            ),
            final(self).queue.wf(),
    {
        let wanted: bool = match self.pending_fallback {
            Some(p) => p == id,
            None => false,
        };
        if wanted {
            if let Some(t) = catalog.store.get_track(id) {
                self.pending_fallback = None;
                self.play_from_cache(&t, true, env, catalog, bus);
            }
        }
    }
}

/// The place that a seek by `delta` leads to.
pub open spec fn seek_place(position_ms: u32, delta: i64) -> int {
    let p = position_ms + delta;
    (if p < 0 {
        0
    } else {
        p
    }) % 0x1_0000_0000
}

/// The place that a seek by `delta` milliseconds leads to.
pub fn seek_target(position_ms: u32, delta: i64) -> (r: u32)
    ensures
        r == seek_place(position_ms, delta),
{
    let p: i128 = position_ms as i128 + delta as i128;
    let q: u128 = if p < 0 {
        0
    } else {
        p as u128
    };
    (q % 0x1_0000_0000) as u32
}

} // verus!
