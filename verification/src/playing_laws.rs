//! What plays, and what comes next.

use vstd::prelude::*;
use crate::command::{Command, DispatchView};
use crate::dispatch::{s_begin, s_dispatch, s_next, s_play, s_play_list, s_previous};
use crate::env::{accepted, cached_file, picked_player, player_accepting, player_under, presence, EnvView, PlayerView};
use crate::event::{CoreEvent, PlayerEvent};
use crate::playback::{grown, w_advance, w_play_track, w_start, ContextView, EffectView, PlaybackView, World};
use crate::player_events::{
    event_track_of, seek_place, w_cache_ready, w_deferred, w_finished, w_learn, w_load_failed, w_play_context,
    w_player_event, w_preload, w_progress, w_skip,
};
use crate::queue::RepeatSetting;
use crate::resolver::{resolved, resolved_excluding, ResolutionView, TargetView};
use crate::session::SessionView;
use crate::session_events::{s_event, s_requested};
use crate::store::{by_rendition_of, track_of};
use crate::traits::{PlayerState, PlayerStatus};
use crate::types::{PlaylistId, RenditionView, TrackId, TrackView};
use crate::view_cache::CacheView;

verus! {

/// A track that has a rendition and a player for it is loaded there, on that rendition, after
/// every other player fell silent; it is what plays, from its beginning, and the last thing that
/// was played.
pub proof fn played_tracks_are_loaded(w: World, e: EnvView, id: TrackId, t: TrackView, r: RenditionView, player: u32)
    requires
        track_of(w.s, id) == Some(t),
        t.id == id,
        resolved(t, TargetView::Playback, presence(e, t)) == ResolutionView::Ready(r),
        picked_player(e.players, r.source, r.uri) == Some(player),
        !w.p.skipping,
    ensures
        ({
            let x = w_play_track(w, e, id, true).p;
            let n = w.p.effects.len() as int;
            &&& x.queue.current == Some(id)
            &&& x.now_playing == Some(id)
            &&& x.state == PlayerState::Playing
            &&& x.player == Some(player)
            &&& x.rendition == Some((r.source, r.uri, id))
            &&& x.progress == (0u32, t.duration_ms)
            &&& x.failed_sources.len() == 0
            &&& x.effects.len() >= n + 2
            &&& x.effects[n] == EffectView::StopOthers(player)
            &&& x.effects[n + 1] == (EffectView::Load { player, rendition: r })
            &&& x.queue.history.len() > 0 && x.queue.history.last().0 == id
            &&& x.queue.queue == w.p.queue.queue
        }),
{
}

/// A track that no player takes is not said to play: nothing is loaded for it unless its file is
/// in the cache, and that is said.
pub proof fn unplayable_tracks_are_told(w: World, e: EnvView, id: TrackId, t: TrackView)
    requires
        track_of(w.s, id) == Some(t),
        match resolved(t, TargetView::Playback, presence(e, t)) {
            ResolutionView::Ready(r) => picked_player(e.players, r.source, r.uri) is None,
            ResolutionView::Gap(_) => true,
        },
        cached_file(e, t.renditions, 0) is None,
    ensures
        ({
            let x = w_play_track(w, e, id, true).p;
            &&& x.queue.current == Some(id)
            &&& x.now_playing == w.p.now_playing && x.player == w.p.player && x.state == w.p.state
            &&& x.effects == w.p.effects.push(EffectView::DecodeCached(id)) || x.effects == w.p.effects.push(
                EffectView::DecodeCached(t.id),
            )
            &&& x.pending_fallback == Some(t.id)
            &&& x.queue.history == w.p.queue.history
        }),
{
}

proof fn lemma_first_place(s: Seq<TrackId>, x: TrackId, i: int)
    requires
        0 <= i,
    ensures
        match crate::queue::first_at(s, x, i) {
            Some(k) => i <= k < s.len() && s[k] == x && forall|j: int| i <= j < k ==> s[j] != x,
            None => forall|j: int| i <= j < s.len() ==> s[j] != x,
        },
    decreases s.len() - i,
{
    if i < s.len() {
        lemma_first_place(s, x, i + 1);
    }
}

/// What the user asks to play is played now, whatever waits or plays; if it waited it waits no
/// longer, and everything else that waits stays in its order.
pub proof fn play_is_at_once(v: SessionView, e: EnvView, tempos: Map<Seq<char>, String>, fresh: PlaylistId, id: TrackId)
    ensures
        ({
            let (r, d, reqs) = s_dispatch(v, e, tempos, fresh, Command::Play(id));
            let q = v.w.p.queue.queue;
            let a = r.w.p.queue.queue;
            &&& r.w.p.queue.current == Some(id)
            &&& d == Some(DispatchView::Handled)
            &&& reqs.len() == 0
            &&& !q.contains(id) ==> a == q
            &&& q.contains(id) ==> exists|i: int|
                0 <= i < q.len() && #[trigger] q[i] == id && (forall|j: int| 0 <= j < i ==> q[j] != id) && a == q.remove(i)
            &&& r.w.s == v.w.s
            &&& r.w.p.context == v.w.p.context
            &&& r.w.p.load_failures == 0
        }),
{
    reveal(s_play);
    lemma_first_place(v.w.p.queue.queue, id, 0);
}

/// A list that is played starts at the row that was picked, and is what goes on after it; a row
/// that is not there plays nothing.
pub proof fn lists_play_from_the_picked_row(w: World, e: EnvView, x: ContextView)
    ensures
        ({
            let r = w_play_context(w, e, x);
            &&& x.index < x.tracks.len() ==> {
                &&& r.p.queue.current == Some(x.tracks[x.index as int])
                &&& r.p.context matches Some(y) && y.tracks == x.tracks && y.index == x.index && y.remote == x.remote
                    && y.local == x.local && y.name == x.name
            }
            &&& x.index >= x.tracks.len() ==> r == w
        }),
{
}

/// With nothing queued and no shuffle, after each track of a list comes the one below it.
pub proof fn lists_go_on_row_by_row(w: World, e: EnvView, c: CacheView, manual: bool)
    requires
        w.p.queue.queue.len() == 0,
        !w.p.queue.shuffle,
        manual || w.p.queue.repeat != RepeatSetting::RepeatTrack,
        w.p.context is Some,
        w.p.context->0.index + 1 < w.p.context->0.tracks.len() <= usize::MAX,
    ensures
        ({
            let x = w.p.context->0;
            let r = w_advance(w, e, c, manual);
            &&& r.p.queue.current == Some(x.tracks[x.index + 1])
            &&& r.p.context matches Some(y) && y.index == x.index + 1 && y.tracks == x.tracks
        }),
{
}

/// Behind the last row of a list that has not grown, with nothing queued, playback ends.
pub proof fn lists_end(w: World, e: EnvView, c: CacheView, manual: bool)
    requires
        w.p.queue.queue.len() == 0,
        !w.p.queue.shuffle,
        manual || w.p.queue.repeat != RepeatSetting::RepeatTrack,
        w.p.context matches Some(x) ==> x.index + 1 >= x.tracks.len() && grown(c, w.s, x) is None,
    ensures
        w_advance(w, e, c, manual).p.queue.current is None,
{
}

/// A remote list that has grown goes on with what is new.
pub proof fn grown_lists_go_on(w: World, e: EnvView, c: CacheView, manual: bool, tracks: Seq<TrackId>)
    requires
        w.p.queue.queue.len() == 0,
        !w.p.queue.shuffle,
        manual || w.p.queue.repeat != RepeatSetting::RepeatTrack,
        w.p.context is Some,
        w.p.context->0.tracks.len() > 0,
        w.p.context->0.index + 1 == w.p.context->0.tracks.len(),
        grown(c, w.s, w.p.context->0) == Some(tracks),
        tracks.len() > w.p.context->0.tracks.len(),
    ensures
        w_advance(w, e, c, manual).p.queue.current == Some(tracks[w.p.context->0.index + 1]),
{
}

/// When what plays has ended, the next track comes by itself; the end of something else changes
/// nothing that plays.
pub proof fn the_end_of_a_track_goes_on(w: World, e: EnvView, c: CacheView, source: Seq<char>, uri: Seq<char>, id: TrackId)
    requires
        event_track_of(w, source, uri) == Some(id),
        w.p.queue.repeat != RepeatSetting::RepeatTrack,
        w.p.queue.queue.len() > 0,
    ensures
        ({
            let r = w_finished(w, e, c, source, uri);
            &&& w.p.queue.current == Some(id) ==> r.p.queue.current == Some(w.p.queue.queue[0]) && r.p.queue.queue
                == w.p.queue.queue.drop_first()
            &&& w.p.queue.current != Some(id) ==> r == w
        }),
{
    reveal(w_finished);
}

/// A report is about what was handed to the player, and else about the track that has the
/// rendition.
pub proof fn reports_find_their_track(w: World, source: Seq<char>, uri: Seq<char>, id: TrackId)
    ensures
        w.p.rendition == Some((source, uri, id)) ==> event_track_of(w, source, uri) == Some(id),
        w.p.rendition is None ==> (event_track_of(w, source, uri) is Some <==> by_rendition_of(w.s, source, uri) is Some),
{
}

/// What the player says of position and length is what is shown; without a length from the player
/// the one of the library is.
pub proof fn progress_is_shown(w: World, position_ms: u32, duration_ms: u32)
    ensures
        ({
            let r = w_progress(w, position_ms, duration_ms);
            &&& r.p.progress.0 == position_ms
            &&& duration_ms > 0 ==> r.p.progress.1 == duration_ms
            &&& duration_ms == 0 && (w.p.queue.current matches Some(id) && track_of(w.s, id) is Some) ==> r.p.progress.1
                == w.s.tracks[(w.p.queue.current->0).0].duration_ms
            &&& duration_ms == 0 && w.p.queue.current is None ==> r.p.progress.1 == 0
            &&& r.p.queue == w.p.queue && r.p.state == w.p.state && r.p.effects == w.p.effects
        }),
{
}

/// A length that the library lacks is learnt, and one that it has is never changed.
pub proof fn lengths_are_learnt_once(w: World, id: TrackId, ms: u32, t: TrackView)
    requires
        track_of(w.s, id) == Some(t),
        t.id == id,
    ensures
        ({
            let r = w_learn(w, id, ms);
            &&& track_of(r.s, id) matches Some(x) && x.title == t.title && x.renditions == t.renditions && x.duration_ms == (if t.duration_ms
                > 0 {
                t.duration_ms
            } else {
                ms
            })
            &&& r.ev.last() == CoreEvent::TrackUpdated(id)
            &&& r.p == w.p
        }),
{
}

/// What a player reports of itself is what is shown.
pub proof fn states_are_shown(w: World, e: EnvView, c: CacheView, status: PlayerStatus, source: crate::types::SourceId, uri: String)
    ensures
        w_player_event(w, e, c, PlayerEvent::Paused, status).p.state == PlayerState::Paused,
        w_player_event(w, e, c, PlayerEvent::Stopped, status).p.state == PlayerState::Stopped,
        w_player_event(w, e, c, PlayerEvent::Playing { source, uri }, status).p.state == PlayerState::Playing,
        event_track_of(w, source@, uri@) is Some ==> w_player_event(
            w,
            e,
            c,
            PlayerEvent::Playing { source, uri },
            status,
        ).p.now_playing == event_track_of(w, source@, uri@),
        w_player_event(w, e, c, PlayerEvent::Playing { source, uri }, status).p.load_failures == 0,
        w_player_event(w, e, c, PlayerEvent::Paused, status).p.queue == w.p.queue,
        w_player_event(w, e, c, PlayerEvent::Stopped, status).p.queue == w.p.queue,
{
}

/// A rendition that fails to load is replaced by the preferred one that other sources offer, of
/// the same track; nothing is skipped for that.
pub proof fn another_source_steps_in(w: World, e: EnvView, c: CacheView, source: Seq<char>, uri: Seq<char>, id: TrackId, t: TrackView, r: RenditionView, player: u32)
    requires
        event_track_of(w, source, uri) == Some(id),
        w.p.queue.current == Some(id),
        track_of(w.s, id) == Some(t),
        t.id == id,
        !w.p.skipping,
        resolved_excluding(t, w.p.failed_sources.push(source), presence(e, t)) == ResolutionView::Ready(r),
        picked_player(e.players, r.source, r.uri) == Some(player),
    ensures
        ({
            let x = w_load_failed(w, e, c, source, uri).p;
            let n = w.p.effects.len() as int;
            &&& x.queue.current == Some(id) && x.queue.queue == w.p.queue.queue
            &&& x.now_playing == Some(id)
            &&& x.effects.len() >= n + 2 && x.effects[n + 1] == (EffectView::Load { player, rendition: r })
            &&& x.failed_sources == w.p.failed_sources.push(source)
            &&& r.source != source
        }),
{
    reveal(w_load_failed);
    assert(event_track_of(
        World { p: PlaybackView { state: PlayerState::Stopped, ..w.p }, ..w },
        source,
        uri,
    ) == Some(id));
    crate::resolver::excluded_sources_are_not_played(t, w.p.failed_sources.push(source), presence(e, t));
    let f = w.p.failed_sources.push(source);
    assert(f[w.p.failed_sources.len() as int] == source);
}

/// What is warmed up is what comes next, on the player that plays.
pub proof fn what_comes_next_is_warmed_up(w: World, e: EnvView, c: CacheView, t: TrackView, r: RenditionView, player: u32)
    requires
        w.p.queue.repeat != RepeatSetting::RepeatTrack,
        w.p.queue.queue.len() > 0,
        track_of(w.s, w.p.queue.queue[0]) == Some(t),
        resolved(t, TargetView::Playback, presence(e, t)) == ResolutionView::Ready(r),
        picked_player(e.players, r.source, r.uri) == Some(player),
    ensures
        w.p.player == Some(player) ==> w_preload(w, e, c).p.effects == w.p.effects.push(
            EffectView::Preload { player, rendition: r },
        ),
        w.p.player != Some(player) ==> w_preload(w, e, c).p.effects == w.p.effects,
        w_preload(w, e, c).p.queue == w.p.queue,
{
}

/// A skip that follows another within two tenths of a second does not load yet; once the wait is
/// over its track is loaded, if it is still the current one, and only for the last skip.
pub proof fn quick_skips_load_once(w: World, e: EnvView, t: TrackView, r: RenditionView, player: u32)
    requires
        w.p.skipping,
    ensures
        ({
            let x = w_start(w, e, t, r, player, true);
            let n = w.p.effects.len() as int;
            let seq = x.p.deferred_seq;
            let y = w_deferred(x, seq);
            &&& seq != w.p.deferred_seq
            &&& x.p.effects[n + 1] == EffectView::DeferLoad(seq)
            &&& forall|i: int| n <= i < x.p.effects.len() ==> !(#[trigger] x.p.effects[i] is Load)
            &&& x.p.queue.current == Some(t.id) ==> y.p.effects == x.p.effects.push(EffectView::Load { player, rendition: r })
            &&& x.p.queue.current != Some(t.id) ==> y.p.effects == x.p.effects
            &&& w_deferred(x, w.p.deferred_seq) == x
            &&& y.p.deferred is None
        }),
{
}

/// Whether a skip is a quick one.
pub proof fn skips_are_quick_within_two_tenths(w: World, ms: u64)
    ensures
        w_skip(w, ms).p.skipping <==> (w.p.last_skip matches Some(t) && ms < t + 200),
        w_skip(w, ms).p.last_skip == Some(ms),
{
}

/// A seek moves by what was asked for and never before the beginning.
pub proof fn seeks_stay_in_the_track(position_ms: u32, delta: i64)
    requires
        position_ms + delta <= u32::MAX,
    ensures
        delta >= 0 ==> seek_place(position_ms, delta) == position_ms + delta,
        delta < 0 && position_ms + delta >= 0 ==> seek_place(position_ms, delta) == position_ms + delta,
        position_ms + delta < 0 ==> seek_place(position_ms, delta) == 0,
{
}

proof fn lemma_accepting(v: Seq<PlayerView>, source: Seq<char>, uri: Seq<char>, i: int)
    requires
        0 <= i,
    ensures
        match player_accepting(v, source, uri, i) {
            Some(p) => exists|k: int| i <= k < v.len() && accepted(#[trigger] v[k], source, uri) && v[k].player == p,
            None => forall|k: int| i <= k < v.len() ==> !accepted(#[trigger] v[k], source, uri),
        },
    decreases v.len() - i,
{
    if i < v.len() {
        lemma_accepting(v, source, uri, i + 1);
    }
}

proof fn lemma_under(v: Seq<PlayerView>, source: Seq<char>, i: int)
    requires
        0 <= i,
    ensures
        player_under(v, source, i) matches Some(p) ==> exists|k: int| i <= k < v.len() && #[trigger] v[k] == p && p.source == source,
    decreases v.len() - i,
{
    if i < v.len() {
        lemma_under(v, source, i + 1);
    }
}

/// A rendition is given to a player that accepts it, and there is one whenever any does; the one
/// of its own source comes first.
pub proof fn players_accept_what_they_get(v: Seq<PlayerView>, source: Seq<char>, uri: Seq<char>)
    ensures
        match picked_player(v, source, uri) {
            Some(p) => exists|k: int| 0 <= k < v.len() && accepted(#[trigger] v[k], source, uri) && v[k].player == p,
            None => forall|k: int| 0 <= k < v.len() ==> !accepted(#[trigger] v[k], source, uri),
        },
        v.len() > 0 && v[0].source == source && accepted(v[0], source, uri) ==> picked_player(v, source, uri) == Some(
            v[0].player,
        ),
{
    lemma_accepting(v, source, uri, 0);
    lemma_under(v, source, 0);
    if let Some(p) = player_under(v, source, 0) {
        if accepted(p, source, uri) {
            let k = choose|k: int| 0 <= k < v.len() && #[trigger] v[k] == p && p.source == source;
            assert(accepted(v[k], source, uri));
        }
    }
}

/// A player accepts a rendition exactly if it takes the source and does not decline the address.
pub proof fn acceptance_is_by_source(p: PlayerView, source: Seq<char>, uri: Seq<char>)
    ensures
        accepted(p, source, uri) ==> p.accepts.contains(source),
        p.accepts.contains(source) && !p.declines.contains(crate::store::rendition_key_of(source, uri)) ==> accepted(p, source, uri),
        p.declines.contains(crate::store::rendition_key_of(source, uri)) ==> !accepted(p, source, uri),
{
}

/// The key for the next track plays what waits first, and else the next row of the list.
pub proof fn next_plays_what_comes_next(v: SessionView, e: EnvView, tempos: Map<Seq<char>, String>, fresh: PlaylistId)
    ensures
        ({
            let (r, d, reqs) = s_dispatch(v, e, tempos, fresh, Command::Next);
            let q = v.w.p.queue;
            &&& d == Some(DispatchView::Handled) && reqs.len() == 0
            &&& q.queue.len() > 0 ==> r.w.p.queue.current == Some(q.queue[0]) && r.w.p.queue.queue == q.queue.drop_first()
            &&& q.queue.len() == 0 && !q.shuffle ==> (v.w.p.context matches Some(x) && x.index + 1 < x.tracks.len() <= usize::MAX)
                ==> r.w.p.queue.current == Some((v.w.p.context->0).tracks[(v.w.p.context->0).index + 1])
            &&& q.queue.len() == 0 && v.w.p.context is None ==> r.w.p.queue.current is None
            &&& q.repeat == RepeatSetting::RepeatTrack ==> r.w.p.queue.repeat == RepeatSetting::RepeatPlaylist
            &&& q.repeat != RepeatSetting::RepeatTrack ==> r.w.p.queue.repeat == q.repeat
        }),
{
    reveal(s_next);
    let v1 = s_begin(v, Command::Next);
    let w = w_skip(v1.w, e.ms);
    lemma_next(w, e, v.cache);
}

proof fn lemma_next(w: World, e: EnvView, c: CacheView)
    ensures
        ({
            let r = w_advance(w, e, c, true);
            let q = w.p.queue;
            &&& q.queue.len() > 0 ==> r.p.queue.current == Some(q.queue[0]) && r.p.queue.queue == q.queue.drop_first()
            &&& q.queue.len() == 0 && !q.shuffle ==> (w.p.context matches Some(x) && x.index + 1 < x.tracks.len() <= usize::MAX)
                ==> r.p.queue.current == Some((w.p.context->0).tracks[(w.p.context->0).index + 1])
            &&& q.queue.len() == 0 && w.p.context is None ==> r.p.queue.current is None
            &&& q.repeat == RepeatSetting::RepeatTrack ==> r.p.queue.repeat == RepeatSetting::RepeatPlaylist
            &&& q.repeat != RepeatSetting::RepeatTrack ==> r.p.queue.repeat == q.repeat
        }),
{
}

/// The key for the previous track plays what was played before, and puts what plays in front of
/// what waits; with nothing played before, the current track stays.
pub proof fn previous_plays_what_was_before(v: SessionView, e: EnvView, tempos: Map<Seq<char>, String>, fresh: PlaylistId)
    ensures
        ({
            let (r, d, reqs) = s_dispatch(v, e, tempos, fresh, Command::Previous);
            let q = v.w.p.queue;
            let h = q.history;
            &&& reqs.len() == 0
            &&& h.len() > 1 ==> r.w.p.queue.current == Some(h[h.len() - 2].0) && r.w.p.queue.history == h.drop_last()
            &&& h.len() > 1 && v.w.p.now_playing is Some ==> {
                &&& r.w.p.queue.queue.len() == q.queue.len() + 1
                &&& r.w.p.queue.queue[0] == v.w.p.now_playing->0
                &&& r.w.p.queue.queue.drop_first() == q.queue
                &&& d == Some(DispatchView::Wedged(r.w.p.queue.queue.len()))
            }
            &&& h.len() > 1 && v.w.p.now_playing is None ==> r.w.p.queue.queue == q.queue
            &&& h.len() <= 1 ==> r.w.p.queue.current == q.current && r.w.p.queue.queue == q.queue && r.w.p.effects
                == v.w.p.effects
        }),
{
    reveal(s_previous);
    let v1 = s_begin(v, Command::Previous);
    if let Some(id) = v.w.p.now_playing {
        assert((seq![id] + v.w.p.queue.queue).drop_first() =~= v.w.p.queue.queue);
    }
}

/// A list that the user plays starts at the row that was picked.
pub proof fn lists_play_when_asked(v: SessionView, e: EnvView, tempos: Map<Seq<char>, String>, fresh: PlaylistId, tracks: Vec<TrackId>, index: usize, local: Option<PlaylistId>, name: Option<String>)
    requires
        index < tracks@.len(),
    ensures
        ({
            let (r, d, reqs) = s_dispatch(
                v,
                e,
                tempos,
                fresh,
                Command::PlayContext { tracks, index, remote: None, local, name },
            );
            &&& r.w.p.queue.current == Some(tracks@[index as int])
            &&& r.w.p.context matches Some(x) && x.tracks == tracks@ && x.index == index && x.local == local && x.remote is None
            &&& d == Some(DispatchView::Handled)
        }),
{
    reveal(s_play_list);
}

/// A track that is asked for by an event is played.
pub proof fn requested_tracks_play(v: SessionView, e: EnvView, id: TrackId, status: PlayerStatus)
    ensures
        s_event(v, e, CoreEvent::PlayRequested(id), status).0.w.p.queue.current == Some(id),
        s_event(v, e, CoreEvent::PlayRequested(id), status).1,
{
    reveal(s_requested);
}

/// What was waited for is played from its file in the cache, if nothing else was asked for since.
pub proof fn cached_files_play(w: World, e: EnvView, id: TrackId, t: TrackView, path: Seq<char>, player: u32)
    requires
        track_of(w.s, id) == Some(t),
        t.id == id,
        cached_file(e, t.renditions, 0) == Some(path),
        picked_player(e.players, "local"@, path) == Some(player),
        !w.p.skipping,
    ensures
        w.p.pending_fallback != Some(id) ==> w_cache_ready(w, e, id) == w,
        w.p.pending_fallback == Some(id) ==> {
            let x = w_cache_ready(w, e, id).p;
            let n = w.p.effects.len() as int;
            &&& x.now_playing == Some(id)
            &&& x.player == Some(player)
            &&& x.pending_fallback is None
            &&& x.effects.len() >= n + 2
            &&& x.effects[n + 1] matches EffectView::Load { player: p, rendition } && p == player && rendition.source
                == "local"@ && rendition.uri == path
        },
{
}

/// A play goes into the log, with its track and the moment it began, unless the track was the last
/// one that was played; a play that is not to be recorded leaves no trace in log or history.
pub proof fn plays_go_into_the_log(w: World, e: EnvView, id: TrackId, t: TrackView, r: RenditionView, player: u32)
    requires
        track_of(w.s, id) == Some(t),
        t.id == id,
        resolved(t, TargetView::Playback, presence(e, t)) == ResolutionView::Ready(r),
        picked_player(e.players, r.source, r.uri) == Some(player),
        w.p.queue.history.len() < 5000,
    ensures
        ({
            let again = w.p.queue.history.len() > 0 && w.p.queue.history.last().0 == id;
            let x = w_play_track(w, e, id, true).p;
            let y = w_play_track(w, e, id, false).p;
            &&& !again ==> (x.effects.last() matches EffectView::AppendHistory { track, at, .. } && track == id && at == e.now)
            &&& !again ==> x.queue.history == w.p.queue.history.push((id, e.now))
            &&& again ==> x.effects.len() == w.p.effects.len() + 2 && x.queue.history == w.p.queue.history
            &&& !(x.effects[x.effects.len() - 1] is AppendHistory) ==> again
            &&& y.effects.len() == w.p.effects.len() + 2 && y.queue.history == w.p.queue.history
            &&& !(y.effects.last() is AppendHistory)
        }),
{
}

/// Where no other source has a track whose load failed, its file in the cache is played.
pub proof fn the_cache_is_the_last_resort(w: World, e: EnvView, c: CacheView, source: Seq<char>, uri: Seq<char>, id: TrackId, t: TrackView, path: Seq<char>, player: u32)
    requires
        event_track_of(w, source, uri) == Some(id),
        w.p.queue.current == Some(id),
        track_of(w.s, id) == Some(t),
        t.id == id,
        resolved_excluding(t, w.p.failed_sources.push(source), presence(e, t)) is Gap,
        cached_file(e, t.renditions, 0) == Some(path),
        picked_player(e.players, "local"@, path) == Some(player),
        !w.p.skipping,
    ensures
        ({
            let x = w_load_failed(w, e, c, source, uri).p;
            let n = w.p.effects.len() as int;
            &&& x.now_playing == Some(id) && x.player == Some(player) && x.state == PlayerState::Playing
            &&& x.effects.len() >= n + 2
            &&& x.effects[n + 1] matches EffectView::Load { player: p, rendition } && p == player && rendition.uri == path
            &&& x.warnings == w.p.warnings
        }),
{
    reveal(w_load_failed);
    assert(event_track_of(
        World { p: PlaybackView { state: PlayerState::Stopped, ..w.p }, ..w },
        source,
        uri,
    ) == Some(id));
}

} // verus!
