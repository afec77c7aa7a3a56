//! What the counters of the queue and of the history tell of a running player.

use vstd::prelude::*;
use crate::command::Command;
use crate::dispatch::{s_begin, s_dispatch, s_link, s_next, s_play, s_play_list, s_previous, s_unlink};
use crate::env::EnvView;
use crate::event::{CoreEvent, PlayerEvent};
use crate::membership::s_toggle;
use crate::playback::{w_advance, w_play_track, ContextView, World};
use crate::player_events::{event_track_of, w_finished, w_learn, w_load_failed, w_player_event, w_skip};
use crate::queue::counted;
use crate::session::SessionView;
use crate::session_events::{s_cached, s_event, s_player, s_playlists_changed, s_requested};
use crate::session_laws::lemma_like;
use crate::traits::PlayerStatus;
use crate::types::{opt_text, PlaylistId, TrackId};
use crate::view_cache::CacheView;

verus! {

proof fn lemma_play_track(w: World, e: EnvView, id: TrackId, record: bool)
    ensures
        counted(w.p.queue, w_play_track(w, e, id, record).p.queue),
{
}

proof fn lemma_play(v: SessionView, e: EnvView, id: TrackId)
    ensures
        counted(v.w.p.queue, s_play(v, e, id).w.p.queue),
{
    reveal(s_play);
}

proof fn lemma_advance(w: World, e: EnvView, c: CacheView, manual: bool)
    ensures
        counted(w.p.queue, w_advance(w, e, c, manual).p.queue),
{
}

proof fn lemma_previous(v: SessionView, e: EnvView)
    ensures
        counted(v.w.p.queue, s_previous(v, e).w.p.queue),
{
    reveal(s_previous);
}

proof fn lemma_load_failed(w: World, e: EnvView, c: CacheView, source: Seq<char>, uri: Seq<char>)
    ensures
        counted(w.p.queue, w_load_failed(w, e, c, source, uri).p.queue),
{
    reveal(w_load_failed);
}

proof fn lemma_finished(w: World, e: EnvView, c: CacheView, source: Seq<char>, uri: Seq<char>)
    ensures
        counted(w.p.queue, w_finished(w, e, c, source, uri).p.queue),
{
    reveal(w_finished);
    if let Some(id) = event_track_of(w, source, uri) {
        let (drained, known) = w.p.progress;
        lemma_advance(w, e, c, false);
        lemma_advance(w_learn(w, id, drained), e, c, false);
    }
}

proof fn lemma_other_reports(w: World, e: EnvView, c: CacheView, ev: PlayerEvent, status: PlayerStatus)
    requires
        !(ev is LoadFailed),
        !(ev is Finished),
    ensures
        w_player_event(w, e, c, ev, status).p.queue == w.p.queue,
{
}

proof fn lemma_player_event(w: World, e: EnvView, c: CacheView, ev: PlayerEvent, status: PlayerStatus)
    ensures
        counted(w.p.queue, w_player_event(w, e, c, ev, status).p.queue),
{
    match ev {
        PlayerEvent::LoadFailed { source, uri } => {
            lemma_load_failed(w, e, c, source@, uri@);
        },
        PlayerEvent::Finished { source, uri } => {
            lemma_finished(w, e, c, source@, uri@);
        },
        _ => {
            lemma_other_reports(w, e, c, ev, status);
        },
    }
}

proof fn lemma_next(v: SessionView, e: EnvView)
    ensures
        counted(v.w.p.queue, s_next(v, e).w.p.queue),
{
    reveal(s_next);
    lemma_advance(w_skip(v.w, e.ms), e, v.cache, true);
}

proof fn lemma_play_list(v: SessionView, e: EnvView, x: ContextView)
    ensures
        counted(v.w.p.queue, s_play_list(v, e, x).w.p.queue),
{
    reveal(s_play_list);
}

/// A command that changes what waits moves the counter of the queue, and one that changes what
/// was played moves the counter of the history.
pub proof fn commands_count_queue_changes(v: SessionView, e: EnvView, tempos: Map<Seq<char>, String>, fresh: PlaylistId, cmd: Command)
    ensures
        counted(v.w.p.queue, s_dispatch(v, e, tempos, fresh, cmd).0.w.p.queue),
{
    let v1 = s_begin(v, cmd);
    match cmd {
        Command::Like(track) => {
            lemma_like(v1, track);
        },
        Command::TogglePlaylistMembership { track, playlist, position } => {
            reveal(s_toggle);
        },
        Command::Unlink(id) => {
            reveal(s_unlink);
        },
        Command::LinkPick(id) => {
            reveal(s_link);
        },
        Command::Play(id) => {
            lemma_play(v1, e, id);
        },
        Command::PlayContext { tracks, index, remote, local, name } => {
            lemma_play_list(
                v1,
                e,
                ContextView {
                    tracks: tracks@,
                    index,
                    remote: match remote {
                        Some((s, n)) => Some((s@, n@)),
                        None => None,
                    },
                    local,
                    name: opt_text(name),
                    shuffle_bag: seq![],
                },
            );
        },
        Command::Next => {
            lemma_next(v1, e);
        },
        Command::Previous => {
            lemma_previous(v1, e);
        },
        _ => {},
    }
}

/// An event that changes what waits, or what was played, moves the counter of that too.
pub proof fn events_count_queue_changes(v: SessionView, e: EnvView, ev: CoreEvent, status: PlayerStatus)
    ensures
        counted(v.w.p.queue, s_event(v, e, ev, status).0.w.p.queue),
{
    match ev {
        CoreEvent::PlaylistsChanged => {
            reveal(s_playlists_changed);
        },
        CoreEvent::PlayRequested(id) => {
            reveal(s_requested);
            lemma_play_track(v.w, e, id, true);
        },
        CoreEvent::Player(pe) => {
            reveal(s_player);
            lemma_player_event(v.w, e, v.cache, pe, status);
        },
        CoreEvent::CacheFallbackReady(id) => {
            reveal(s_cached);
        },
        _ => {},
    }
}

} // verus!
