//! What comes of each command.

use vstd::prelude::*;
use crate::command::{Command, DispatchView, RequestView};
use crate::dispatch::{export_of, s_dispatch};
use crate::env::EnvView;
use crate::event::CoreEvent;
use crate::membership::{s_like, s_toggle};
use crate::session::SessionView;
use crate::store::playlist_of;
use crate::types::{PlaylistId, TrackId};

verus! {

/// Nothing in the player changed but the count of what may have to be drawn again.
pub open spec fn same_but_drawn(v: SessionView, r: SessionView) -> bool {
    r == (SessionView { revision: r.revision, ..v })
}

/// While a player is active, the key for play and pause asks for one thing: that this player is
/// toggled.
pub proof fn play_pause_toggles_the_active_player(v: SessionView, e: EnvView, tempos: Map<Seq<char>, String>, fresh: PlaylistId, player: u32)
    requires
        v.w.p.player == Some(player),
    ensures
        ({
            let (r, d, reqs) = s_dispatch(v, e, tempos, fresh, Command::PlayPause);
            &&& reqs.len() == 1
            &&& reqs[0] == RequestView::TogglePlayer(player)
            &&& d == Some(DispatchView::Handled)
            &&& same_but_drawn(v, r)
        }),
{
}

/// With no player active, nothing current and something queued, the same key starts the first of
/// what is queued, and asks no player for anything.
pub proof fn play_pause_starts_the_queue(v: SessionView, e: EnvView, tempos: Map<Seq<char>, String>, fresh: PlaylistId)
    requires
        v.w.p.player is None,
    ensures
        ({
            let (r, d, reqs) = s_dispatch(v, e, tempos, fresh, Command::PlayPause);
            let q = v.w.p.queue;
            &&& reqs.len() == 0
            &&& d == Some(DispatchView::Handled)
            &&& q.current is None && q.queue.len() > 0 ==> {
                &&& r.w.p.queue.current == Some(q.queue[0])
                &&& r.w.p.queue.queue == q.queue.drop_first()
                &&& r.w.ev.len() > v.w.ev.len()
                &&& r.w.ev.last() == CoreEvent::PlayRequested(q.queue[0])
            }
            &&& q.current is Some || q.queue.len() == 0 ==> same_but_drawn(v, r)
        }),
{
}

/// Seeking asks the active player, and only it, to move by what was asked for; without one it
/// does nothing.
pub proof fn seeking_moves_the_active_player(v: SessionView, e: EnvView, tempos: Map<Seq<char>, String>, fresh: PlaylistId, delta: i64)
    ensures
        ({
            let (r, d, reqs) = s_dispatch(v, e, tempos, fresh, Command::Seek(delta));
            &&& v.w.p.player matches Some(p) ==> reqs.len() == 1 && reqs[0] == (RequestView::SeekPlayer { player: p, delta })
            &&& v.w.p.player is None ==> reqs.len() == 0
            &&& d == Some(DispatchView::Handled)
            &&& same_but_drawn(v, r)
        }),
{
}

/// A change of the volume is asked for as it is, whether or not something plays.
pub proof fn volume_changes_are_passed_on(v: SessionView, e: EnvView, tempos: Map<Seq<char>, String>, fresh: PlaylistId, delta: i8)
    ensures
        ({
            let (r, d, reqs) = s_dispatch(v, e, tempos, fresh, Command::Volume(delta));
            &&& reqs.len() == 1
            &&& reqs[0] == RequestView::ChangeVolume(delta)
            &&& d == Some(DispatchView::Handled)
            &&& same_but_drawn(v, r)
        }),
{
}

/// A search is run for the text that was typed, under a number that no search before it had, and
/// is shown from then on, with nothing found yet.
pub proof fn searches_are_run_as_typed(v: SessionView, e: EnvView, tempos: Map<Seq<char>, String>, fresh: PlaylistId, text: String)
    ensures
        ({
            let (r, d, reqs) = s_dispatch(v, e, tempos, fresh, Command::Search(text));
            let id = r.shown_search;
            &&& reqs.len() == 1
            &&& reqs[0] == (RequestView::RunSearch { search: id, query: text@ })
            &&& id != v.searches.last && r.searches.last == id
            &&& v.searches.last < u64::MAX ==> id == v.searches.last + 1
            &&& r.searches.live.contains(id as u128)
            &&& r.cache.results.dom().contains(id as u128)
            &&& r.cache.results[id as u128].query == text@
            &&& r.cache.results[id as u128].tracks.len() == 0
            &&& r.cache.results[id as u128].collections.len() == 0
            &&& v.shown_search != id ==> !r.cache.results.dom().contains(v.shown_search as u128)
            &&& r.w == v.w
        }),
{
}

/// A track that is enqueued waits behind everything that waits already, and one that is wedged in
/// before it. What plays goes on; the answer is how many wait.
pub proof fn enqueued_tracks_wait(v: SessionView, e: EnvView, tempos: Map<Seq<char>, String>, fresh: PlaylistId, id: TrackId)
    ensures
        ({
            let (r, d, reqs) = s_dispatch(v, e, tempos, fresh, Command::Enqueue(id));
            let q = v.w.p.queue.queue;
            let a = r.w.p.queue.queue;
            &&& a.len() == q.len() + 1
            &&& a.last() == id
            &&& forall|i: int| 0 <= i < q.len() ==> #[trigger] a[i] == q[i]
            &&& d == Some(DispatchView::Queued(a.len()))
            &&& reqs.len() == 0
            &&& r.w.p.queue.current == v.w.p.queue.current && r.w.p.effects == v.w.p.effects && r.w.s == v.w.s
        }),
        ({
            let (r, d, reqs) = s_dispatch(v, e, tempos, fresh, Command::Wedge(id));
            let q = v.w.p.queue.queue;
            let a = r.w.p.queue.queue;
            &&& a.len() == q.len() + 1
            &&& a[0] == id
            &&& forall|i: int| 0 <= i < q.len() ==> #[trigger] a[i + 1] == q[i]
            &&& d == Some(DispatchView::Wedged(a.len()))
            &&& reqs.len() == 0
            &&& r.w.p.queue.current == v.w.p.queue.current && r.w.p.effects == v.w.p.effects && r.w.s == v.w.s
        }),
{
}

/// Once the queue is cleared nothing waits and nothing is current; what was played stays known,
/// and so does the list that plays.
pub proof fn cleared_queues_are_empty(v: SessionView, e: EnvView, tempos: Map<Seq<char>, String>, fresh: PlaylistId)
    ensures
        ({
            let (r, d, reqs) = s_dispatch(v, e, tempos, fresh, Command::ClearQueue);
            &&& r.w.p.queue.queue.len() == 0
            &&& r.w.p.queue.current is None
            &&& r.w.p.queue.history == v.w.p.queue.history
            &&& r.w.p.queue.repeat == v.w.p.queue.repeat && r.w.p.queue.shuffle == v.w.p.queue.shuffle
            &&& r.w.p.context == v.w.p.context
            &&& r.w.s == v.w.s
            &&& d == Some(DispatchView::Handled)
            &&& reqs.len() == 0
        }),
{
}

/// Shuffling is switched to what it was not, which is also the answer; what waits stays in its
/// order. Switched twice it is as it was.
pub proof fn shuffle_is_a_switch(v: SessionView, e: EnvView, tempos: Map<Seq<char>, String>, fresh: PlaylistId)
    ensures
        ({
            let (r, d, reqs) = s_dispatch(v, e, tempos, fresh, Command::ToggleShuffle);
            let (r2, d2, reqs2) = s_dispatch(r, e, tempos, fresh, Command::ToggleShuffle);
            &&& r.w.p.queue.shuffle != v.w.p.queue.shuffle
            &&& d == Some(DispatchView::ShuffleSet(r.w.p.queue.shuffle))
            &&& r.w.p.queue.queue == v.w.p.queue.queue && r.w.p.queue.current == v.w.p.queue.current
            &&& reqs.len() == 0
            &&& r2.w.p.queue == v.w.p.queue
        }),
{
}

/// A new playlist has the name that was given and no track yet; every other playlist and every
/// track stays.
pub proof fn new_playlists_are_empty(v: SessionView, e: EnvView, tempos: Map<Seq<char>, String>, fresh: PlaylistId, name: String)
    ensures
        ({
            let (r, d, reqs) = s_dispatch(v, e, tempos, fresh, Command::NewPlaylist(name));
            &&& d == Some(DispatchView::PlaylistCreated(fresh))
            &&& playlist_of(r.w.s, fresh) matches Some(p) && p.id == fresh && p.name == name@ && p.items.len() == 0
                && p.notes.len() == 0
            &&& forall|k: u128| k != fresh.0 && #[trigger] v.w.s.playlists.dom().contains(k) ==> r.w.s.playlists.dom().contains(k)
                && r.w.s.playlists[k] == v.w.s.playlists[k]
            &&& r.w.s.tracks == v.w.s.tracks
            &&& r.w.ev == v.w.ev.push(CoreEvent::PlaylistsChanged)
            &&& reqs.len() == 0
        }),
{
    reveal_strlit("");
}

/// A track that is added to a playlist is its last row, and the rows before it stay; a playlist
/// that is not there is not made.
pub proof fn added_tracks_come_last(v: SessionView, e: EnvView, tempos: Map<Seq<char>, String>, fresh: PlaylistId, track: TrackId, playlist: PlaylistId)
    requires
        playlist_of(v.w.s, playlist) matches Some(p) ==> p.id == playlist,
    ensures
        ({
            let (r, d, reqs) = s_dispatch(v, e, tempos, fresh, Command::AddToPlaylist { track, playlist });
            match playlist_of(v.w.s, playlist) {
                Some(p) => {
                    &&& d == Some(DispatchView::Handled)
                    &&& playlist_of(r.w.s, playlist) matches Some(x) && x.name == p.name && x.items.len() == p.items.len() + 1
                        && x.items.last() == track && x.items.drop_last() == p.items
                    &&& forall|k: u128| k != playlist.0 && #[trigger] v.w.s.playlists.dom().contains(k) ==> r.w.s.playlists.dom().contains(k)
                        && r.w.s.playlists[k] == v.w.s.playlists[k]
                },
                None => d is None && r.w.s == v.w.s,
            }
        }),
        s_dispatch(v, e, tempos, fresh, Command::AddToPlaylist { track, playlist }).0.w.s.tracks == v.w.s.tracks,
        s_dispatch(v, e, tempos, fresh, Command::AddToPlaylist { track, playlist }).2.len() == 0,
{
    if let Some(p) = playlist_of(v.w.s, playlist) {
        assert(p.items.push(track).drop_last() =~= p.items);
    }
}

/// What lies outside is asked for as it was typed, and nothing is changed for it.
pub proof fn outside_work_is_asked_for(v: SessionView, e: EnvView, tempos: Map<Seq<char>, String>, fresh: PlaylistId, text: String)
    ensures
        ({
            let (r, d, reqs) = s_dispatch(v, e, tempos, fresh, Command::ImportM3u(text));
            same_but_drawn(v, r) && reqs.len() == 1 && reqs[0] == RequestView::ReadPlaylist(text@)
        }),
        ({
            let (r, d, reqs) = s_dispatch(v, e, tempos, fresh, Command::AddUri(text));
            same_but_drawn(v, r) && reqs.len() == 1 && reqs[0] == RequestView::ResolveUri(text@)
        }),
        ({
            let (r, d, reqs) = s_dispatch(v, e, tempos, fresh, Command::ToggleScan);
            same_but_drawn(v, r) && reqs.len() == 1 && reqs[0] == RequestView::ToggleScan
        }),
        ({
            let (r, d, reqs) = s_dispatch(v, e, tempos, fresh, Command::Update);
            same_but_drawn(v, r) && reqs.len() == 1 && reqs[0] == RequestView::Update
        }),
        ({
            let (r, d, reqs) = s_dispatch(v, e, tempos, fresh, Command::Quit);
            same_but_drawn(v, r) && reqs.len() == 0 && d == Some(DispatchView::Quit)
        }),
{
}

/// Files are looked for at every path that was named, for the playlist that was named.
pub proof fn files_are_looked_for(v: SessionView, e: EnvView, tempos: Map<Seq<char>, String>, fresh: PlaylistId, playlist: Option<PlaylistId>, paths: Vec<String>)
    ensures
        ({
            let (r, d, reqs) = s_dispatch(v, e, tempos, fresh, Command::AddFilesToPlaylist { playlist, paths });
            &&& same_but_drawn(v, r)
            &&& reqs.len() == 1
            &&& reqs[0] matches RequestView::FindFiles { playlist: p, paths: found } && p == playlist && found.len()
                == paths@.len() && forall|i: int| 0 <= i < found.len() ==> #[trigger] found[i] == paths@[i]@
        }),
{
}

/// Only an answer that a program can end on ends it: nothing else that is asked for quits.
pub proof fn only_quit_quits(v: SessionView, e: EnvView, tempos: Map<Seq<char>, String>, fresh: PlaylistId, cmd: Command)
    ensures
        s_dispatch(v, e, tempos, fresh, cmd).1 == Some(DispatchView::Quit) <==> cmd is Quit,
{
    reveal(export_of);
    reveal(s_like);
    reveal(s_toggle);
}

} // verus!
