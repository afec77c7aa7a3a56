//! What a front-end is shown.

use vstd::prelude::*;
use crate::event::CoreEvent;
use crate::env::EnvView;
use crate::queue::window_of;
use crate::session::{Session, SessionView};
use crate::session_events::s_event;
use crate::session_views::{lists_playlists, playlist_views, reserved};
use crate::store::track_of;
use crate::traits::PlayerStatus;
use crate::types::{Playlist, Track, TrackId};

verus! {

/// What was played last comes first, and every play is there.
pub proof fn the_last_play_comes_first(s: Session, r: Vec<TrackId>)
    requires
        call_ensures(Session::history_ids, (&s,), r),
    ensures
        ({
            let h = s@.w.p.queue.history;
            &&& r@.len() == h.len()
            &&& forall|i: int| 0 <= i < h.len() ==> #[trigger] r@[i] == h[h.len() - 1 - i].0
        }),
{
}

/// The queue as it is shown: what is current, and behind it what waits, in its order.
pub proof fn what_is_current_heads_the_queue(s: Session, r: Vec<TrackId>)
    requires
        call_ensures(Session::queue_ids, (&s,), r),
    ensures
        ({
            let q = s@.w.p.queue;
            &&& q.current is None ==> r@ == q.queue
            &&& q.current is Some ==> r@.len() == q.queue.len() + 1 && Some(r@[0]) == q.current && r@.drop_first() == q.queue
        }),
{
    if let Some(id) = s@.w.p.queue.current {
        assert((seq![id] + s@.w.p.queue.queue).drop_first() =~= s@.w.p.queue.queue);
    }
}

/// A window of a list holds the rows from its offset on, no more than its height, and as many as
/// there are.
pub proof fn windows_hold_their_rows<T>(s: Seq<T>, offset: nat, limit: nat)
    ensures
        ({
            let w = window_of(s, offset, limit);
            &&& offset + limit <= s.len() ==> w.len() == limit
            &&& offset <= s.len() && s.len() < offset + limit ==> w.len() == s.len() - offset
            &&& offset >= s.len() ==> w.len() == 0
            &&& forall|i: int| 0 <= i < w.len() ==> #[trigger] w[i] == s[offset + i]
        }),
{
}

/// What a search found is shown in the order in which it came, each track once, and only what the
/// search that is shown found.
pub proof fn hits_are_shown(v: SessionView, e: EnvView, search: u64, track: TrackId, status: PlayerStatus)
    requires
        v.cache.results.dom().contains(v.shown_search as u128),
        track_of(v.w.s, track) matches Some(t) && t.id == track,
    ensures
        ({
            let (r, drawn, fetches) = s_event(v, e, CoreEvent::SearchHit { search, track }, status);
            let before = v.cache.results[v.shown_search as u128].tracks;
            let after = r.cache.results[v.shown_search as u128].tracks;
            let known = exists|i: int| 0 <= i < before.len() && (#[trigger] before[i]).id == track;
            &&& drawn == (search == v.shown_search)
            &&& search != v.shown_search ==> r.cache == v.cache
            &&& search == v.shown_search && known ==> after == before
            &&& search == v.shown_search && !known ==> after.len() == before.len() + 1 && after.last() == v.w.s.tracks[track.0]
                && after.drop_last() == before
            &&& r.w == v.w
        }),
{
    let before = v.cache.results[v.shown_search as u128].tracks;
    let t = v.w.s.tracks[track.0];
    assert(before.push(t).drop_last() =~= before);
}

/// The end of a search is drawn exactly if it is the one that is shown.
pub proof fn only_the_shown_search_ends(v: SessionView, e: EnvView, search: u64, source: crate::types::SourceId, status: PlayerStatus)
    ensures
        s_event(v, e, CoreEvent::SearchDone { search, source }, status).1 <==> search == v.shown_search,
        s_event(v, e, CoreEvent::SearchDone { search, source }, status).0.cache == v.cache,
{
}

/// The results are those of the search that is shown.
pub proof fn results_are_of_the_shown_search(s: Session, r: Vec<TrackId>)
    requires
        call_ensures(Session::results_ids, (&s,), r),
    ensures
        s@.cache.results.dom().contains(s@.shown_search as u128) ==> r@.len() == s@.cache.results[s@.shown_search as u128].tracks.len()
            && forall|i: int| 0 <= i < r@.len() ==> #[trigger] r@[i] == s@.cache.results[s@.shown_search as u128].tracks[i].id,
        !s@.cache.results.dom().contains(s@.shown_search as u128) ==> r@.len() == 0,
{
}

/// Every playlist of the user is listed once, and nothing else: the lists that the player keeps
/// for itself are not shown.
pub proof fn the_users_playlists_are_listed(s: Session, r: Vec<Playlist>, k: u128)
    requires
        call_ensures(Session::playlists, (&s,), r),
    ensures
        ({
            let m = s@.w.s.playlists;
            let own = k == crate::session::QUEUE_PLAYLIST_ID || k == crate::session::HISTORY_PLAYLIST_ID || k
                == crate::playback::NOW_PLAYING_PLAYLIST_ID;
            m.dom().contains(k) && !own ==> exists|i: int| 0 <= i < r@.len() && (#[trigger] r@[i])@ == m[k]
        }),
{
    let m = s@.w.s.playlists;
    let ids = choose|ids: Seq<u128>| #[trigger] lists_playlists(m, ids, playlist_views(r@));
    assert(playlist_views(r@).len() == ids.len());
    if m.dom().contains(k) && !reserved(k) {
        assert(ids.contains(k));
        let i = choose|i: int| 0 <= i < ids.len() && ids[i] == k;
        assert(playlist_views(r@)[i] == m[k]);
        assert(r@[i]@ == m[k]);
    }
}

proof fn lemma_listed(m: Map<u128, crate::types::PlaylistView>, ids: Seq<u128>, row: Seq<crate::types::PlaylistView>, j: u128)
    requires
        lists_playlists(m, ids, row),
        ids.contains(j),
    ensures
        m.dom().contains(j),
        !reserved(j),
{
    assert(m.dom().contains(j) && !reserved(j) || !ids.contains(j)) by {
        if !m.dom().contains(j) || reserved(j) {
            assert(!(m.dom().contains(j) && !reserved(j)));
        }
    }
}

/// What is listed is a playlist of the library, and none that the player keeps for itself.
pub proof fn only_playlists_are_listed(s: Session, r: Vec<Playlist>, i: int)
    requires
        call_ensures(Session::playlists, (&s,), r),
        0 <= i < r@.len(),
    ensures
        exists|j: u128| #[trigger] s@.w.s.playlists.dom().contains(j) && s@.w.s.playlists[j] == r@[i]@ && j
            != crate::session::QUEUE_PLAYLIST_ID && j != crate::playback::NOW_PLAYING_PLAYLIST_ID,
{
    let m = s@.w.s.playlists;
    let ids = choose|ids: Seq<u128>| #[trigger] lists_playlists(m, ids, playlist_views(r@));
    assert(playlist_views(r@).len() == r@.len());
    assert(playlist_views(r@)[i] == r@[i]@);
    assert(lists_playlists(m, ids, playlist_views(r@)));
    assert(ids.len() == r@.len());
    let j = ids[i];
    lemma_listed(m, ids, playlist_views(r@), j);
}

/// What is said to play is the track that plays, as the library knows it.
pub proof fn the_playing_track_is_shown(s: Session, r: Option<Track>)
    requires
        call_ensures(Session::now_playing, (&s,), r),
    ensures
        s@.w.p.now_playing is None ==> r is None,
        s@.w.p.now_playing matches Some(id) ==> (track_of(s@.w.s, id) is Some ==> r is Some && Some(r->0@) == track_of(s@.w.s, id)),
{
}

/// The status tells the state, the position and the length of what plays.
pub proof fn the_status_is_of_what_plays(s: Session, r: PlayerStatus)
    requires
        call_ensures(Session::player_status, (&s,), r),
    ensures
        r.state == s@.w.p.state,
        r.position_ms == s@.w.p.progress.0,
        r.duration_ms == s@.w.p.progress.1,
{
}

} // verus!
