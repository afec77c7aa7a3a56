//! What an event of the player or of a source does: what is shown anew, what is fetched, and what
//! is listed.

use vstd::prelude::*;
use crate::command::{Command, RequestView};
use crate::dispatch::s_dispatch;
use crate::env::EnvView;
use crate::event::{CoreEvent, PlayerEvent};
use crate::folders::folders_due;
use crate::playback::{EffectView, World};
use crate::player_events::{event_track_of, w_deferred, w_player_event};
use crate::session::{source_at, Session, SessionView, SourceView};
use crate::session_events::{ill, s_all_folders, s_event, s_install, s_liked_lists, well, with_refreshed, FetchView};
use crate::store::{playlist_of, track_of, StoreView};
use crate::traits::{Error, PlayerStatus};
use crate::types::{PlaylistId, SourceId, Track, TrackId, TrackView};
use crate::remote::holds_track;
use crate::view_cache::{folders_of, list_of, CacheView, FolderKind};

verus! {

/// A track that changed is shown as it is now, wherever it stands; every other row stays as it is.
pub proof fn changed_tracks_are_shown_anew(c: CacheView, s: StoreView, id: TrackId, t: TrackView, search: u128, i: int)
    requires
        track_of(s, id) == Some(t),
        c.results.dom().contains(search),
        0 <= i < c.results[search].tracks.len(),
    ensures
        ({
            let d = with_refreshed(c, s, id);
            let row = c.results[search].tracks[i];
            &&& d.results.dom().contains(search)
            &&& d.results[search].tracks.len() == c.results[search].tracks.len()
            &&& row.id == id ==> d.results[search].tracks[i] == t
            &&& row.id != id ==> d.results[search].tracks[i] == row
            &&& d.results[search].query == c.results[search].query
        }),
{
}

/// The same holds of the lists of other sources.
pub proof fn changed_tracks_are_listed_anew(c: CacheView, s: StoreView, id: TrackId, t: TrackView, key: Seq<char>, i: int)
    requires
        track_of(s, id) == Some(t),
        c.lists.dom().contains(key),
        0 <= i < c.lists[key].tracks.len(),
    ensures
        ({
            let d = with_refreshed(c, s, id);
            let row = c.lists[key].tracks[i];
            &&& d.lists.dom().contains(key)
            &&& d.lists[key].tracks.len() == c.lists[key].tracks.len()
            &&& row.id == id ==> d.lists[key].tracks[i] == t
            &&& row.id != id ==> d.lists[key].tracks[i] == row
        }),
{
}

/// An album or a playlist that the shown search found is listed, and one of another search is not.
pub proof fn found_collections_are_listed(v: SessionView, e: EnvView, ev: CoreEvent, status: PlayerStatus)
    requires
        ev is SearchCollection,
        v.cache.results.dom().contains(v.shown_search as u128),
    ensures
        ({
            let (r, shown, fetches) = s_event(v, e, ev, status);
            let was = v.cache.results[v.shown_search as u128].collections;
            let now = r.cache.results[v.shown_search as u128].collections;
            &&& ev->SearchCollection_search == v.shown_search ==> shown && now.len() == was.len() + 1 && now.take(
                was.len() as int,
            ) == was && now.last().0 == ev->SearchCollection_source@ && now.last().2 == ev->SearchCollection_name@
            &&& ev->SearchCollection_search != v.shown_search ==> !shown && r.cache == v.cache
            &&& fetches.len() == 0
            &&& r.w == v.w
        }),
{
    let (r, _, _) = s_event(v, e, ev, status);
    if ev->SearchCollection_search == v.shown_search {
        let was = v.cache.results[v.shown_search as u128].collections;
        let now = r.cache.results[v.shown_search as u128].collections;
        assert(now.take(was.len() as int) =~= was);
    }
}

/// A source is there once after it was brought, as it was brought; the others stay.
pub proof fn sources_are_there_once(v: SessionView, f: SourceView, other: Seq<char>)
    requires
        other != f.id,
    ensures
        ({
            let r = s_install(v, f);
            &&& source_at(r.sources, f.id, 0) matches Some(i) && r.sources[i] == f
            &&& source_at(v.sources, f.id, 0) is Some ==> r.sources.len() == v.sources.len()
            &&& source_at(v.sources, f.id, 0) is None ==> r.sources.len() == v.sources.len() + 1
            &&& source_at(v.sources, other, 0) matches Some(i) ==> source_at(r.sources, other, 0) == Some(i) && r.sources[i]
                == v.sources[i]
            &&& source_at(v.sources, other, 0) is None ==> source_at(r.sources, other, 0) is None
            &&& folders_of(r.cache.playlists, f.id) matches Some(x) ==> x.last_attempt is None
        }),
{
    lemma_source_at(v.sources, f.id, 0);
    lemma_source_at(v.sources, other, 0);
    match source_at(v.sources, f.id, 0) {
        Some(i) => {
            let w = v.sources.update(i, f);
            lemma_found(w, f.id, 0, i);
            match source_at(v.sources, other, 0) {
                Some(j) => {
                    lemma_found(w, other, 0, j);
                },
                None => {
                    lemma_not_found(w, other, 0);
                },
            }
        },
        None => {
            let w = v.sources.push(f);
            lemma_found(w, f.id, 0, v.sources.len() as int);
            match source_at(v.sources, other, 0) {
                Some(j) => {
                    lemma_found(w, other, 0, j);
                },
                None => {
                    lemma_not_found(w, other, 0);
                },
            }
        },
    }
}

proof fn lemma_source_at(v: Seq<SourceView>, id: Seq<char>, i: int)
    requires
        0 <= i,
    ensures
        match source_at(v, id, i) {
            Some(k) => i <= k < v.len() && v[k].id == id && forall|j: int| i <= j < k ==> (#[trigger] v[j]).id != id,
            None => forall|j: int| i <= j < v.len() ==> (#[trigger] v[j]).id != id,
        },
    decreases v.len() - i,
{
    if i < v.len() && v[i].id != id {
        lemma_source_at(v, id, i + 1);
    }
}

proof fn lemma_found(v: Seq<SourceView>, id: Seq<char>, i: int, k: int)
    requires
        0 <= i <= k < v.len(),
        v[k].id == id,
        forall|j: int| i <= j < k ==> (#[trigger] v[j]).id != id,
    ensures
        source_at(v, id, i) == Some(k),
    decreases k - i,
{
    if i < k {
        assert(v[i].id != id);
        lemma_found(v, id, i + 1, k);
    }
}

proof fn lemma_not_found(v: Seq<SourceView>, id: Seq<char>, i: int)
    requires
        0 <= i,
        forall|j: int| i <= j < v.len() ==> (#[trigger] v[j]).id != id,
    ensures
        source_at(v, id, i) is None,
    decreases v.len() - i,
{
    if i < v.len() {
        assert(v[i].id != id);
        lemma_not_found(v, id, i + 1);
    }
}

/// The folders of the last source are fetched where they are due and the source is not known to be
/// ill; the albums only of a source that has them. What was to be fetched of the others is fetched
/// all the same.
pub proof fn due_folders_are_fetched(v: SessionView, now: u64, n: int)
    requires
        0 < n <= v.sources.len(),
    ensures
        ({
            let s = v.sources[n - 1];
            let (c, out) = s_all_folders(v, now, n - 1);
            let (d, all) = s_all_folders(v, now, n);
            let f = folders_of(c.playlists, s.id);
            &&& all.len() >= out.len() && all.take(out.len() as int) == out
            &&& ill(v.w.p.warnings, s.id) ==> all == out && d == c
            &&& !ill(v.w.p.warnings, s.id) && f is Some && folders_due(f->0, now) ==> all.contains(
                FetchView::Folders { kind: FolderKind::Playlists, source: s.id },
            ) && (folders_of(d.playlists, s.id) matches Some(g) && g.browsing && g.last_attempt == Some(now))
            &&& !ill(v.w.p.warnings, s.id) && f is Some && !folders_due(f->0, now) && !s.has_albums ==> all == out
            &&& !s.has_albums ==> d.albums == c.albums
        }),
{
    let s = v.sources[n - 1];
    let (c, out) = s_all_folders(v, now, n - 1);
    let (d, all) = s_all_folders(v, now, n);
    assert(all.take(out.len() as int) =~= out);
    let f = folders_of(c.playlists, s.id);
    if !ill(v.w.p.warnings, s.id) && f is Some && folders_due(f->0, now) {
        let x = FetchView::Folders { kind: FolderKind::Playlists, source: s.id };
        assert(all[out.len() as int] == x);
    }
}

/// The list of liked tracks is fetched of a source that is known to be well and has one, and of no
/// other.
pub proof fn liked_lists_are_kept_at_hand(v: SessionView, now: u64, n: int)
    requires
        0 < n <= v.sources.len(),
    ensures
        ({
            let s = v.sources[n - 1];
            let (c, out) = s_liked_lists(v, now, n - 1);
            let (d, all) = s_liked_lists(v, now, n);
            &&& s.liked is None || !well(v.w.p.warnings, s.id) ==> d == c && all == out
            &&& (s.liked matches Some(node) && well(v.w.p.warnings, s.id) && list_of(c, s.id, node) is None) ==> all.len()
                == out.len() + 1 && (all.last() matches FetchView::Tracks { source, node: at, .. } && source == s.id && at == s.liked->0)
            &&& (s.liked matches Some(node) && (list_of(c, s.id, node) matches Some(l) && l.browsing)) ==> all == out
        }),
{
}

/// Exporting to a path that was given writes the same file there as exporting to the usual one.
pub proof fn exports_go_where_they_are_told(v: SessionView, e: EnvView, tempos: Map<Seq<char>, String>, fresh: PlaylistId, id: PlaylistId, path: String)
    ensures
        ({
            let (r, d, reqs) = s_dispatch(v, e, tempos, fresh, Command::ExportM3uTo { playlist: id, path });
            let (usual, done, same) = s_dispatch(v, e, tempos, fresh, Command::ExportM3u(id));
            &&& playlist_of(v.w.s, id) is None ==> d is None && reqs.len() == 0
            &&& playlist_of(v.w.s, id) is Some ==> reqs.len() == 1 && same.len() == 1 && (reqs[0] matches RequestView::WriteFile {
                path: at,
                text,
            } && at == path@ && (same[0] matches RequestView::WriteFile { path: other, text: t } && t == text))
            &&& r == usual
            &&& r.w == v.w
        }),
{
    reveal(crate::dispatch::export_of);
}

/// A load that was put off is made when its time comes, once, and only if its track is still the
/// current one.
pub proof fn put_off_loads_are_made(w: World, seq: u64)
    ensures
        ({
            let r = w_deferred(w, seq);
            &&& w.p.deferred is None ==> r == w
            &&& w.p.deferred matches Some(d) ==> {
                &&& d.seq != seq ==> r == w
                &&& d.seq == seq ==> r.p.deferred is None
                &&& d.seq == seq && w.p.queue.current == Some(d.track) ==> r.p.effects.len() == w.p.effects.len() + 1 && r.p.effects.last()
                    == (EffectView::Load { player: d.player, rendition: d.rendition })
                &&& d.seq == seq && w.p.queue.current != Some(d.track) ==> r.p.effects == w.p.effects
            }
        }),
{
}

/// A file that is there in full is scanned before all others, and so is what begins to play.
pub proof fn what_is_there_is_scanned(w: World, e: EnvView, c: CacheView, source: SourceId, uri: String, id: TrackId, status: PlayerStatus)
    requires
        event_track_of(w, source@, uri@) == Some(id),
    ensures
        ({
            let r = w_player_event(w, e, c, PlayerEvent::Materialized { source, uri }, status);
            let p = w_player_event(w, e, c, PlayerEvent::Playing { source, uri }, status);
            let l = w_player_event(w, e, c, PlayerEvent::Loading { source, uri }, status);
            &&& r.p.effects == w.p.effects.push(EffectView::Prioritize(id))
            &&& p.p.effects == w.p.effects.push(EffectView::Prioritize(id))
            &&& l.p.effects == w.p.effects
            &&& p.p.now_playing == Some(id) && l.p.now_playing == Some(id)
            &&& r.p.queue == w.p.queue
        }),
{
}

/// A hint that a track ends soon is taken only from the current one.
pub proof fn hints_of_others_are_ignored(w: World, e: EnvView, c: CacheView, source: SourceId, uri: String, status: PlayerStatus)
    requires
        event_track_of(w, source@, uri@) is None || event_track_of(w, source@, uri@) != w.p.queue.current,
    ensures
        w_player_event(w, e, c, PlayerEvent::PreloadHint { source, uri }, status) == w,
{
}

/// An address that leads to a track adds it, and shows it among the results; one that leads to
/// nothing changes nothing and is refused.
pub proof fn added_addresses_are_shown(s: &mut Session, hit: &Option<Track>, fresh: TrackId, r: Result<TrackId, Error>)
    requires
        call_ensures(Session::add_uri, (s, hit, fresh), r),
    ensures
        *hit is None ==> r is Err && final(s)@ == old(s)@,
        *hit is Some ==> r is Ok,
        *hit is Some && old(s)@.cache.results.dom().contains(old(s)@.shown_search as u128) && final(s)@.w.s.tracks.dom().contains(
            (r->Ok_0).0,
        ) && final(s)@.w.s.tracks[(r->Ok_0).0].id == r->Ok_0 ==> holds_track(
            final(s)@.cache.results[old(s)@.shown_search as u128].tracks,
            r->Ok_0,
        ),
{
    if *hit is Some && old(s)@.cache.results.dom().contains(old(s)@.shown_search as u128) {
        let was = old(s)@.cache.results[old(s)@.shown_search as u128].tracks;
        let now = final(s)@.cache.results[old(s)@.shown_search as u128].tracks;
        if !holds_track(was, r->Ok_0) && final(s)@.w.s.tracks.dom().contains((r->Ok_0).0) {
            assert(now[was.len() as int] == final(s)@.w.s.tracks[(r->Ok_0).0]);
        }
    }
}

} // verus!
