//! What lists of other sources show: what is asked of a source and when, what a change that is
//! not answered yet does, and how its answer ends it.

use vstd::prelude::*;
use crate::event::{Bus, CoreEvent};
use crate::remote::{holds_track, Browse, ListView, Loaded};
use crate::store::MemStore;
use crate::traits::{BrowseNode, Error};
use crate::types::{SourceId, Track, TrackId, TrackView};
use crate::view_cache::{
    await_membership, changes_of, folder_key_of, folder_map, list_key_of, list_of, looked_at, membership_of,
    request, retry_rows, shown_rows, track_pending, Await, CacheView, Change, FolderKind, Membership, PendingView,
    Request, ViewCache, WINDOW_MARGIN,
};

verus! {

/// Nothing is asked for where things are as they should be; an addition always is, and a removal
/// only where the row is still that of the track.
pub proof fn only_what_differs_is_asked_for(member: bool, row_holds: bool, add: Request, remove: Request)
    requires
        call_ensures(request, (true, member, row_holds), add),
        call_ensures(request, (false, member, row_holds), remove),
    ensures
        member ==> add == Request::Nothing,
        !member ==> add == Request::Add && remove == Request::Nothing,
        member && row_holds ==> remove == Request::Remove,
        member && !row_holds ==> remove == Request::Refused,
{
}

/// A list that is there answers whether the track is in it; one that broke fails at once, and
/// any other is waited for until the time is over.
pub proof fn lists_are_waited_for(loaded: Option<Loaded>, now: u64, deadline: u64, r: Await)
    requires
        call_ensures(await_membership, (loaded, now, deadline), r),
    ensures
        loaded matches Some(Loaded::Complete(m)) ==> r == Await::Member(m),
        loaded == Some(Loaded::Broken) ==> r is Failed,
        !(loaded matches Some(Loaded::Complete(_))) ==> !(r is Member),
        loaded is None && now < deadline ==> r is Wait,
        loaded is None && now >= deadline ==> r is Failed,
{
}

/// A change that was taken shows at once as waiting for its answer, and until then no other change
/// of the same track is taken.
pub proof fn one_change_at_a_time(c: &mut ViewCache, source: &SourceId, node: &BrowseNode, track: &Track, change: Change, front: bool, bus: &mut Bus, r: bool, after: &mut ViewCache, other: Change, then: &mut Bus, again: bool)
    requires
        call_ensures(ViewCache::set_remote_membership, (c, source, node, track, change, front, bus), r),
        *old(after) == *final(c),
        call_ensures(ViewCache::set_remote_membership, (after, source, node, track, other, front, then), again),
        change is Add || change == Change::Remove(None),
    ensures
        !again,
        final(after)@.pending == final(c)@.pending,
        r ==> track_pending(changes_of(final(c)@, source@, node@), track@.id),
        r ==> final(bus)@ == old(bus)@.push(CoreEvent::PlaylistsChanged),
        !r ==> final(bus)@ == old(bus)@,
        final(c)@.lists == old(c)@.lists,
{
    let k = list_key_of(source@, node@);
    let v = changes_of(old(c)@, source@, node@);
    let w = changes_of(final(c)@, source@, node@);
    if r {
        assert(w[v.len() as int].track.id == track@.id && w[v.len() as int].position is None);
        assert(crate::view_cache::clash(w[v.len() as int], track@.id, crate::view_cache::position_of(other)));
    } else {
        let i = choose|i: int| 0 <= i < v.len() && crate::view_cache::clash(#[trigger] v[i], track@.id, None);
        assert(crate::view_cache::clash(w[i], track@.id, crate::view_cache::position_of(other)));
    }
    assert(final(after)@.pending =~= final(c)@.pending);
}

/// An addition that waits is a member to be, a removal that waits one that is to go.
pub proof fn waiting_changes_are_told_apart(list: Seq<TrackView>, t: TrackView, add: bool, front: bool)
    ensures
        ({
            let v = seq![PendingView { track: t, add, position: None, front }];
            &&& add ==> membership_of(v, list, t.id) == Membership::PendingAdd
            &&& !add ==> membership_of(v, list, t.id) == Membership::PendingRemove
            &&& membership_of(Seq::empty(), list, t.id) is Member <==> holds_track(list, t.id)
            &&& !add ==> shown_rows(v, list) == list
        }),
{
    let v = seq![PendingView { track: t, add, position: None, front }];
    reveal_with_fuel(crate::view_cache::first_change, 3);
    reveal_with_fuel(crate::view_cache::adds, 3);
    assert(v.drop_last() =~= Seq::empty());
    if !add {
        assert(shown_rows(v, list) =~= list);
    }
}

/// The answer to a change ends it, whether it went well or not; the answer is told as what it is.
pub proof fn answers_end_a_change(c: &mut ViewCache, source: &SourceId, node: &BrowseNode, track: &Track, front: bool, outcome: Result<bool, Error>, store: &mut MemStore, bus: &mut Bus, reload: bool)
    requires
        call_ensures(ViewCache::finish_change, (c, source, node, track, Change::Add, front, false, outcome, store, bus), reload),
    ensures
        !track_pending(changes_of(final(c)@, source@, node@), track@.id),
        final(bus)@.last() matches CoreEvent::MembershipResult(o) && (outcome is Ok <==> o is Changed),
        outcome is Err ==> !reload && final(store)@ == old(store)@ && list_of(final(c)@, source@, node@) == list_of(
            old(c)@,
            source@,
            node@,
        ),
        final(bus)@.take(old(bus)@.len() as int) == old(bus)@,
{
    let v = changes_of(old(c)@, source@, node@);
    let keep = crate::view_cache::other_change(track@.id, None);
    let w = v.filter(keep);
    assert(changes_of(final(c)@, source@, node@) == w);
    if track_pending(w, track@.id) {
        let i = choose|i: int| 0 <= i < w.len() && (#[trigger] w[i]).position is None && w[i].track.id == track@.id;
        v.lemma_filter_pred(keep, i);
        assert(false);
    }
    let l = list_of(old(c)@, source@, node@);
    if outcome is Err && l is Some {
        assert(final(c)@.lists =~= old(c)@.lists);
    }
}

/// A list that is looked at is fetched where it is not there and its source is; one that is being
/// fetched, or is there in full, is not fetched again.
pub proof fn lists_are_fetched_once(c: CacheView, s: crate::store::StoreView, want: int, source: Seq<char>, node: Option<Seq<char>>)
    ensures
        list_of(c, source, node) is None ==> looked_at(c, s, true, want, source, node).1 is Some,
        looked_at(c, s, false, want, source, node).1 is None,
        list_of(c, source, node) matches Some(l) && l.browsing ==> looked_at(c, s, true, want, source, node).1 is None,
        list_of(c, source, node) matches Some(l) && !l.partial && !l.errored ==> looked_at(c, s, true, want, source, node).1 is None,
        ({
            let (d, b) = looked_at(c, s, true, want, source, node);
            b is Some ==> looked_at(d, s, true, want, source, node).1 is None
        }),
{
}

/// A list whose fetch failed is tried again, one row further than it is, but not within half a
/// minute of the failure; any other is left alone.
pub proof fn failed_lists_are_tried_again_later(c: CacheView, source: Seq<char>, node: Option<Seq<char>>, l: ListView, at: u64, now: u64)
    requires
        list_of(c, source, node) == Some(l),
        l.failed_at == Some(at),
        l.tracks.len() < usize::MAX,
        at <= now,
    ensures
        l.errored && !l.partial && now - at >= 30_000 ==> retry_rows(c, source, node, now) == l.tracks.len() + 1,
        now - at < 30_000 ==> retry_rows(c, source, node, now) == 0,
        !l.errored || l.partial ==> retry_rows(c, source, node, now) == 0,
{
}

/// Two lists, of one source or of two, are never taken for one another.
pub proof fn lists_are_told_apart(a: Seq<char>, m: Option<Seq<char>>, b: Seq<char>, n: Option<Seq<char>>)
    requires
        !a.contains('\0'),
        !b.contains('\0'),
        list_key_of(a, m) == list_key_of(b, n),
    ensures
        a == b,
        m == n,
{
    let x = list_key_of(a, m);
    let y = list_key_of(b, n);
    assert(x[a.len() as int] == '\0');
    assert(y[b.len() as int] == '\0');
    if a.len() < b.len() {
        assert(y[a.len() as int] == b[a.len() as int]);
        assert(b.contains('\0'));
    }
    if b.len() < a.len() {
        assert(x[b.len() as int] == a[b.len() as int]);
        assert(a.contains('\0'));
    }
    assert forall|i: int| 0 <= i < a.len() implies a[i] == b[i] by {
        assert(x[i] == a[i] && y[i] == b[i]);
    }
    assert(a =~= b);
    match (m, n) {
        (Some(p), Some(q)) => {
            assert(x.skip(a.len() as int + 2) =~= p);
            assert(y.skip(b.len() as int + 2) =~= q);
        },
        (None, Some(q)) => {
            assert(x.len() == a.len() + 1);
        },
        (Some(p), None) => {
            assert(y.len() == b.len() + 1);
        },
        _ => {},
    }
}

/// What is kept of a source's playlists is not what is kept of its albums.
pub proof fn playlists_and_albums_are_apart(source: Seq<char>, c: CacheView)
    ensures
        folder_key_of(source, FolderKind::Playlists) != folder_key_of(source, FolderKind::Albums),
        folder_map(c, FolderKind::Playlists) == c.playlists && folder_map(c, FolderKind::Albums) == c.albums,
{
    reveal_strlit("#albums");
    assert(folder_key_of(source, FolderKind::Albums).len() == source.len() + 7);
}

/// A search that begins has found nothing, and shows the words it was asked with.
pub proof fn searches_begin_empty(c: &mut ViewCache, id: u64, query: String, other: u64)
    requires
        call_ensures(ViewCache::begin_search, (c, id, query), ()),
    ensures
        final(c)@.results.dom().contains(id as u128),
        final(c)@.results[id as u128].query == query@,
        final(c)@.results[id as u128].tracks.len() == 0 && final(c)@.results[id as u128].collections.len() == 0,
        other != id ==> final(c)@.results.dom().contains(other as u128) == old(c)@.results.dom().contains(other as u128),
        other != id && old(c)@.results.dom().contains(other as u128) ==> final(c)@.results[other as u128]
            == old(c)@.results[other as u128],
{
}

/// A track that a search found stands in its results once, behind what was found before.
pub proof fn found_tracks_are_listed_once(c: &mut ViewCache, id: u64, track: TrackId, store: &MemStore, r: bool)
    requires
        call_ensures(ViewCache::push_result, (c, id, track, store), r),
        old(c)@.results.dom().contains(id as u128),
        store@.tracks.dom().contains(track.0),
        store@.tracks[track.0].id == track,
    ensures
        r,
        holds_track(final(c)@.results[id as u128].tracks, track),
        holds_track(old(c)@.results[id as u128].tracks, track) ==> final(c)@.results[id as u128] == old(c)@.results[id as u128],
        !holds_track(old(c)@.results[id as u128].tracks, track) ==> final(c)@.results[id as u128].tracks.drop_last()
            == old(c)@.results[id as u128].tracks && final(c)@.results[id as u128].tracks.last() == store@.tracks[track.0],
{
    let v = old(c)@.results[id as u128].tracks;
    if !holds_track(v, track) {
        let w = final(c)@.results[id as u128].tracks;
        assert(w.drop_last() =~= v);
        assert(w[v.len() as int].id == track);
    }
}

/// A window on a list holds its rows from the offset on, and asks for some rows more than it shows.
pub proof fn list_windows_hold_their_rows(c: &mut ViewCache, source: &SourceId, node: &BrowseNode, offset: usize, limit: usize, store: &MemStore, r: (Vec<Track>, Option<Browse>), l: ListView, i: int)
    requires
        offset + limit + WINDOW_MARGIN <= usize::MAX,
        call_ensures(ViewCache::remote_playlist_window, (c, source, node, offset, limit, true, store), r),
        list_of(old(c)@, source@, node@) == Some(l),
        !old(c)@.pending.dom().contains(list_key_of(source@, node@)),
        0 <= i,
    ensures
        r.0@.len() <= limit,
        i < limit && offset + i < l.tracks.len() ==> i < r.0@.len() && r.0@[i]@ == l.tracks[offset + i],
        l.errored && !l.partial && !l.browsing && !l.ingesting && l.consecutive_failures == 0 ==> (r.1 is Some <==> offset
            + limit + 50 > l.tracks.len()),
{
    reveal_with_fuel(crate::view_cache::adds, 2);
    let d = final(c)@;
    assert(changes_of(d, source@, node@) =~= Seq::empty());
    let m = list_of(d, source@, node@)->0;
    assert(m.tracks == l.tracks);
    assert(shown_rows(changes_of(d, source@, node@), l.tracks) =~= l.tracks);
    let w = crate::types::track_views(r.0@);
    assert(w.len() == r.0@.len());
    if i < limit && offset + i < l.tracks.len() {
        assert(w[i] == r.0@[i]@);
    }
}

} // verus!
