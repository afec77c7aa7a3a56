//! Which row is marked as the one that plays, which playlist plays, and what the letters of the
//! keys stand for.

use vstd::prelude::*;
use crate::hotkeys::{HotkeyTarget, HotkeyView};
use crate::playback::ContextView;
use crate::session::Session;
use crate::session_keys::{is_synthetic, memo_stale};
use crate::session_views::{LastPlayed, ListRef};
use crate::session_events::fetch_views;
use crate::types::TrackId;
use crate::session_events::Fetch;

verus! {

/// The marked row holds the track that plays, and there is one wherever the list holds it.
pub proof fn the_marked_row_plays(s: &Session, ids: &Vec<TrackId>, own: &ListRef, r: Option<usize>)
    requires
        call_ensures(Session::playing_row, (s, ids, own), r),
    ensures
        r matches Some(i) ==> i < ids@.len() && s@.w.p.now_playing == Some(ids@[i as int]),
        r is None ==> (s@.w.p.now_playing matches Some(id) ==> !ids@.contains(id)),
{
}

/// In the list that plays, the row it stands at is the marked one, however often it holds the
/// track.
pub proof fn the_playing_list_marks_its_own_row(s: &Session, ids: &Vec<TrackId>, x: ContextView, r: Option<usize>)
    requires
        call_ensures(Session::playing_row, (s, ids, &ListRef::Context), r),
        s@.w.p.context == Some(x),
        ids@ == x.tracks,
        x.index < x.tracks.len(),
        s@.w.p.now_playing == Some(x.tracks[x.index as int]),
    ensures
        r == Some(x.index),
{
    assert(ids@[x.index as int] == x.tracks[x.index as int]);
    assert(ids@.contains(x.tracks[x.index as int]));
}

/// In another list the first row that holds the track is the marked one.
pub proof fn other_lists_mark_their_first_row(s: &Session, ids: &Vec<TrackId>, k: int, r: Option<usize>)
    requires
        call_ensures(Session::playing_row, (s, ids, &ListRef::Other), r),
        0 <= k < ids@.len(),
        s@.w.p.now_playing == Some(ids@[k]),
        forall|j: int| 0 <= j < k ==> ids@[j] != ids@[k],
    ensures
        r matches Some(i) && i == k,
{
    assert(ids@.contains(ids@[k]));
}

/// The playlist that plays is the one its list came from, be it of a source or of the user's own;
/// a list of neither is no playlist.
pub proof fn the_list_tells_the_playlist(s: &Session, x: ContextView, r: Option<HotkeyTarget>, l: Option<LastPlayed>)
    requires
        s@.w.p.context == Some(x),
        call_ensures(Session::playing_playlist, (s,), r),
        call_ensures(Session::last_played, (s,), l),
    ensures
        x.remote matches Some(p) ==> (r matches Some(t) && t@ == HotkeyView::Remote(p.0, p.1)),
        x.remote is None && x.local is Some ==> (r matches Some(t) && t@ == HotkeyView::Local(x.local->0)),
        x.remote is None && x.local is None ==> r is None,
        s@.w.p.now_playing is None <==> l is None,
        l matches Some(p) ==> s@.w.p.now_playing == Some(p.track) && (p.playlist is Some <==> r is Some),
{
}

/// After keys were taken over no key leads to a list that is no real playlist, none to anything
/// that was not among them, and every key to a real playlist that no action has is there.
pub proof fn taken_over_keys_are_those_that_were_given(s: &mut Session, entries: &Vec<(char, HotkeyTarget)>, i: int, k: char)
    requires
        call_ensures(Session::set_hotkeys, (s, entries), ()),
        forall|a: int, b: int| 0 <= a < b < entries@.len() ==> (#[trigger] entries@[a]).0 != (#[trigger] entries@[b]).0,
        0 <= i < entries@.len(),
        entries@[i].0 == k,
    ensures
        final(s)@.keys.dom().contains(k) ==> final(s)@.keys[k] == entries@[i].1@ && !is_synthetic(
            old(s)@.sources,
            entries@[i].1@,
        ),
        crate::actions::action_of_key(k) is None && !is_synthetic(old(s)@.sources, entries@[i].1@)
            ==> final(s)@.keys.dom().contains(k),
        forall|c: char| #[trigger] final(s)@.keys.dom().contains(c) ==> exists|j: int|
            0 <= j < entries@.len() && (#[trigger] entries@[j]).0 == c,
{
    let m = crate::hotkeys::whole_table(entries@);
    let j = choose|j: int| 0 <= j < entries@.len() && (#[trigger] entries@[j]).0 == k;
    assert(entries@[i].0 == k);
    assert(entries@[j].0 == k);
    if i < j {
        assert(entries@[i].0 != entries@[j].0);
    }
    if j < i {
        assert(entries@[j].0 != entries@[i].0);
    }
    assert(m.dom().contains(k) && m[k] == entries@[i].1@);
}

/// Each key that stands for a playlist has its row in the table of memberships: a playlist of the
/// user's own with the tracks it holds and nothing that waits for an answer.
pub proof fn letters_stand_for_their_playlists(s: &mut Session, now: u64, r: Vec<Fetch>, k: char)
    requires
        call_ensures(Session::hotkey_memberships, (s, now), r),
        memo_stale(old(s).memo, now),
        old(s)@.keys.dom().contains(k),
        old(s)@.keys[k] is Local,
    ensures
        exists|i: int|
            0 <= i < final(s).memo.table@.len() && (#[trigger] final(s).memo.table@[i]).key == k
                && final(s).memo.table@[i].members@ == crate::session_views::items_in(old(s)@, old(s)@.keys[k]->Local_0)
                && final(s).memo.table@[i].pending@.len() == 0,
        !memo_stale(final(s).memo, now),
{
    let row = choose|row: Seq<(char, HotkeyView)>| #[trigger]
        crate::session_keys::lettered_row(old(s)@, row) && {
            let (c, out) = crate::session_keys::s_nudged(old(s)@, row, row.len() as int);
            &&& final(s)@ == (crate::session::SessionView { cache: c, memo_dirty: false, ..old(s)@ })
            &&& fetch_views(r@) == out
            &&& crate::session_keys::table_of(old(s)@, row, final(s).memo.table@, row.len() as int)
            &&& final(s).memo.loading == crate::session_keys::any_loading(old(s)@, row, row.len() as int)
            &&& final(s).memo.built == now
        };
    assert(crate::session_keys::lettered(old(s)@, old(s)@.keys[k]));
    let i = choose|i: int| 0 <= i < row.len() && (#[trigger] row[i]).0 == k;
    assert(final(s).memo.table@[i].key == row[i].0);
}

} // verus!
