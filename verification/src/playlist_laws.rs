//! What liking a track and putting it into a playlist come to.

use vstd::prelude::*;
use crate::command::{Command, DispatchView, RequestView};
use crate::dispatch::{s_begin, s_dispatch};
use crate::env::EnvView;
use crate::hotkeys::HotkeyTarget;
use crate::membership::{
    liked_in, liked_lists, other_track, prompt_for, s_change_all, s_like, s_toggle, s_toggle_local, s_toggle_remote,
    uri_on,
};
use crate::session::{source_at, synthetic_in, SessionView, SourceView};
use crate::store::{playlist_of, track_of};
use crate::types::{track_name, PlaylistId, RenditionView, TrackId, TrackView};
use crate::view_cache::{changes_of, first_change, membership_of, occurrences_of, tracks_in, Change, Membership};

verus! {

/// A track that is toggled in a playlist that lacks it becomes its last row.
pub proof fn toggling_adds_what_is_missing(v: SessionView, e: EnvView, tempos: Map<Seq<char>, String>, fresh: PlaylistId, track: TrackId, id: PlaylistId, position: Option<usize>)
    requires
        playlist_of(v.w.s, id) matches Some(p) && p.id == id && !p.items.contains(track),
        track_of(v.w.s, track) is Some,
    ensures
        ({
            let (r, d, reqs) = s_dispatch(
                v,
                e,
                tempos,
                fresh,
                Command::TogglePlaylistMembership { track, playlist: HotkeyTarget::Local(id), position },
            );
            let p = playlist_of(v.w.s, id)->0;
            &&& playlist_of(r.w.s, id) matches Some(x) && x.items.len() == p.items.len() + 1 && x.items.last() == track
                && x.items.drop_last() == p.items && x.name == p.name
            &&& d matches Some(DispatchView::MembershipSet { added, playlist, track: name }) && added && playlist == p.name
                && name == track_name(v.w.s.tracks[track.0])
            &&& reqs.len() == 0
            &&& r.w.s.tracks == v.w.s.tracks
        }),
{
    reveal(s_toggle);
    let p = playlist_of(v.w.s, id)->0;
    assert(p.items.push(track).drop_last() =~= p.items);
}

/// One that the playlist holds is taken out: at the row that is meant and only there, or, where no
/// row is meant, wherever it stands. Every other row stays, in its order.
pub proof fn toggling_removes_what_is_there(v: SessionView, e: EnvView, tempos: Map<Seq<char>, String>, fresh: PlaylistId, track: TrackId, id: PlaylistId, other: TrackId)
    requires
        playlist_of(v.w.s, id) matches Some(p) && p.id == id && p.items.contains(track),
        track_of(v.w.s, track) is Some,
        other != track,
    ensures
        ({
            let (r, d, reqs) = s_dispatch(
                v,
                e,
                tempos,
                fresh,
                Command::TogglePlaylistMembership { track, playlist: HotkeyTarget::Local(id), position: None },
            );
            let p = playlist_of(v.w.s, id)->0;
            &&& playlist_of(r.w.s, id) matches Some(x) && !x.items.contains(track) && (x.items.contains(other) <==> p.items.contains(
                other,
            )) && x.items.len() < p.items.len() && x.name == p.name
            &&& d matches Some(DispatchView::MembershipSet { added, .. }) && !added
            &&& reqs.len() == 0
        }),
{
    reveal(s_toggle);
    let v1 = s_begin(
        v,
        Command::TogglePlaylistMembership { track, playlist: HotkeyTarget::Local(id), position: None },
    );
    let items = playlist_of(v.w.s, id)->0.items;
    lemma_filtered(items, track, other);
}

proof fn lemma_filtered(items: Seq<TrackId>, track: TrackId, other: TrackId)
    requires
        items.contains(track),
        other != track,
    ensures
        !items.filter(other_track(track)).contains(track),
        items.filter(other_track(track)).contains(other) <==> items.contains(other),
        items.filter(other_track(track)).len() < items.len(),
{
    let f = other_track(track);
    let w = items.filter(f);
    if w.contains(track) {
        let i = choose|i: int| 0 <= i < w.len() && w[i] == track;
        items.lemma_filter_pred(f, i);
    }
    if w.contains(other) {
        items.lemma_filter_contains_rev(f, other);
    }
    if items.contains(other) {
        let i = choose|i: int| 0 <= i < items.len() && items[i] == other;
        items.lemma_filter_contains(f, i);
    }
    lemma_shorter(items, track);
}

proof fn lemma_shorter(items: Seq<TrackId>, track: TrackId)
    ensures
        items.filter(other_track(track)).len() <= items.len(),
        items.contains(track) ==> items.filter(other_track(track)).len() < items.len(),
    decreases items.len(),
{
    reveal(Seq::filter);
    if items.len() > 0 {
        lemma_shorter(items.drop_last(), track);
        if items.contains(track) && items.last() != track {
            let i = choose|i: int| 0 <= i < items.len() && items[i] == track;
            assert(items.drop_last()[i] == track);
        }
    }
}

/// A single row is taken out where the track stands, and nothing where it does not.
pub proof fn single_rows_are_removed(v: SessionView, track: TrackId, id: PlaylistId, row: usize)
    requires
        playlist_of(v.w.s, id) matches Some(p) && p.id == id && p.items.contains(track),
        track_of(v.w.s, track) is Some,
    ensures
        ({
            let (r, d) = s_toggle_local(v, track, id, Some(row));
            let p = playlist_of(v.w.s, id)->0;
            let there = row < p.items.len() && p.items[row as int] == track;
            &&& there ==> (playlist_of(r.w.s, id) matches Some(x) && x.items.len() == p.items.len() - 1 && (forall|i: int|
                0 <= i < row ==> #[trigger] x.items[i] == p.items[i]) && (forall|i: int|
                row <= i < x.items.len() ==> #[trigger] x.items[i] == p.items[i + 1]))
            &&& !there ==> r == v && (d matches Some(x) && x is Refused)
        }),
{
}

/// A track that a remote playlist is not known to hold is asked to be added there, at the address
/// that it has on that source; one that it holds for sure is asked to be taken out. Until the
/// answer comes it reads as being changed.
pub proof fn remote_toggles_are_asked_for(v: SessionView, track: TrackId, source: Seq<char>, node: Option<Seq<char>>, uri: Seq<char>)
    requires
        track_of(v.w.s, track) matches Some(t) && t.id == track && uri_on(t.renditions, source, 0) == Some(uri),
        source_at(v.sources, source, 0) is Some,
        !synthetic_in(v.sources, source, node),
        changes_of(v.cache, source, node).len() == 0,
    ensures
        ({
            let (r, d, reqs) = s_toggle_remote(v, track, source, node, None);
            let held = occurrences_of(tracks_in(v.cache, source, node), track) > 0;
            &&& reqs.len() == 1
            &&& reqs[0] matches RequestView::ChangeRemote { source: s, node: n, track: t, uri: u, change, .. } && s == source && n
                == node && t == track && u == uri && (held ==> change == Change::Remove(None)) && (!held ==> change == Change::Add)
            &&& d is Handled
            &&& membership_of(changes_of(r.cache, source, node), tracks_in(v.cache, source, node), track) == (if held {
                Membership::PendingRemove
            } else {
                Membership::PendingAdd
            })
            &&& r.w.s == v.w.s
        }),
{
    let pending = changes_of(v.cache, source, node);
    assert(pending =~= seq![]);
    assert(first_change(pending, track, 0) is None);
    let r = s_toggle_remote(v, track, source, node, None).0;
    let w = changes_of(r.cache, source, node);
    assert(w.len() == 1 && w[0].track.id == track);
}

proof fn lemma_uri_on(v: Seq<RenditionView>, source: Seq<char>, i: int)
    requires
        0 <= i,
    ensures
        match uri_on(v, source, i) {
            Some(u) => exists|k: int| i <= k < v.len() && (#[trigger] v[k]).source == source && v[k].uri == u,
            None => forall|k: int| i <= k < v.len() ==> (#[trigger] v[k]).source != source,
        },
    decreases v.len() - i,
{
    if i < v.len() {
        lemma_uri_on(v, source, i + 1);
    }
}

/// The address of a track on a source is the one of a rendition that it has there, and there is
/// one whenever it has one.
pub proof fn addresses_are_on_their_source(t: TrackView, source: Seq<char>)
    ensures
        match uri_on(t.renditions, source, 0) {
            Some(u) => exists|k: int|
                0 <= k < t.renditions.len() && (#[trigger] t.renditions[k]).source == source && t.renditions[k].uri == u,
            None => forall|k: int| 0 <= k < t.renditions.len() ==> (#[trigger] t.renditions[k]).source != source,
        },
{
    lemma_uri_on(t.renditions, source, 0);
}

/// A track that is not on the source of a remote playlist, and a source that is not there, are
/// refused, and nothing is asked for.
pub proof fn impossible_toggles_are_refused(v: SessionView, track: TrackId, source: Seq<char>, node: Option<Seq<char>>, position: Option<usize>)
    requires
        track_of(v.w.s, track) is Some,
        source_at(v.sources, source, 0) is None || forall|k: int|
            0 <= k < v.w.s.tracks[track.0].renditions.len() ==> (#[trigger] v.w.s.tracks[track.0].renditions[k]).source != source,
    ensures
        s_toggle_remote(v, track, source, node, position).1 is Refused,
        s_toggle_remote(v, track, source, node, position).2.len() == 0,
        s_toggle_remote(v, track, source, node, position).0 == v,
{
    lemma_uri_on(v.w.s.tracks[track.0].renditions, source, 0);
}

/// Whether every request asks for one change of one track in a list of liked tracks.
pub open spec fn all_ask(reqs: Seq<RequestView>, track: TrackId, change: Change) -> bool {
    forall|i: int|
        0 <= i < reqs.len() ==> ((#[trigger] reqs[i]) matches RequestView::ChangeRemote { track: t, change: c, .. } && t == track && c
            == change)
}

proof fn lemma_all_ask(v: SessionView, t: TrackView, targets: Seq<(Seq<char>, Option<Seq<char>>, Seq<char>)>, change: Change, n: int)
    ensures
        all_ask(s_change_all(v, t, targets, change, n).2, t.id, change),
        s_change_all(v, t, targets, change, n).1 ==> s_change_all(v, t, targets, change, n).2.len() > 0,
    decreases n,
{
    if n > 0 && n <= targets.len() {
        lemma_all_ask(v, t, targets, change, n - 1);
    }
}

/// A track that is liked nowhere is asked to be put into the lists of liked tracks, and one that
/// is liked to be taken out; where nothing is asked for, that is said.
pub proof fn likes_are_asked_for(v: SessionView, e: EnvView, tempos: Map<Seq<char>, String>, fresh: PlaylistId, track: TrackId, t: TrackView)
    requires
        track_of(v.w.s, track) == Some(t),
        t.id == track,
    ensures
        ({
            let (r, d, reqs) = s_dispatch(v, e, tempos, fresh, Command::Like(track));
            &&& all_ask(reqs, track, if liked_in(v, t) {
                Change::Remove(None)
            } else {
                Change::Add
            })
            &&& d == Some(DispatchView::Handled) ==> reqs.len() > 0
            &&& reqs.len() == 0 ==> (d matches Some(x) && x is Refused)
            &&& r.w.s == v.w.s
        }),
{
    reveal(s_like);
    let v1 = s_begin(v, Command::Like(track));
    let targets = liked_lists(v.sources, t.renditions, t.renditions.len() as int);
    assert(liked_in(v1, t) == liked_in(v, t));
    lemma_all_ask(v1, t, targets, Change::Add, targets.len() as int);
    lemma_all_ask(v1, t, targets, Change::Remove(None), targets.len() as int);
    crate::session_laws::lemma_like(v1, track);
}

proof fn lemma_targets(sources: Seq<SourceView>, v: Seq<RenditionView>, n: int, k: int)
    requires
        0 <= k < n <= v.len(),
        source_at(sources, v[k].source, 0) matches Some(i) && sources[i].liked is Some,
    ensures
        crate::membership::has_target(liked_lists(sources, v, n), v[k].source),
    decreases n,
{
    let head = liked_lists(sources, v, n - 1);
    let all = liked_lists(sources, v, n);
    if k < n - 1 {
        lemma_targets(sources, v, n - 1, k);
        let j = choose|j: int| 0 <= j < head.len() && (#[trigger] head[j]).0 == v[k].source;
        assert(all[j] == head[j]);
    } else if !crate::membership::has_target(head, v[k].source) {
        assert(all[head.len() as int].0 == v[k].source);
    }
}

/// Every source that has a list of liked tracks, and the track, is asked: with nothing unanswered
/// a like asks at least once for it.
pub proof fn likes_reach_every_source(v: SessionView, t: TrackView, k: int)
    requires
        0 <= k < t.renditions.len(),
        source_at(v.sources, t.renditions[k].source, 0) matches Some(i) && v.sources[i].liked is Some,
    ensures
        ({
            let targets = liked_lists(v.sources, t.renditions, t.renditions.len() as int);
            exists|j: int| 0 <= j < targets.len() && (#[trigger] targets[j]).0 == t.renditions[k].source
        }),
{
    lemma_targets(v.sources, t.renditions, t.renditions.len() as int, k);
}

/// Only what takes a track out of a list is asked about first.
pub proof fn only_removals_are_asked_about(v: SessionView, cmd: Command)
    ensures
        prompt_for(v, cmd) is Some ==> cmd is TogglePlaylistMembership || cmd is Like,
        cmd matches Command::Like(track) ==> (prompt_for(v, cmd) is Some <==> (track_of(v.w.s, track) matches Some(t) && liked_in(v, t))),
{
}

} // verus!
