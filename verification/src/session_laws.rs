//! What holds of a running player, whatever is asked of it.

use vstd::prelude::*;
use crate::catalog::{has_rendition, linked_tracks_are_one, merged_renditions, the_first_rendition_stays};
use crate::command::{Command, DispatchView, RequestView};
use crate::dispatch::{
    export_of, s_begin, s_dispatch, s_link, s_next, s_play, s_play_list, s_previous, s_unlink,
};
use crate::env::EnvView;
use crate::event::{CoreEvent, PlayerEvent};
use crate::hotkeys::HotkeyTarget;
use crate::membership::{
    liked_in, liked_lists, name_of_target, other_track, prompt_for, s_change_all, s_like, s_toggle,
    s_toggle_local, s_toggle_remote, settled_in, times_in,
};
use crate::playback_laws::{fails_for_good, gone_on, lemma_failed_for_good};
use crate::player_events::{upcoming, w_upcoming};
use crate::queue::{bumped, RepeatSetting};
use crate::session::SessionView;
use crate::session_events::{s_cached, s_event, s_player, s_playlists_changed, s_requested, unshown};
use crate::session_views::items_in;
use crate::store::{playlist_of, store_sound, track_of};
use crate::traits::{PlayerState, PlayerStatus};
use crate::types::{PlaylistId, SourceId, TrackId, TrackView};
use crate::view_cache::Change;

verus! {

proof fn lemma_filter_out(v: Seq<TrackId>, id: TrackId)
    requires
        !v.contains(id),
    ensures
        v.filter(other_track(id)) == v,
    decreases v.len(),
{
    reveal(Seq::filter);
    if v.len() > 0 {
        assert(!v.drop_last().contains(id)) by {
            if v.drop_last().contains(id) {
                let i = choose|i: int| 0 <= i < v.drop_last().len() && v.drop_last()[i] == id;
                assert(v[i] == id);
            }
        }
        lemma_filter_out(v.drop_last(), id);
        assert(v.last() != id) by {
            assert(v[v.len() - 1] == v.last());
        }
        assert(v =~= v.drop_last().push(v.last()));
    }
}

/// Putting a track into a playlist that lacks it, and then taking it out, leaves the playlist as
/// it was.
pub proof fn toggling_twice_undoes(v: SessionView, track: TrackId, playlist: PlaylistId)
    requires
        playlist_of(v.w.s, playlist) matches Some(p) && p.id == playlist && !p.items.contains(track),
        track_of(v.w.s, track) is Some,
    ensures
        ({
            let v1 = s_toggle_local(v, track, playlist, None).0;
            let v2 = s_toggle_local(v1, track, playlist, None).0;
            &&& playlist_of(v1.w.s, playlist)->0.items == playlist_of(v.w.s, playlist)->0.items.push(track)
            &&& playlist_of(v2.w.s, playlist) == playlist_of(v.w.s, playlist)
        }),
{
    let p = playlist_of(v.w.s, playlist)->0;
    let items = p.items.push(track);
    assert(items.contains(track)) by {
        assert(items[p.items.len() as int] == track);
    }
    p.items.lemma_filter_push(track, other_track(track));
    lemma_filter_out(p.items, track);
}

/// A track is only ever taken out of a remote playlist that holds it for sure; one that has not
/// loaded is only added to.
pub proof fn only_members_are_removed(v: SessionView, track: TrackId, source: Seq<char>, node: Option<Seq<char>>, position: Option<usize>, i: int)
    requires
        0 <= i < s_toggle_remote(v, track, source, node, position).2.len(),
        s_toggle_remote(v, track, source, node, position).2[i] matches RequestView::ChangeRemote { change, .. }
            && change is Remove,
    ensures
        settled_in(v.cache, source, node, track) > 0,
{
}

proof fn lemma_change_all(v: SessionView, t: TrackView, targets: Seq<(Seq<char>, Option<Seq<char>>, Seq<char>)>, change: Change, n: int)
    ensures
        ({
            let r = s_change_all(v, t, targets, change, n).0;
            r.w.s == v.w.s && r.w.p == v.w.p && r.revision == v.revision
        }),
    decreases n,
{
    if n > 0 && n <= targets.len() {
        lemma_change_all(v, t, targets, change, n - 1);
    }
}

pub(crate) proof fn lemma_like(v: SessionView, track: TrackId)
    ensures
        s_like(v, track).0.w.s == v.w.s,
        s_like(v, track).0.w.p == v.w.p,
        s_like(v, track).0.revision == v.revision,
{
    reveal(s_like);
    if let Some(t) = track_of(v.w.s, track) {
        let targets = liked_lists(v.sources, t.renditions, t.renditions.len() as int);
        lemma_change_all(v, t, targets, Change::Add, targets.len() as int);
        lemma_change_all(v, t, targets, Change::Remove(None), targets.len() as int);
    }
}

proof fn lemma_times(v: Seq<TrackId>, id: TrackId)
    requires
        v.contains(id),
    ensures
        times_in(v, id) > 0,
    decreases v.len(),
{
    if v.last() != id {
        let i = choose|i: int| 0 <= i < v.len() && v[i] == id;
        assert(v.drop_last()[i] == id);
        lemma_times(v.drop_last(), id);
    }
}

/// A toggle that takes a track out of a list whose name is known is asked about before.
pub proof fn removals_are_asked_for(v: SessionView, track: TrackId, playlist: HotkeyTarget, position: Option<usize>)
    requires
        name_of_target(v, playlist) is Some,
    ensures
        ({
            let (_, d, reqs) = s_toggle(v, track, playlist, position);
            let asked = prompt_for(v, Command::TogglePlaylistMembership { track, playlist, position }) is Some;
            &&& (d matches Some(DispatchView::MembershipSet { added, .. }) && !added) ==> asked
            &&& forall|i: int|
                0 <= i < reqs.len() && ((#[trigger] reqs[i]) matches RequestView::ChangeRemote { change, .. }
                    && change is Remove) ==> asked
        }),
{
    reveal(s_toggle);
    if let HotkeyTarget::Local(id) = playlist {
        if items_in(v, id).contains(track) {
            lemma_times(items_in(v, id), track);
        }
    }
}

proof fn lemma_adds(v: SessionView, t: TrackView, targets: Seq<(Seq<char>, Option<Seq<char>>, Seq<char>)>, n: int)
    ensures
        forall|i: int|
            0 <= i < s_change_all(v, t, targets, Change::Add, n).2.len() ==> !((#[trigger] s_change_all(
                v,
                t,
                targets,
                Change::Add,
                n,
            ).2[i]) matches RequestView::ChangeRemote { change, .. } && change is Remove),
    decreases n,
{
    if n > 0 && n <= targets.len() {
        lemma_adds(v, t, targets, n - 1);
    }
}

/// The end of a like is asked about before.
pub proof fn unlikes_are_asked_for(v: SessionView, track: TrackId, i: int)
    requires
        0 <= i < s_like(v, track).2.len(),
        s_like(v, track).2[i] matches RequestView::ChangeRemote { change, .. } && change is Remove,
    ensures
        prompt_for(v, Command::Like(track)) is Some,
{
    reveal(s_like);
    if let Some(t) = track_of(v.w.s, track) {
        if !liked_in(v, t) {
            let targets = liked_lists(v.sources, t.renditions, t.renditions.len() as int);
            lemma_adds(v, t, targets, targets.len() as int);
        }
    }
}

/// A command that is refused leaves the library as it was.
pub proof fn refusals_change_nothing(v: SessionView, e: EnvView, tempos: Map<Seq<char>, String>, fresh: PlaylistId, cmd: Command)
    requires
        s_dispatch(v, e, tempos, fresh, cmd).1 matches Some(d) && d is Refused,
    ensures
        s_dispatch(v, e, tempos, fresh, cmd).0.w.s == v.w.s,
{
    let v1 = s_begin(v, cmd);
    match cmd {
        Command::Like(track) => {
            lemma_like(v1, track);
        },
        Command::TogglePlaylistMembership { track, playlist, position } => {
            reveal(s_toggle);
        },
        _ => {
            reveal(export_of);
        },
    }
}

/// The first pick of a track for joining waits and changes no track; the second joins the two:
/// its track is gone, and the first holds the renditions of both. A third waits again.
pub proof fn two_picks_join_two_tracks(
    v: SessionView,
    e: EnvView,
    tempos: Map<Seq<char>, String>,
    fresh: PlaylistId,
    a: TrackId,
    b: TrackId,
    c: TrackId,
)
    requires
        store_sound(v.w.s),
        v.link_pick is None,
        a != b,
        track_of(v.w.s, a) is Some,
        track_of(v.w.s, b) is Some,
    ensures
        ({
            let (v1, d1, q1) = s_dispatch(v, e, tempos, fresh, Command::LinkPick(a));
            let (v2, d2, q2) = s_dispatch(v1, e, tempos, fresh, Command::LinkPick(b));
            let (v3, d3, q3) = s_dispatch(v2, e, tempos, fresh, Command::LinkPick(c));
            let ra = v.w.s.tracks[a.0].renditions;
            let rb = v.w.s.tracks[b.0].renditions;
            &&& d1 == Some(DispatchView::LinkPending) && v1.w.s == v.w.s
            &&& d2 == Some(DispatchView::Handled)
            &&& track_of(v2.w.s, b) is None
            &&& track_of(v2.w.s, a) matches Some(t) && t.renditions == merged_renditions(ra, rb) && (forall|i: int|
                0 <= i < ra.len() ==> has_rendition(t.renditions, (#[trigger] ra[i]).source, ra[i].uri)) && (forall|i: int|
                0 <= i < rb.len() ==> has_rendition(t.renditions, (#[trigger] rb[i]).source, rb[i].uri))
            &&& store_sound(v2.w.s)
            &&& d3 == Some(DispatchView::LinkPending) && v3.w.s == v2.w.s
        }),
{
    reveal(s_link);
    linked_tracks_are_one(v.w.s, a, b);
}

/// A track that is unlinked keeps its first rendition and everything else, even where all its
/// renditions are on one source.
pub proof fn unlinking_keeps_the_first(v: SessionView, e: EnvView, tempos: Map<Seq<char>, String>, fresh: PlaylistId, id: TrackId)
    requires
        store_sound(v.w.s),
        track_of(v.w.s, id) is Some,
        v.w.s.tracks[id.0].renditions.len() > 0,
    ensures
        ({
            let (v1, d, q) = s_dispatch(v, e, tempos, fresh, Command::Unlink(id));
            let t = v.w.s.tracks[id.0];
            &&& d == Some(DispatchView::Handled)
            &&& track_of(v1.w.s, id) == Some(TrackView { renditions: seq![t.renditions[0]], ..t })
            &&& store_sound(v1.w.s)
        }),
{
    reveal(s_unlink);
    the_first_rendition_stays(v.w.s, id, seq![], seq![]);
}

/// Every command moves the revision by one, so that a front-end draws after it.
pub proof fn commands_move_the_revision(v: SessionView, e: EnvView, tempos: Map<Seq<char>, String>, fresh: PlaylistId, cmd: Command)
    ensures
        s_dispatch(v, e, tempos, fresh, cmd).0.revision == bumped(v.revision),
{
    let v1 = s_begin(v, cmd);
    match cmd {
        Command::Like(track) => {
            lemma_like(v1, track);
        },
        Command::TogglePlaylistMembership { track, playlist, position } => {
            reveal(s_toggle);
        },
        Command::Unlink(id) => {
            reveal(s_unlink);
        },
        Command::LinkPick(id) => {
            reveal(s_link);
        },
        Command::Play(_) => {
            reveal(s_play);
        },
        Command::PlayContext { .. } => {
            reveal(s_play_list);
        },
        Command::Next => {
            reveal(s_next);
        },
        Command::Previous => {
            reveal(s_previous);
        },
        _ => {},
    }
}

/// A tick of playback and a failure in the background leave the revision alone; every other
/// event moves it by one.
pub proof fn events_move_the_revision(v: SessionView, e: EnvView, ev: CoreEvent, status: PlayerStatus)
    ensures
        s_event(v, e, ev, status).0.revision == (if unshown(ev) {
            v.revision
        } else {
            bumped(v.revision)
        }),
        unshown(ev) <==> s_event(v, e, ev, status).0.revision == v.revision,
{
    match ev {
        CoreEvent::PlaylistsChanged => {
            reveal(s_playlists_changed);
        },
        CoreEvent::PlayRequested(id) => {
            reveal(s_requested);
        },
        CoreEvent::Player(pe) => {
            reveal(s_player);
        },
        CoreEvent::CacheFallbackReady(id) => {
            reveal(s_cached);
        },
        _ => {},
    }
}

/// The player after a report that a rendition failed to load.
#[verifier::opaque]
pub open spec fn s_failed(v: SessionView, e: EnvView, source: SourceId, uri: String, status: PlayerStatus) -> SessionView {
    s_event(v, e, CoreEvent::Player(PlayerEvent::LoadFailed { source, uri }), status).0
}

/// One more report that a track failed for good.
proof fn lemma_failed_load(v: SessionView, e: EnvView, source: SourceId, uri: String, status: PlayerStatus)
    requires
        fails_for_good(v.w, e, source@, uri@),
        v.w.p.queue.repeat != RepeatSetting::RepeatTrack,
    ensures
        gone_on(v.w, s_failed(v, e, source, uri, status).w, e, v.cache),
{
    reveal(s_failed);
    reveal(s_player);
    lemma_failed_for_good(v.w, e, v.cache, source@, uri@);
}

/// Three reports in a row that a track failed for good stop the player: after the first and the
/// second the next track is current, after the third none is, nothing plays, and what is queued
/// stays.
pub proof fn three_failed_loads_stop_the_player(
    v: SessionView,
    e1: EnvView,
    source1: SourceId,
    uri1: String,
    status1: PlayerStatus,
    e2: EnvView,
    source2: SourceId,
    uri2: String,
    status2: PlayerStatus,
    e3: EnvView,
    source3: SourceId,
    uri3: String,
    status3: PlayerStatus,
)
    requires
        v.w.p.load_failures == 0,
        v.w.p.queue.repeat == RepeatSetting::Off,
        fails_for_good(v.w, e1, source1@, uri1@),
        fails_for_good(s_failed(v, e1, source1, uri1, status1).w, e2, source2@, uri2@),
        fails_for_good(
            s_failed(s_failed(v, e1, source1, uri1, status1), e2, source2, uri2, status2).w,
            e3,
            source3@,
            uri3@,
        ),
    ensures
        ({
            let v1 = s_failed(v, e1, source1, uri1, status1);
            let v2 = s_failed(v1, e2, source2, uri2, status2);
            let v3 = s_failed(v2, e3, source3, uri3, status3);
            &&& v1.w.p.queue.current == upcoming(w_upcoming(v.w, e1, v.cache))
            &&& v.w.p.queue.queue.len() > 0 ==> v1.w.p.queue.queue == v.w.p.queue.queue.drop_first()
            &&& v2.w.p.queue.current == upcoming(w_upcoming(v1.w, e2, v1.cache))
            &&& v1.w.p.queue.queue.len() > 0 ==> v2.w.p.queue.queue == v1.w.p.queue.queue.drop_first()
            &&& v3.w.p.queue.current is None
            &&& v3.w.p.now_playing is None
            &&& v3.w.p.state == PlayerState::Stopped
            &&& v3.w.p.queue.queue == v2.w.p.queue.queue
            &&& v3.w.p.queue.history == v2.w.p.queue.history
            &&& v3.w.p.load_failures == 0
        }),
{
    let v1 = s_failed(v, e1, source1, uri1, status1);
    let v2 = s_failed(v1, e2, source2, uri2, status2);
    lemma_failed_load(v, e1, source1, uri1, status1);
    lemma_failed_load(v1, e2, source2, uri2, status2);
    lemma_failed_load(v2, e3, source3, uri3, status3);
}

} // verus!
