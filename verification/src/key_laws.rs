//! What the keys do, what warnings are listed, and what is kept of what was played.

use vstd::prelude::*;
use crate::actions::{action_of_key, default_key_of, BuiltinAction};
use crate::history::{play_entry, plays_of};
use crate::hotkeys::{bound, effective_target, HotkeyTarget, HotkeyView};
use crate::moment::Moment;
use crate::playlist_m3u::EntryView;
use crate::plugin::HealthView;
use crate::queue::played;
use crate::session::Session;
use crate::session_keys::BindError;
use crate::types::{TrackId, TrackView};
use crate::warnings::{unwell, warned, with_failure, WarningsView};

verus! {

/// A key that is bound leads to its target, the target has no other key, and every other key that
/// leads elsewhere stays.
pub proof fn bound_keys_lead_to_their_target(m: Map<char, HotkeyView>, key: char, t: HotkeyView, other: char)
    requires
        other != key,
    ensures
        ({
            let b = bound(m, key, t);
            &&& b.dom().contains(key) && b[key] == t
            &&& b.dom().contains(other) ==> b[other] != t && m.dom().contains(other) && b[other] == m[other]
            &&& m.dom().contains(other) && m[other] != t ==> b.dom().contains(other)
            &&& effective_target(b, key) == Some(t)
        }),
{
}

/// A binding that the player accepts holds from then on, and one that it refuses changes no key.
pub proof fn accepted_bindings_hold(s: &mut Session, key: char, target: HotkeyTarget, r: Result<Option<HotkeyTarget>, BindError>)
    requires
        call_ensures(Session::bind_hotkey, (s, key, target), r),
    ensures
        r is Ok ==> final(s)@.keys.dom().contains(key) && final(s)@.keys[key] == target@,
        r is Ok ==> forall|k: char| k != key && #[trigger] final(s)@.keys.dom().contains(k) ==> final(s)@.keys[k] != target@,
        r is Err ==> final(s)@.keys == old(s)@.keys,
        r matches Ok(Some(stolen)) ==> old(s)@.keys.dom().contains(key) && old(s)@.keys[key] == stolen@,
        r matches Ok(None) ==> old(s)@.keys.dom().contains(key) ==> old(s)@.keys[key] == target@,
        old(s)@.keys.dom().contains(key) && old(s)@.keys[key] is Builtin && old(s)@.keys[key] != target@ ==> r is Err,
{
}

/// A target that is unbound has no key, and the keys of every other target stay.
pub proof fn unbound_targets_have_no_key(s: &mut Session, target: HotkeyTarget, k: char)
    requires
        call_ensures(Session::unbind_hotkey, (s, &target), ()),
    ensures
        final(s)@.keys.dom().contains(k) ==> final(s)@.keys[k] != target@ && old(s)@.keys.dom().contains(k) && final(s)@.keys[k]
            == old(s)@.keys[k],
        old(s)@.keys.dom().contains(k) && old(s)@.keys[k] != target@ ==> final(s)@.keys.dom().contains(k),
{
}

/// A key that nobody bound does what its action does, until that action is given another key; a
/// key that was bound does what it was bound to.
pub proof fn unbound_keys_have_their_action(m: Map<char, HotkeyView>, key: char, a: BuiltinAction)
    requires
        default_key_of(a) == Some(key),
    ensures
        m.dom().contains(key) ==> effective_target(m, key) == Some(m[key]),
        !m.dom().contains(key) && (forall|k: char| #[trigger] m.dom().contains(k) ==> m[k] != HotkeyView::Builtin(a))
            ==> effective_target(m, key) == Some(HotkeyView::Builtin(a)),
        !m.dom().contains(key) && (exists|k: char| #[trigger] m.dom().contains(k) && m[k] == HotkeyView::Builtin(a))
            ==> effective_target(m, key) is None,
{
}

/// The keys that are documented do what is documented, with nothing bound.
pub proof fn documented_keys(m: Map<char, HotkeyView>)
    requires
        m == Map::<char, HotkeyView>::empty(),
    ensures
        effective_target(m, ' ') == Some(HotkeyView::Builtin(BuiltinAction::PlayPause)),
        effective_target(m, 'n') == Some(HotkeyView::Builtin(BuiltinAction::Next)),
        effective_target(m, 'p') == Some(HotkeyView::Builtin(BuiltinAction::Previous)),
        effective_target(m, 'q') == Some(HotkeyView::Builtin(BuiltinAction::Enqueue)),
        effective_target(m, '.') == Some(HotkeyView::Builtin(BuiltinAction::SeekForward)),
        effective_target(m, ',') == Some(HotkeyView::Builtin(BuiltinAction::SeekBack)),
        effective_target(m, 'l') == Some(HotkeyView::Builtin(BuiltinAction::Like)),
        effective_target(m, 'Q') == Some(HotkeyView::Builtin(BuiltinAction::Quit)),
{
}

/// The key of an action and the action of a key say the same.
pub proof fn keys_and_actions_agree(a: BuiltinAction, key: char)
    ensures
        default_key_of(a) == Some(key) <==> action_of_key(key) == Some(a),
{
}

/// A warning that is listed already is not listed again; a new one is listed last, and where the
/// list is full the oldest makes room.
pub proof fn warnings_are_listed_once(w: WarningsView, context: Seq<char>, message: Seq<char>)
    ensures
        ({
            let r = warned(w, context, message);
            &&& r.failures.contains((context, message))
            &&& w.failures.contains((context, message)) ==> r == w
            &&& !w.failures.contains((context, message)) ==> r.failures.last() == (context, message) && r.revision != w.revision
            &&& !w.failures.contains((context, message)) && w.failures.len() < 20 ==> r.failures.drop_last() == w.failures
            &&& !w.failures.contains((context, message)) && w.failures.len() == 20 ==> r.failures.drop_last() == w.failures.drop_first()
            &&& r.health == w.health && r.last_setup == w.last_setup
        }),
{
    let v = w.failures;
    let x = (context, message);
    if !v.contains(x) {
        let r = with_failure(v, context, message);
        assert(r[r.len() - 1] == x);
        if v.len() == 20 {
            assert(r.drop_last() =~= v.drop_first());
        } else {
            assert(r.drop_last() =~= v);
        }
    }
}

/// A plugin counts as a warning exactly if it is not well.
pub proof fn unwell_plugins_count(v: Seq<(Seq<char>, HealthView)>)
    ensures
        unwell(v) <= v.len(),
        unwell(v) == 0 <==> forall|i: int| 0 <= i < v.len() ==> (#[trigger] v[i]).1 is Healthy,
        unwell(v) == v.len() <==> forall|i: int| 0 <= i < v.len() ==> !((#[trigger] v[i]).1 is Healthy),
    decreases v.len(),
{
    if v.len() > 0 {
        let h = v.drop_last();
        unwell_plugins_count(h);
        assert forall|i: int| 0 <= i < h.len() implies #[trigger] h[i] == v[i] by {}
        let all = forall|i: int| 0 <= i < v.len() ==> (#[trigger] v[i]).1 is Healthy;
        let none = forall|i: int| 0 <= i < v.len() ==> !((#[trigger] v[i]).1 is Healthy);
        if all {
            assert(v[v.len() - 1].1 is Healthy);
            assert forall|i: int| 0 <= i < h.len() implies (#[trigger] h[i]).1 is Healthy by {
                assert(h[i] == v[i]);
            }
        }
        if none {
            assert(!(v[v.len() - 1].1 is Healthy));
            assert forall|i: int| 0 <= i < h.len() implies !((#[trigger] h[i]).1 is Healthy) by {
                assert(h[i] == v[i]);
            }
        }
        if unwell(v) == 0 {
            assert forall|i: int| 0 <= i < v.len() implies (#[trigger] v[i]).1 is Healthy by {
                if i < h.len() {
                    assert(h[i] == v[i]);
                }
            }
        }
        if unwell(v) == v.len() {
            assert forall|i: int| 0 <= i < v.len() implies !((#[trigger] v[i]).1 is Healthy) by {
                if i < h.len() {
                    assert(h[i] == v[i]);
                }
            }
        }
    }
}

/// What is played goes to the end of what was played, with its time, unless it is what was played
/// last; beyond five thousand plays the oldest goes.
pub proof fn plays_are_kept(h: Seq<(TrackId, Moment)>, id: TrackId, at: Moment)
    requires
        h.len() <= 5000,
    ensures
        ({
            let r = played(h, id, at);
            &&& h.len() > 0 && h.last().0 == id ==> r == h
            &&& h.len() == 0 || h.last().0 != id ==> r.last() == (id, at)
            &&& (h.len() == 0 || h.last().0 != id) && h.len() < 5000 ==> r.len() == h.len() + 1 && r.drop_last() == h
            &&& (h.len() == 0 || h.last().0 != id) && h.len() == 5000 ==> r.len() == 5000 && r.drop_last() == h.drop_first()
        }),
{
    let r = played(h, id, at);
    if h.len() == 0 || h.last().0 != id {
        if h.len() < 5000 {
            assert(r.drop_last() =~= h);
        } else {
            assert(r.drop_last() =~= h.drop_first());
        }
    }
}

/// The log of what was played names the track and the time of each play, in the order of the
/// plays.
pub proof fn logged_plays_are_the_plays(v: Seq<EntryView>, now: Moment)
    requires
        forall|i: int| 0 <= i < v.len() ==> (#[trigger] v[i]).track_id is Some && v[i].played_at is Some,
    ensures
        plays_of(v, now).len() == v.len(),
        forall|i: int|
            0 <= i < v.len() ==> #[trigger] plays_of(v, now)[i] == (TrackId(v[i].track_id->0), v[i].played_at->0),
    decreases v.len(),
{
    if v.len() > 0 {
        let h = v.drop_last();
        assert forall|i: int| 0 <= i < h.len() implies (#[trigger] h[i]).track_id is Some && h[i].played_at is Some by {
            assert(h[i] == v[i]);
        }
        logged_plays_are_the_plays(h, now);
        assert(v[v.len() - 1] == v.last());
        assert forall|i: int| 0 <= i < v.len() implies #[trigger] plays_of(v, now)[i] == (
            TrackId(v[i].track_id->0),
            v[i].played_at->0,
        ) by {
            if i < h.len() {
                assert(h[i] == v[i]);
                assert(plays_of(v, now)[i] == plays_of(h, now)[i]);
            }
        }
    }
}

/// The entry of a play is that of its track, with the time.
pub proof fn plays_name_track_and_time(t: TrackView, at: Moment, primary: Seq<char>, tempo: Option<Seq<char>>)
    ensures
        play_entry(t, at, primary, tempo).played_at == Some(at),
        play_entry(t, at, primary, tempo).track_id == Some(t.id.0),
        play_entry(t, at, primary, tempo).primary_uri == primary,
{
}

} // verus!
