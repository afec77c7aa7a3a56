//! When the scan of the library goes on, where it begins, and what it keeps in mind.

use vstd::prelude::*;
use crate::idmap::IdMap;
use crate::scan::{first_wanted, kept_downloads, reread, rotated, ScanDriver, ScanMode, Verdict, Walk, WalkStep};
use crate::types::{SourceId, TrackId};

verus! {

/// A walk that waits until some moment runs at that moment, and not because it waited less; one
/// that waits without end was told nothing and has nothing planned.
pub proof fn walks_run_when_they_are_due(d: &mut ScanDriver, next_at: Option<u64>, earliest: u64, now: u64, r: WalkStep, after: &mut ScanDriver, later: u64, s: WalkStep)
    requires
        call_ensures(ScanDriver::wait_walk, (d, next_at, earliest, now), r),
        *old(after) == *final(d),
        call_ensures(ScanDriver::wait_walk, (after, next_at, earliest, later), s),
    ensures
        r matches WalkStep::SleepUntil(t) ==> now < t && (s is Run <==> t <= later),
        r is Sleep ==> !old(d)@.woken && next_at is None,
        r is Run ==> earliest <= now || (next_at matches Some(t) && t <= now),
        old(d)@.woken && earliest <= now ==> r is Run,
        (next_at matches Some(t) && t <= now) ==> r is Run,
        !(r is Run) ==> final(d)@ == old(d)@,
{
}

/// What a walk was told is handed over once.
pub proof fn walks_are_told_once(d: &mut ScanDriver, next_at: Option<u64>, earliest: u64, now: u64, r: WalkStep)
    requires
        call_ensures(ScanDriver::wait_walk, (d, next_at, earliest, now), r),
        r is Run,
    ensures
        (r->Run_0).dirty@ == old(d)@.dirty && (r->Run_0).rebuild == old(d)@.rebuild,
        final(d)@.dirty.len() == 0 && !final(d)@.rebuild && !final(d)@.woken,
        final(d)@.priority == old(d)@.priority && final(d)@.held == old(d)@.held,
{
}

/// A track that changed is looked at again, and a new plugin has everything looked at again.
pub proof fn changes_wake_the_walk(d: &mut ScanDriver, id: TrackId, e: &mut ScanDriver)
    requires
        call_ensures(ScanDriver::track_changed, (d, id), ()),
        call_ensures(ScanDriver::register_plugin, (e,), ()),
    ensures
        final(d)@.woken && final(d)@.dirty.contains(id),
        final(e)@.woken && final(e)@.rebuild,
        final(d)@.rebuild == old(d)@.rebuild && final(e)@.dirty == old(e)@.dirty,
{
    assert(final(d)@.dirty.last() == id);
}

proof fn lemma_rotated_len(v: Seq<TrackId>, start: int, n: int)
    requires
        0 <= n,
    ensures
        rotated(v, start, n).len() == n,
    decreases n,
{
    if n > 0 {
        lemma_rotated_len(v, start, n - 1);
    }
}

proof fn lemma_rotated_at(v: Seq<TrackId>, start: int, n: int, i: int)
    requires
        0 <= i < n,
    ensures
        rotated(v, start, n).len() == n,
        rotated(v, start, n)[i] == v[(start + i) % (v.len() as int)],
    decreases n,
{
    lemma_rotated_len(v, start, n);
    lemma_rotated_len(v, start, n - 1);
    if i < n - 1 {
        lemma_rotated_at(v, start, n - 1, i);
    }
}

proof fn lemma_first_wanted(v: Seq<TrackId>, wanted: Set<u128>)
    ensures
        first_wanted(v, wanted).no_duplicates(),
        forall|x: TrackId| #[trigger] first_wanted(v, wanted).contains(x) <==> v.contains(x) && wanted.contains(x.0),
        v.len() > 0 && wanted.contains(v[0].0) ==> first_wanted(v, wanted).len() > 0 && first_wanted(v, wanted)[0] == v[0],
    decreases v.len(),
{
    if v.len() > 0 {
        let head = v.drop_last();
        lemma_first_wanted(head, wanted);
        let f = first_wanted(head, wanted);
        let g = first_wanted(v, wanted);
        assert forall|x: TrackId| #[trigger] g.contains(x) <==> v.contains(x) && wanted.contains(x.0) by {
            if g.contains(x) {
                let j = g.index_of(x);
                if j < f.len() {
                    assert(f[j] == x);
                    assert(f.contains(x));
                    assert(v[head.index_of(x)] == x);
                } else {
                    assert(x == v[v.len() - 1]);
                }
            }
            if v.contains(x) && wanted.contains(x.0) {
                let i = v.index_of(x);
                if i < head.len() {
                    assert(head[i] == x);
                    assert(head.contains(x));
                    assert(f.contains(x));
                    assert(g[f.index_of(x)] == x);
                } else {
                    if f.contains(x) {
                        assert(g[f.index_of(x)] == x);
                    } else {
                        assert(g.last() == x);
                    }
                }
            }
        }
        if wanted.contains(v[0].0) {
            if head.len() > 0 {
                assert(head[0] == v[0]);
            } else {
                assert(f.len() == 0);
                assert(g[0] == v[0]);
            }
        }
    }
}

/// The walk begins at the row that is highlighted in the list on the screen, goes through what is
/// to be scanned of that list, each once, and takes nothing else.
pub proof fn walks_begin_where_the_user_looks(d: &ScanDriver, candidates: &IdMap<()>, r: Vec<TrackId>, v: Seq<TrackId>, h: usize)
    requires
        d@.view == Some((v, h)),
        h < v.len(),
        call_ensures(ScanDriver::walk_order, (d, candidates), r),
    ensures
        r@.no_duplicates(),
        forall|x: TrackId| #[trigger] r@.contains(x) ==> candidates@.dom().contains(x.0),
        forall|x: TrackId| v.contains(x) && candidates@.dom().contains(x.0) ==> #[trigger] r@.contains(x),
        candidates@.dom().contains(v[h as int].0) ==> r@.len() > 0 && r@[0] == v[h as int],
{
    let n = v.len() as int;
    let w = rotated(v, h as int % n, n);
    assert(h as int % n == h) by (nonlinear_arith)
        requires
            0 <= h < n,
    ;
    lemma_rotated_at(v, h as int, n, 0);
    lemma_first_wanted(w, candidates@.dom());
    assert((h + 0) % n == h);
    assert(w[0] == v[h as int]);
    assert forall|x: TrackId| v.contains(x) && candidates@.dom().contains(x.0) implies #[trigger] r@.contains(x) by {
        let i = v.index_of(x);
        if i >= h {
            lemma_rotated_at(v, h as int, n, i - h);
            assert((h + (i - h)) % n == i) by (nonlinear_arith)
                requires
                    0 <= i < n,
            ;
            assert(w[i - h] == x);
        } else {
            lemma_rotated_at(v, h as int, n, i - h + n);
            assert((h + (i - h + n)) % n == i) by {
                vstd::arithmetic::div_mod::lemma_mod_add_multiples_vanish(i, n);
                vstd::arithmetic::div_mod::lemma_small_mod(i as nat, n as nat);
                assert(h + (i - h + n) == n + i);
            }
            assert(w[i - h + n] == x);
        }
        assert(w.contains(x));
    }
}

/// Of the tracks that are to be scanned before all others the latest comes first, and each is
/// handed out once.
pub proof fn the_latest_wish_comes_first(d: &mut ScanDriver, id: TrackId, now: u64, after: &mut ScanDriver, r: Option<(TrackId, u64)>)
    requires
        call_ensures(ScanDriver::prioritize, (d, id, now), ()),
        *old(after) == *final(d),
        call_ensures(ScanDriver::next_priority, (after,), r),
    ensures
        r == Some((id, now)),
        forall|i: int| 0 <= i < final(after)@.priority.len() ==> (#[trigger] final(after)@.priority[i]).0 != id,
{
    let keep = crate::scan::other_track(id);
    let v = old(d)@.priority;
    let w = v.filter(keep);
    assert(final(after)@.priority =~= w);
    assert forall|i: int| 0 <= i < w.len() implies (#[trigger] w[i]).0 != id by {
        v.lemma_filter_pred(keep, i);
    }
}

/// A track is no longer scanned before all others once another is wanted more, or scanning is
/// switched off; and it is not tried again for ever.
pub proof fn wishes_give_way(d: &ScanDriver, id: TrackId, r: bool, e: &mut ScanDriver, since: u64, waiting: bool, now: u64, again: bool)
    requires
        call_ensures(ScanDriver::priority_wanted, (d, id), r),
        call_ensures(ScanDriver::retry_priority, (e, id, since, waiting, now), again),
    ensures
        d@.mode == ScanMode::Disabled ==> !r,
        d@.priority.len() > 0 && d@.priority[0].0 != id ==> !r,
        d@.mode != ScanMode::Disabled && d@.priority.len() == 0 ==> r,
        again ==> waiting && old(e)@.mode != ScanMode::Disabled && old(e)@.priority.len() == 0 && final(e)@.priority == seq![
            (id, since),
        ],
        !again ==> final(e)@.priority == old(e)@.priority,
        !waiting ==> !again,
{
}

/// Scanning that is switched off wants nothing, and downloads are held only while it is active:
/// those that still run.
pub proof fn switching_off_lets_go(d: &mut ScanDriver, mode: ScanMode, running: &Vec<bool>)
    requires
        call_ensures(ScanDriver::set_mode, (d, mode, running), ()),
    ensures
        final(d)@.mode == mode && final(d)@.woken,
        mode == ScanMode::Disabled ==> final(d)@.priority.len() == 0,
        mode != ScanMode::Disabled ==> final(d)@.priority == old(d)@.priority,
        mode != ScanMode::Active ==> final(d)@.held.len() == 0,
        mode == ScanMode::Active && running@.len() == old(d)@.held.len() && (forall|i: int|
            0 <= i < running@.len() ==> #[trigger] running@[i]) ==> final(d)@.held == old(d)@.held,
        mode == ScanMode::Active && (forall|i: int| 0 <= i < running@.len() ==> !#[trigger] running@[i])
            ==> final(d)@.held.len() == 0,
{
    lemma_kept(old(d)@.held, running@);
}

proof fn lemma_kept(v: Seq<(Seq<char>, Seq<char>)>, running: Seq<bool>)
    ensures
        running.len() >= v.len() && (forall|i: int| 0 <= i < v.len() ==> #[trigger] running[i]) ==> kept_downloads(v, running) == v,
        (forall|i: int| 0 <= i < running.len() ==> !#[trigger] running[i]) ==> kept_downloads(v, running).len() == 0,
    decreases v.len(),
{
    if v.len() > 0 {
        lemma_kept(v.drop_last(), running);
        if running.len() >= v.len() && (forall|i: int| 0 <= i < v.len() ==> #[trigger] running[i]) {
            assert(running[v.len() - 1]);
            assert(kept_downloads(v, running) =~= v);
        }
    } else {
        assert(kept_downloads(v, running) =~= v);
    }
}

/// A download that is held is let go by its own name and by no other.
pub proof fn held_downloads_are_let_go(d: &mut ScanDriver, source: &SourceId, uri: &str, after: &mut ScanDriver)
    requires
        call_ensures(ScanDriver::hold, (d, source, uri), ()),
        *old(after) == *final(d),
        call_ensures(ScanDriver::release, (after, source, uri), ()),
    ensures
        final(d)@.held.contains((source@, uri@)),
        !final(after)@.held.contains((source@, uri@)),
        forall|h: (Seq<char>, Seq<char>)|
            h != (source@, uri@) && old(d)@.held.contains(h) ==> #[trigger] final(after)@.held.contains(h),
{
    let keep = crate::scan::other_download(source@, uri@);
    let v = final(d)@.held;
    let w = v.filter(keep);
    assert(v.last() == (source@, uri@));
    if w.contains((source@, uri@)) {
        let i = w.index_of((source@, uri@));
        v.lemma_filter_pred(keep, i);
    }
    assert forall|h: (Seq<char>, Seq<char>)| h != (source@, uri@) && old(d)@.held.contains(h) implies #[trigger] w.contains(h) by {
        let i = old(d)@.held.index_of(h);
        assert(v[i] == h);
        v.lemma_filter_contains(keep, i);
    }
}

/// What is looked at again counts from then on: a track that needs a scan is to be scanned, one
/// that needs none is not, and others stay as they were.
pub proof fn the_last_look_counts(c: Set<u128>, dirty: Seq<(TrackId, bool)>, id: TrackId, needed: bool, other: u128)
    ensures
        reread(c, dirty.push((id, needed))).contains(id.0) == needed,
        other != id.0 ==> reread(c, dirty.push((id, needed))).contains(other) == reread(c, dirty).contains(other),
        reread(c, Seq::empty()) == c,
{
    assert(dirty.push((id, needed)).drop_last() =~= dirty);
}

/// A plugin that is to wait is asked again no later than it said, a track that needs nothing is
/// left out, and a walk stops at the first thing that was done.
pub proof fn walks_go_on_in_time(w: &mut Walk, id: TrackId, t: u64, driver: &mut ScanDriver, stop: bool)
    requires
        call_ensures(Walk::after, (w, id, Verdict::NotBefore(t), driver), stop),
    ensures
        !stop,
        final(w).next_at matches Some(n) && n <= t && (old(w).next_at matches Some(o) ==> n <= o && (n == o || n == t)),
        final(w).candidates@.dom() == old(w).candidates@.dom(),
        final(driver)@ == old(driver)@,
{
}

} // verus!
