//! What the scan may do, and when.

use vstd::prelude::*;
use crate::scan::{
    access_of, backed_off, backoff_wait, cached_first, cycled, ending_of, gate_of, holds_one_of, job_key_of, noted,
    other_track, prioritized, settled, started, status_of, Access, DriverView, Ending, Outcome, PluginView,
    ScanMode, ScanStatus, StreamUse,
};
use crate::types::{TrackId, TrackView};

verus! {

/// Only the active mode downloads; the switch goes between the two modes that scan, and leaves a
/// scan that is off alone.
pub proof fn modes_do_what_they_say(m: ScanMode)
    ensures
        access_of(ScanMode::Active) == Access::Fetch,
        access_of(ScanMode::CacheOnly) == Access::Peek,
        access_of(ScanMode::Disabled) == Access::Peek,
        cycled(ScanMode::Active) == ScanMode::CacheOnly,
        cycled(ScanMode::CacheOnly) == ScanMode::Active,
        cycled(ScanMode::Disabled) == ScanMode::Disabled,
        cycled(cycled(m)) == m,
{
}

/// A plugin that needs audio starts no download unless downloads are allowed.
pub proof fn nothing_is_downloaded_unasked(d: DriverView, p: PluginView, t: TrackView, access: Access, has_stream: bool, now: u64)
    requires
        gate_of(d, p, t, access, has_stream, now) is Go,
        p.needs_audio,
        !has_stream,
    ensures
        access == Access::Fetch,
        d.mode != ScanMode::Disabled,
        holds_one_of(d, t.renditions) || d.held.len() == 0,
{
}

/// A plugin runs only on a track that lacks what it finds, that it is not at work on, and that it
/// did not skip.
pub proof fn plugins_run_where_they_are_needed(d: DriverView, p: PluginView, t: TrackView, access: Access, has_stream: bool, now: u64)
    ensures
        gate_of(d, p, t, access, has_stream, now) is Go ==> p.needs && status_of(d, p.id, t.id) != Some(ScanStatus::Skipped)
            && status_of(d, p.id, t.id) != Some(ScanStatus::Downloading) && d.mode != ScanMode::Disabled,
        !p.needs ==> gate_of(d, p, t, access, has_stream, now) is Over,
{
}

/// A plugin that failed on a track tries again a quarter of a minute later, and after three
/// failures in a row a quarter of an hour later.
pub proof fn failed_plugins_wait(d: DriverView, p: PluginView, t: TrackView, access: Access, has_stream: bool, now: u64, count: u32, last: u64)
    requires
        d.failures.dom().contains(job_key_of(p.id, t.id)),
        d.failures[job_key_of(p.id, t.id)] == (count, last),
        gate_of(d, p, t, access, has_stream, now) is Go,
    ensures
        now >= last + 15_000,
        count >= 3 ==> now >= last + 900_000,
{
}

/// Between two downloads of a plugin lies its interval.
pub proof fn downloads_keep_their_distance(d: DriverView, p: PluginView, t: TrackView, access: Access, now: u64, last: u64)
    requires
        d.last_run.dom().contains(p.id),
        d.last_run[p.id] == last,
        gate_of(d, p, t, access, false, now) is Go,
        p.min_interval > 0,
    ensures
        now >= last + p.min_interval,
{
}

/// A run that starts is noted, and so is when it did.
pub proof fn runs_are_noted(d: DriverView, p: PluginView, t: TrackId, now: u64)
    ensures
        status_of(started(d, p, t, false, now), p.id, t) == Some(ScanStatus::Downloading),
        started(d, p, t, false, now).last_run.dom().contains(p.id) && started(d, p, t, false, now).last_run[p.id] == now,
        p.needs_audio ==> started(d, p, t, true, now).last_run == d.last_run,
{
}

/// A run that found something clears the record of the plugin and of the source; one that failed
/// counts once more against both, and one that was given up counts against neither.
pub proof fn endings_are_recorded(d: DriverView, plugin: Seq<char>, t: TrackId, source: Seq<char>, access: Access, now: u64)
    ensures
        ({
            let k = job_key_of(plugin, t);
            let done = settled(d, plugin, t, Ending::Done, Some(source), access, now);
            let failed = settled(d, plugin, t, Ending::Failed, Some(source), Access::Fetch, now);
            let left = settled(d, plugin, t, Ending::Abandoned, Some(source), access, now);
            let skipped = settled(d, plugin, t, Ending::Skipped, Some(source), access, now);
            &&& !done.failures.dom().contains(k) && !done.backoff.dom().contains(source) && status_of(done, plugin, t) is None
            &&& failed.failures.dom().contains(k) && failed.failures[k].1 == now && status_of(failed, plugin, t) == Some(
                ScanStatus::Error,
            )
            &&& !d.failures.dom().contains(k) ==> failed.failures[k].0 == 1
            &&& d.failures.dom().contains(k) && d.failures[k].0 < u32::MAX ==> failed.failures[k].0 == d.failures[k].0 + 1
            &&& failed.backoff.dom().contains(source)
            &&& left.failures == d.failures && left.backoff == d.backoff && status_of(left, plugin, t) is None
            &&& skipped.failures == d.failures && status_of(skipped, plugin, t) == Some(ScanStatus::Skipped)
        }),
{
}

/// A source that fails is left alone for a minute, and for twice as long after each further
/// failure, up to a quarter of an hour.
pub proof fn failing_sources_are_left_alone(m: Map<Seq<char>, (u32, u64)>, source: Seq<char>, now: u64, n: u32)
    requires
        now < 0x1000_0000_0000_0000,
        1 <= n,
    ensures
        !m.dom().contains(source) ==> noted(m, source, true, now)[source] == (1u32, (now + 60_000) as u64),
        n < 4 ==> backoff_wait((n + 1) as u32) == 2 * backoff_wait(n),
        backoff_wait(n) <= 900_000,
        n >= 5 ==> backoff_wait(n) == 900_000,
        !noted(m, source, false, now).dom().contains(source),
{
}

/// A source is left alone until the time that was noted, and no longer.
pub proof fn backoffs_end(d: DriverView, source: Seq<char>, now: u64)
    ensures
        backed_off(d, source, now) matches Some(t) ==> t > now && d.backoff.dom().contains(source) && d.backoff[source].1 == t,
        !d.backoff.dom().contains(source) || d.backoff[source].1 <= now ==> backed_off(d, source, now) is None,
{
}

/// What an attempt comes to.
pub proof fn outcomes_are_told_apart(o: Outcome, needs_audio: bool, stream: Option<StreamUse>, access: Access, wanted: bool)
    ensures
        o is Done ==> ending_of(o, needs_audio, stream, access, wanted) == Ending::Done,
        o is Retry && !wanted ==> ending_of(o, needs_audio, stream, access, wanted) == Ending::Abandoned,
        o is Retry && wanted && stream is None ==> ending_of(o, needs_audio, stream, access, wanted) == Ending::Failed,
        o is Skip && stream is Some ==> ending_of(o, needs_audio, stream, access, wanted) == Ending::Skipped,
        o is Skip && needs_audio && stream is None && access == Access::Peek ==> ending_of(
            o,
            needs_audio,
            stream,
            access,
            wanted,
        ) == Ending::NoStream,
{
}

/// What plays is scanned first, before what played earlier, and stands there once.
pub proof fn what_plays_is_scanned_first(v: Seq<(TrackId, u64)>, id: TrackId, now: u64)
    ensures
        ({
            let r = prioritized(v, id, now);
            &&& r.len() > 0 && r[0] == (id, now)
            &&& forall|i: int| 1 <= i < r.len() ==> (#[trigger] r[i]).0 != id
            &&& forall|i: int| 0 <= i < v.len() && (#[trigger] v[i]).0 != id ==> r.contains(v[i])
        }),
{
    let f = other_track(id);
    let w = v.filter(f);
    let r = prioritized(v, id, now);
    assert forall|i: int| 1 <= i < r.len() implies (#[trigger] r[i]).0 != id by {
        assert(r[i] == w[i - 1]);
        v.lemma_filter_pred(f, i - 1);
    }
    assert forall|i: int| 0 <= i < v.len() && (#[trigger] v[i]).0 != id implies r.contains(v[i]) by {
        v.lemma_filter_contains(f, i);
        let j = choose|j: int| 0 <= j < w.len() && w[j] == v[i];
        assert(r[j + 1] == v[i]);
    }
}

proof fn lemma_cached_first(cached: Seq<bool>, n: int, want: bool, i: int)
    requires
        0 <= n <= cached.len(),
        0 <= i < n,
    ensures
        cached_first(cached, n, want).contains(i) <==> cached[i] == want,
    decreases n,
{
    let rest = cached_first(cached, n - 1, want);
    let all = cached_first(cached, n, want);
    if i < n - 1 {
        lemma_cached_first(cached, n - 1, want, i);
        if rest.contains(i) {
            let k = choose|k: int| 0 <= k < rest.len() && rest[k] == i;
            assert(all[k] == i);
        }
        if all.contains(i) {
            let k = choose|k: int| 0 <= k < all.len() && all[k] == i;
            assert(rest[k] == i);
        }
    } else {
        lemma_below(cached, n - 1, want);
        if cached[i] == want {
            assert(all[rest.len() as int] == i);
        }
    }
}

proof fn lemma_below(cached: Seq<bool>, n: int, want: bool)
    ensures
        forall|k: int| 0 <= k < cached_first(cached, n, want).len() ==> 0 <= #[trigger] cached_first(cached, n, want)[k] < n,
    decreases n,
{
    if n > 0 {
        lemma_below(cached, n - 1, want);
        let rest = cached_first(cached, n - 1, want);
        let all = cached_first(cached, n, want);
        assert forall|k: int| 0 <= k < all.len() implies 0 <= #[trigger] all[k] < n by {
            if k < rest.len() {
                assert(all[k] == rest[k]);
            }
        }
    }
}

/// A scan tries every rendition, and those that are in the cache before the others.
pub proof fn cached_renditions_are_tried_first(cached: Seq<bool>, i: int)
    requires
        0 <= i < cached.len(),
    ensures
        ({
            let a = cached_first(cached, cached.len() as int, true);
            let b = cached_first(cached, cached.len() as int, false);
            (cached[i] ==> a.contains(i) && !b.contains(i)) && (!cached[i] ==> b.contains(i) && !a.contains(i))
        }),
{
    lemma_cached_first(cached, cached.len() as int, true, i);
    lemma_cached_first(cached, cached.len() as int, false, i);
}

/// What a plugin found is an attribute of the track from then on; its other attributes and all
/// else stay.
pub proof fn found_attributes_are_kept(t: TrackView, attrs: Map<Seq<char>, String>, name: Seq<char>)
    ensures
        ({
            let r = crate::scan::with_attrs(t, attrs);
            &&& attrs.dom().contains(name) ==> r.attrs.dom().contains(name) && r.attrs[name] == attrs[name]
            &&& !attrs.dom().contains(name) && t.attrs.dom().contains(name) ==> r.attrs.dom().contains(name) && r.attrs[name]
                == t.attrs[name]
            &&& r.attrs.dom().contains(name) ==> attrs.dom().contains(name) || t.attrs.dom().contains(name)
            &&& r.id == t.id && r.title == t.title && r.artists == t.artists && r.renditions == t.renditions && r.duration_ms
                == t.duration_ms && r.tags == t.tags
        }),
{
}

} // verus!
