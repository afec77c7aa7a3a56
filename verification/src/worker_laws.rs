//! What an audio player tells of what it does, and where its bytes come from.

use vstd::prelude::*;
use crate::event::PlayerEvent;
use crate::player::{status_of, Snapshot};
use crate::producer::{filled_of, first_gap, run_of, FillNext, MediaForm, RunStep, SourceRead};
use crate::stream::{SeekTo, StateView, StreamInfo};
use crate::streaming::{landing, media_plan_of, open_from_of, read_next, MediaKind, OpenFrom, ReadNext, StreamProgress};
use crate::traits::PlayerState;
use crate::types::SourceId;
use crate::worker::{load_begun, load_result, ticked, LoadedStep, SinkStep, Worker};

verus! {

/// A load that is still wanted and could be opened plays, from where it was asked to, and says
/// so; one that could not be opened, or has no device to play on, is told as failed.
pub proof fn loads_play_or_fail(w: Worker, source: SourceId, uri: String, start_paused: bool, position_ms: u32, opened: Option<u32>)
    ensures
        ({
            let (r, events, step) = load_result(w, w.generation, source, uri, start_paused, position_ms, opened);
            &&& w.device && opened is Some ==> {
                &&& step == (LoadedStep::Start { from_ms: position_ms, pause: start_paused })
                &&& events.len() > 0 && events[0] == (PlayerEvent::Playing { source, uri })
                &&& start_paused ==> events.last() is Paused && r.shown.state == PlayerState::Paused
                &&& !start_paused ==> events.len() == 1
                &&& r.sink && r.duration_ms == opened->0 && r.shown.duration_ms == opened->0
            }
            &&& !w.device || opened is None ==> {
                &&& step is Failed
                &&& events == seq![PlayerEvent::LoadFailed { source, uri }]
                &&& !r.sink && r.playing is None && r.shown.state == PlayerState::Stopped
            }
        }),
{
}

/// A load that begins shows its rendition as playing from the place that was asked for.
pub proof fn loads_show_at_once(w: Worker, source: SourceId, uri: String, position_ms: u32)
    requires
        w.generation < u64::MAX,
    ensures
        ({
            let r = load_begun(w, source, uri, position_ms);
            &&& r.playing == Some((source, uri))
            &&& r.shown.source == Some(source) && r.shown.uri == Some(uri) && r.shown.position_ms == position_ms
            &&& r.generation == w.generation + 1
        }),
{
}

/// While a track plays its position is told; once the device has nothing left, its end is.
pub proof fn positions_and_the_end_are_told(w: Worker, source: SourceId, uri: String, pos: u32, empty: bool)
    requires
        w.playing == Some((source, uri)),
        w.sink,
        !w.finished_sent,
    ensures
        ({
            let (r, events) = ticked(w, false, pos, empty);
            &&& events.len() > 0 && events[0] == (PlayerEvent::Progress { position_ms: pos, duration_ms: w.duration_ms })
            &&& empty ==> events.len() == 2 && events[1] == (PlayerEvent::Finished { source, uri })
            &&& !empty ==> events.len() == 1 && r.shown.position_ms == pos
            &&& ticked(w, true, pos, empty) == (w, Seq::<PlayerEvent>::empty())
        }),
{
}

/// The switch between play and pause does what is not the case, and says so; without a track it
/// does nothing.
pub proof fn the_switch_plays_and_pauses(w: &mut Worker, paused: bool, r: (Vec<PlayerEvent>, SinkStep))
    requires
        call_ensures(Worker::toggle, (w, paused), r),
    ensures
        old(w).sink && old(w).playing is Some && paused ==> r.1 == SinkStep::Play && final(w).shown.state == PlayerState::Playing
            && r.0@.len() == 1 && r.0@[0] is Playing,
        old(w).sink && old(w).playing is Some && !paused ==> r.1 == SinkStep::Pause && final(w).shown.state == PlayerState::Paused
            && r.0@.len() == 1 && r.0@[0] is Paused,
        !old(w).sink || old(w).playing is None ==> r.1 == SinkStep::Leave && r.0@.len() == 0,
        final(w).shown.position_ms == old(w).shown.position_ms,
{
}

/// A stop is told, and nothing plays after it.
pub proof fn stops_are_told(w: &mut Worker, events: Vec<PlayerEvent>)
    requires
        call_ensures(Worker::stop, (w,), events),
    ensures
        events@.len() == 1 && events@[0] is Stopped,
        final(w).playing is None && !final(w).sink && final(w).shown.state == PlayerState::Stopped,
        final(w).generation != old(w).generation || old(w).generation == u64::MAX,
{
}

/// A player shows what it plays, and of a download that runs how far it is.
pub proof fn downloads_show_in_the_status(s: Snapshot, i: StreamInfo)
    ensures
        status_of(s, None).state == s.state,
        status_of(s, None).position_ms == s.position_ms,
        status_of(s, None).duration_ms == s.duration_ms,
        status_of(s, None).download_pct is None,
        i.state@ is Fetching ==> status_of(s, Some(i)).download_pct == i.percent,
        i.state@ is Done || i.state@ is Failed ==> status_of(s, Some(i)).download_pct is None,
        i.state@ is Connecting || i.state@ is Buffering ==> status_of(s, Some(i)).buffering,
        i.state@ is Fetching || i.state@ is Done ==> status_of(s, Some(i)).buffering == s.buffering,
{
}

/// A download that goes on does so at the first byte that is missing.
pub proof fn downloads_go_on_at_the_gap(s: StateView)
    requires
        run_of(s, None, Ok(MediaForm::Url)).2 is Fetch,
    ensures
        run_of(s, None, Ok(MediaForm::Url)).2 == (RunStep::Fetch { from: first_gap(s) }),
        run_of(s, None, Ok(MediaForm::Url)).0 == s,
        run_of(s, None, Ok(MediaForm::Path)).2 == RunStep::Adopt,
        s.len is None ==> first_gap(s) == 0,
        s.ranges.len() == 0 && (s.len matches Some(l) && l > 0) ==> first_gap(s) == 0,
{
}

/// A source that ends before its length, or fails, fails the run and says where; one of unknown
/// length has ended when there is no more.
pub proof fn short_sources_fail(s: StateView, at: u64, l: u64, why: String, now: u64)
    ensures
        filled_of(s, at, Some(l), SourceRead::End, now).1 is Stop,
        filled_of(s, at, Some(l), SourceRead::End, now).0.failure is Some,
        filled_of(s, at, None, SourceRead::End, now) == (s, FillNext::Finish),
        filled_of(s, at, Some(l), SourceRead::Failed(why), now).1 is Stop,
        filled_of(s, at, Some(l), SourceRead::Failed(why), now).0.failure is Some,
        s.phase is Cancelled ==> filled_of(s, at, Some(l), SourceRead::Bytes(1), now).1 is Stop,
        s.phase is Fetching && s.claims > 0 ==> filled_of(s, at, Some(l), SourceRead::Bytes(1), now).1 is Write,
{
}

/// Where a rendition's bytes come from: a local file from the disk, anything else from the cache
/// where it is there, and from its own source before another stands in.
pub proof fn bytes_come_from_the_nearest_place(source: Seq<char>, own: bool, cached: bool, http: bool)
    ensures
        source == "local"@ && !own ==> open_from_of(source, own, cached, http) == OpenFrom::Disk,
        source != "local"@ && cached ==> open_from_of(source, own, cached, http) == OpenFrom::Cache,
        source != "local"@ && !cached && own ==> open_from_of(source, own, cached, http) == OpenFrom::Provider,
        source != "local"@ && !cached && !own && http ==> open_from_of(source, own, cached, http) == OpenFrom::HttpProvider,
        source != "local"@ && !cached && !own && !http ==> open_from_of(source, own, cached, http) == OpenFrom::Nothing,
{
}

/// A read during a download gets what is written, waits for what is not, and at the end of one
/// that failed is told so.
pub proof fn reads_follow_the_download(pos: u64, room: usize, p: StreamProgress)
    requires
        room > 0,
    ensures
        pos < p.written ==> (read_next(pos, room, p) matches ReadNext::Take(n) && 0 < n <= room && pos + n <= p.written),
        pos >= p.written && !p.done ==> read_next(pos, room, p) is Wait,
        pos >= p.written && p.done && p.error is None ==> read_next(pos, room, p) is End,
        pos >= p.written && p.done && p.error is Some ==> read_next(pos, room, p) is Fail,
{
}

/// A seek in a download leads where it says, and never before the start.
pub proof fn stream_seeks_lead_where_they_say(pos: u64, total: u64, p: u64, d: i64)
    requires
        p <= i64::MAX,
    ensures
        landing(pos, total, SeekTo::Start(p)) == p,
        pos + d >= 0 ==> landing(pos, total, SeekTo::Current(d)) == pos + d,
        pos + d < 0 ==> landing(pos, total, SeekTo::Current(d)) == 0,
        total + d >= 0 ==> landing(pos, total, SeekTo::End(d)) == total + d,
        total + d < 0 ==> landing(pos, total, SeekTo::End(d)) == 0,
{
}

/// A file is played as it is, an address of known length while it comes in, and anything else once
/// it is copied; what was fetched is kept where there is a cache.
pub proof fn media_are_played_as_soon_as_possible(len: u64, cache: bool)
    ensures
        media_plan_of(MediaKind::Path, cache).whole && !media_plan_of(MediaKind::Path, cache).copy,
        media_plan_of(MediaKind::Url(Some(len)), cache).stream == Some(len),
        !media_plan_of(MediaKind::Url(Some(len)), cache).whole,
        media_plan_of(MediaKind::Url(Some(len)), cache).store == cache,
        media_plan_of(MediaKind::Url(None), cache).copy && media_plan_of(MediaKind::Reader, cache).copy,
        media_plan_of(MediaKind::Reader, cache).store == cache && media_plan_of(MediaKind::Reader, cache).whole,
        !media_plan_of(MediaKind::Path, cache).store,
{
}

} // verus!
