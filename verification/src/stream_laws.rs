//! What a download promises to those who read it.

use vstd::prelude::*;
use crate::ranges::{canonical, holds, total, Span};
use crate::stream::{
    after_run_of, checked, complete_file, finished, percent_of, plan_open, resume_wait, retry_wait_ms, seek_target_of, terminal,
    truncated, Attempts, FinishStep, Intent, OpenFacts, OpenPlan, ReadStep, ReadView, Reader, SeekError, SeekTo, State, StateView,
    StreamState,
};

verus! {

/// A download goes into the cache only if every byte of it is on disk, and then it does.
pub proof fn only_whole_files_are_kept(s: StateView, p: int)
    requires
        canonical(s.ranges),
        !terminal(s.phase),
        s.len matches Some(l) && l > 0,
    ensures
        finished(s).1 == FinishStep::Commit ==> (holds(s.ranges, p) <==> 0 <= p < s.len->0),
        (forall|q: int| #[trigger] holds(s.ranges, q) <==> 0 <= q < s.len->0) ==> finished(s).1 == FinishStep::Commit
            && finished(s).0.phase is Committing,
        !holds(s.ranges, p) && 0 <= p < s.len->0 ==> finished(s).1 == FinishStep::Failed && finished(s).0.phase is Failed,
{
    let l = s.len->0;
    let w = seq![Span { start: 0, end: l }];
    assert(w[0].has(p) <==> 0 <= p < l);
    if complete_file(s) {
        assert(s.ranges == w);
        assert(holds(s.ranges, p) <==> 0 <= p < l) by {
            if 0 <= p < l {
                assert(w[0].has(p));
            }
        }
    }
    if forall|q: int| #[trigger] holds(s.ranges, q) <==> 0 <= q < l {
        assert(canonical(w));
        assert forall|q: int| #[trigger] holds(w, q) <==> holds(s.ranges, q) by {
            if 0 <= q < l {
                assert(w[0].has(q));
            }
        }
        crate::ranges::canonical_is_unique(s.ranges, w);
    }
}

/// The share on disk is what part of the length is there, rounded down.
pub proof fn the_share_is_what_is_there(s: StateView, l: u64)
    requires
        s.len == Some(l),
        l > 0,
        total(s.ranges) <= l,
    ensures
        percent_of(s) matches Some(x) && x * l <= total(s.ranges) * 100 < (x + 1) * l,
        total(s.ranges) == l ==> percent_of(s) == Some(100u8),
        total(s.ranges) == 0 ==> percent_of(s) == Some(0u8),
{
    let t = total(s.ranges) * 100;
    let p = t / (l as nat);
    assert(p <= 100) by (nonlinear_arith)
        requires
            p == t / (l as nat),
            t == total(s.ranges) * 100,
            total(s.ranges) <= l,
            l > 0,
    ;
    assert(p * l <= t < (p + 1) * l) by (nonlinear_arith)
        requires
            p == t / (l as nat),
            l > 0,
    ;
    if total(s.ranges) == l {
        assert(p == 100) by (nonlinear_arith)
            requires
                p == t / (l as nat),
                t == l * 100,
                l > 0,
        ;
    }
    if total(s.ranges) == 0 {
        assert(p == 0) by (nonlinear_arith)
            requires
                p == t / (l as nat),
                t == 0,
                l > 0,
        ;
    }
}

/// A download that nobody claims is cancelled eight seconds after the last claim was dropped, not
/// before, and never once it is complete.
pub proof fn unclaimed_downloads_end_after_a_while(s: StateView, now: u64, t: u64)
    requires
        s.claims == 0,
        s.released == Some(t),
        now >= t,
    ensures
        s.phase is Fetching && now >= t + 8000 ==> checked(s, now).phase is Cancelled,
        now < t + 8000 ==> checked(s, now) == s,
        s.phase is Done || s.phase is Committing ==> checked(s, now) == s,
        checked(s, now).ranges == s.ranges,
{
}

/// A read is given bytes that are on disk, at least one and no more than asked for; at the end of
/// the stream it ends, and where the bytes are not there yet it waits.
pub proof fn reads_are_given_what_is_there(s: &mut State, r: Reader, max: u64, stalled_ms: u64, out: (ReadStep, bool))
    requires
        call_ensures(State::read_step, (s, r, max, stalled_ms), out),
    ensures
        out.0@ matches ReadView::Take(n) ==> 0 < n <= max && forall|p: int|
            r.pos <= p < r.pos + n ==> #[trigger] holds(old(s)@.ranges, p),
        (old(s)@.len matches Some(l) && r.pos >= l) ==> out.0@ is End,
        out.0@ is Wait ==> !holds(old(s)@.ranges, r.pos as int) && !terminal(old(s)@.phase),
        holds(old(s)@.ranges, r.pos as int) && (old(s)@.len matches Some(l) ==> r.pos < l) ==> out.0@ is Take,
        old(s)@.phase is Failed && !holds(old(s)@.ranges, r.pos as int) && (old(s)@.len matches Some(l) ==> r.pos < l)
            ==> out.0@ is Fail,
        final(s)@.ranges == old(s)@.ranges,
{
}

/// A playback reader that waits in a download that can be steered makes it go there.
pub proof fn waiting_players_steer(s: &mut State, r: Reader, max: u64, stalled_ms: u64, out: (ReadStep, bool))
    requires
        call_ensures(State::read_step, (s, r, max, stalled_ms), out),
        out.0@ is Wait,
    ensures
        r.play && old(s)@.jumpable ==> final(s)@.want == Some(r.pos),
        !r.play ==> final(s)@.want == old(s)@.want,
{
}

/// What is written is on disk from then on, and nothing that was there is lost.
pub proof fn written_bytes_are_there(s: &mut State, offset: u64, n: u64, moved: bool, p: int)
    requires
        call_ensures(State::record_write, (s, offset, n), moved),
    ensures
        offset <= p < offset + n ==> holds(final(s)@.ranges, p),
        holds(old(s)@.ranges, p) ==> holds(final(s)@.ranges, p),
        holds(final(s)@.ranges, p) ==> holds(old(s)@.ranges, p) || offset <= p < offset + n,
        old(s)@.phase is Connecting ==> final(s)@.phase is Fetching,
        final(s)@.len == old(s)@.len && final(s)@.claims == old(s)@.claims,
{
}

/// A length that contradicts the one that is known is refused.
pub proof fn lengths_do_not_change(s: &mut State, n: u64, ok: bool)
    requires
        call_ensures(State::set_len, (s, n), ok),
    ensures
        old(s)@.len is None ==> ok && final(s)@.len == Some(n),
        old(s)@.len is Some ==> final(s)@.len == old(s)@.len && (ok <==> old(s)@.len == Some(n)),
{
}

/// Whoever plays or fetches claims a download, whoever only looks does not, and a failed one
/// cannot be joined.
pub proof fn claims_are_counted(s: &mut State, intent: Intent, claimed: Option<bool>)
    requires
        call_ensures(State::attach, (s, intent), claimed),
        old(s)@.claims < u64::MAX,
    ensures
        old(s)@.phase is Failed || old(s)@.phase is Cancelled ==> claimed is None && final(s)@ == old(s)@,
        claimed == Some(true) ==> final(s)@.claims == old(s)@.claims + 1 && final(s)@.released is None && (intent == Intent::Play
            || intent == Intent::Fetch),
        claimed == Some(false) ==> intent == Intent::Peek && final(s)@ == old(s)@,
{
}

/// A producer that brought something new runs again after two seconds, and each run in a row that
/// did not doubles the wait, up to sixteen.
pub proof fn waits_double(failures: u32)
    requires
        1 <= failures,
    ensures
        resume_wait(1) == 2000,
        failures < 4 ==> resume_wait((failures + 1) as u32) == 2 * resume_wait(failures),
        failures >= 4 ==> resume_wait(failures) == 16000,
{
}

/// A stream is sought from its start, from where the reader is, or from its end, which has to be
/// known; before the start there is nothing.
pub proof fn seeks_lead_where_they_say(pos: u64, len: Option<u64>, p: u64, d: i64)
    ensures
        seek_target_of(pos, len, SeekTo::Start(p)) == Ok::<u64, SeekError>(p),
        0 <= pos + d <= u64::MAX ==> (seek_target_of(pos, len, SeekTo::Current(d)) matches Ok(x) && x == pos + d),
        pos + d < 0 ==> seek_target_of(pos, len, SeekTo::Current(d)) == Err::<u64, SeekError>(SeekError::BeforeStart),
        len is None ==> seek_target_of(pos, len, SeekTo::End(d)) == Err::<u64, SeekError>(SeekError::UnknownLength),
        len matches Some(l) ==> 0 <= l + d <= u64::MAX ==> (seek_target_of(pos, len, SeekTo::End(d)) matches Ok(x) && x == l + d),
{
}

/// A stream that has ended, well or not, is never anything else again.
pub proof fn ended_streams_stay_ended(s: &mut State, new: StreamState, moved: bool)
    requires
        call_ensures(State::set_phase, (s, new), moved),
    ensures
        terminal(old(s)@.phase) ==> !moved && final(s)@ == old(s)@,
        !terminal(old(s)@.phase) ==> final(s)@.phase == new@ && (moved <==> old(s)@.phase != new@),
        final(s)@.ranges == old(s)@.ranges && final(s)@.claims == old(s)@.claims,
{
}

/// A run that brought bytes is followed by another; one that is the seventh in a row without, or
/// after which there is still nothing at all, is the last.
pub proof fn runs_follow_each_other_while_bytes_come(s: StateView, a: Attempts)
    requires
        !terminal(s.phase),
        a.failures < 1000,
        total(s.ranges) <= u64::MAX,
    ensures
        total(s.ranges) > a.have ==> after_run_of(s, a).2 is Resume && after_run_of(s, a).1.failures == 1,
        total(s.ranges) == 0 && a.have == 0 ==> after_run_of(s, a).2 is GiveUp && after_run_of(s, a).0.phase is Failed,
        total(s.ranges) <= a.have && a.failures >= 6 ==> after_run_of(s, a).2 is GiveUp,
        total(s.ranges) <= a.have && a.have > 0 && a.failures < 6 ==> after_run_of(s, a).2 is Resume && after_run_of(
            s,
            a,
        ).1.failures == a.failures + 1,
        after_run_of(s, a).2 is Resume ==> !terminal(after_run_of(s, a).0.phase),
{
}

/// A claim that is given back leaves the others; with the last one the time begins after which
/// nobody wants the download.
pub proof fn the_last_claim_starts_the_clock(s: &mut State, now: u64)
    requires
        old(s)@.claims > 0,
        call_ensures(State::release, (s, now), ()),
    ensures
        final(s)@.claims + 1 == old(s)@.claims,
        final(s)@.claims == 0 ==> final(s)@.released == Some(now),
        final(s)@.claims > 0 ==> final(s)@.released == old(s)@.released,
        final(s)@.phase == old(s)@.phase && final(s)@.ranges == old(s)@.ranges,
{
}

/// A request is tried three times again, each wait twice the one before.
pub proof fn retries_wait_longer(attempt: u32, r: Option<u64>, next: Option<u64>)
    requires
        1 <= attempt < u32::MAX,
        call_ensures(retry_wait_ms, (attempt,), r),
        call_ensures(retry_wait_ms, ((attempt + 1) as u32,), next),
    ensures
        r is Some <==> attempt <= 3,
        r is Some && next is Some ==> next->0 == 2 * r->0,
        attempt == 1 ==> r == Some(500u64),
{
}

/// A file is too short to be the whole track only where the track is longer than a sample and the
/// file holds less than four kilobytes for each second of it.
pub proof fn samples_are_told_from_tracks(bytes: u64, duration_ms: u32, r: bool)
    requires
        call_ensures(truncated, (bytes, duration_ms), r),
    ensures
        duration_ms <= 35_000 ==> !r,
        r ==> bytes * 1000 < duration_ms * 4_000,
        duration_ms >= 36_000 && (bytes + 4_000) * 1000 <= duration_ms * 4_000 ==> r,
{
}

/// What runs already is joined, a whole copy in the cache is used before anything is fetched, and
/// to peek never starts a download.
pub proof fn nothing_is_fetched_twice(f: OpenFacts, intent: Intent, r: OpenPlan)
    requires
        call_ensures(plan_open, (f, intent), r),
    ensures
        f.running <==> r == OpenPlan::Join,
        !f.running && f.duration_ms <= 35_000 && f.cached_bytes is Some ==> r == OpenPlan::Cached,
        f.cached_bytes is None ==> r != OpenPlan::Cached,
        r == OpenPlan::Cached ==> f.cached_bytes->0 * 1000 + 4_000_000 > f.duration_ms * 4_000 || f.duration_ms <= 35_000,
        intent == Intent::Peek ==> r != OpenPlan::Start && r != OpenPlan::NoSource,
        r == OpenPlan::Start ==> f.provider && !f.local,
        !f.running && f.cached_bytes is None && !f.local && intent != Intent::Peek ==> (r == OpenPlan::Start <==> f.provider),
{
}

} // verus!
