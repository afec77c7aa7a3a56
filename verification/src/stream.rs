//! The state of a stream: a sparse file that a producer fills in any order while readers read
//! what is already there.

use vstd::prelude::*;
use crate::ranges::{
    canonical, covers, downloaded, holds, hole_after, hole_from, insert_range, prefix, prefix_of,
    run_end, total, whole, within, Span,
};
use crate::text::{append_decimal, append_str, chars_of, decimal, string_of};

verus! {

/// How long, in milliseconds, a producer goes on after its last claim was dropped.
pub const GRACE_MS: u64 = 8_000;

/// A reader that waits this long marks the stream as buffering.
pub const STALL_MS: u64 = 250;

/// How often a failed request is tried again.
pub const RETRIES: u32 = 3;

/// How often a producer is restarted in a row without new bytes.
pub const RESUMES: u32 = 6;

/// The first wait before a restart; it doubles up to the longest one.
pub const RESUME_BACKOFF_MS: u64 = 2_000;

pub const RESUME_BACKOFF_MAX_MS: u64 = 16_000;

/// How many bytes are read from a source at a time.
pub const FILL_CHUNK: u64 = 65_536;

/// What a stream is opened for.
#[derive(Clone, Copy, PartialEq, Eq, Structural, Debug)]
pub enum Intent {
    /// Playback: claims the download and steers it.
    Play,
    /// Filling the cache: claims the download.
    Fetch,
    /// Joining a stream that runs anyway: no claim.
    Peek,
}

#[derive(PartialEq, Eq, Debug)]
pub enum StreamState {
    Connecting,
    Fetching,
    Buffering,
    /// Complete, on its way into the cache.
    Committing,
    Done,
    Failed(String),
    Cancelled,
}

/// A stream state with the reason of a failure as text.
pub enum PhaseView {
    Connecting,
    Fetching,
    Buffering,
    Committing,
    Done,
    Failed(Seq<char>),
    Cancelled,
}

impl View for StreamState {
    type V = PhaseView;

    open spec fn view(&self) -> PhaseView {
        match *self {
            StreamState::Connecting => PhaseView::Connecting,
            StreamState::Fetching => PhaseView::Fetching,
            StreamState::Buffering => PhaseView::Buffering,
            StreamState::Committing => PhaseView::Committing,
            StreamState::Done => PhaseView::Done,
            StreamState::Failed(why) => PhaseView::Failed(why@),
            StreamState::Cancelled => PhaseView::Cancelled,
        }
    }
}

pub open spec fn terminal(p: PhaseView) -> bool {
    p is Done || p is Failed || p is Cancelled
}

pub open spec fn active(p: PhaseView) -> bool {
    p is Connecting || p is Fetching || p is Buffering
}

impl Clone for StreamState {
    fn clone(&self) -> (r: StreamState)
        ensures
            r@ == self@,
    {
        match self {
            StreamState::Connecting => StreamState::Connecting,
            StreamState::Fetching => StreamState::Fetching,
            StreamState::Buffering => StreamState::Buffering,
            StreamState::Committing => StreamState::Committing,
            StreamState::Done => StreamState::Done,
            StreamState::Failed(why) => StreamState::Failed(why.clone()),
            StreamState::Cancelled => StreamState::Cancelled,
        }
    }
}

impl StreamState {
    /// No other state follows.
    pub fn is_terminal(&self) -> (r: bool)
        ensures
            r == terminal(self@),
    {
        match self {
            StreamState::Done | StreamState::Failed(_) | StreamState::Cancelled => true,
            _ => false,
        }
    }

    /// The download runs.
    pub fn is_active(&self) -> (r: bool)
        ensures
            r == active(self@),
    {
        match self {
            StreamState::Connecting | StreamState::Fetching | StreamState::Buffering => true,
            _ => false,
        }
    }

    fn same(&self, other: &StreamState) -> (r: bool)
        ensures
            r == (self@ == other@),
    {
        match (self, other) {
            (StreamState::Connecting, StreamState::Connecting) => true,
            (StreamState::Fetching, StreamState::Fetching) => true,
            (StreamState::Buffering, StreamState::Buffering) => true,
            (StreamState::Committing, StreamState::Committing) => true,
            (StreamState::Done, StreamState::Done) => true,
            (StreamState::Failed(a), StreamState::Failed(b)) => *a == *b,
            (StreamState::Cancelled, StreamState::Cancelled) => true,
            _ => false,
        }
    }
}

/// What is shown of a stream.
pub struct StreamInfo {
    pub ranges: Vec<Span>,
    /// Contiguous bytes from the start.
    pub prefix: u64,
    pub len: Option<u64>,
    pub jumpable: bool,
    pub state: StreamState,
    /// Contiguous bytes on disk from where playback is; all ones once that run reaches the end.
    pub ahead: u64,
    /// The share on disk, 0 to 100.
    pub percent: Option<u8>,
}

/// The producer must stop.
#[derive(Clone, Copy, PartialEq, Eq, Structural, Debug)]
pub struct Stopped;

/// The state of one stream. Times are milliseconds of a clock that never goes back.
pub struct State {
    pub ranges: Vec<Span>,
    pub len: Option<u64>,
    /// The producer goes where a reader waits.
    pub jumpable: bool,
    pub phase: StreamState,
    /// Where a playback reader waits.
    pub want: Option<u64>,
    pub claims: u64,
    /// When the last claim was dropped.
    pub released: Option<u64>,
    /// The share that a producer without a length reports, in percent.
    pub progress: Option<u8>,
    pub play_pos: u64,
    /// Why the last run of the producer ended early.
    pub failure: Option<String>,
    /// The unit from which a resumed producer goes on.
    pub checkpoint: u64,
}

/// What a state holds.
pub struct StateView {
    pub ranges: Seq<Span>,
    pub len: Option<u64>,
    pub jumpable: bool,
    pub phase: PhaseView,
    pub want: Option<u64>,
    pub claims: u64,
    pub released: Option<u64>,
    pub progress: Option<u8>,
    pub play_pos: u64,
    pub failure: Option<Seq<char>>,
    pub checkpoint: u64,
}

impl View for State {
    type V = StateView;

    open spec fn view(&self) -> StateView {
        StateView {
            ranges: self.ranges@,
            len: self.len,
            jumpable: self.jumpable,
            phase: self.phase@,
            want: self.want,
            claims: self.claims,
            released: self.released,
            progress: self.progress,
            play_pos: self.play_pos,
            failure: crate::types::opt_text(self.failure),
            checkpoint: self.checkpoint,
        }
    }
}

/// The state after a change of phase: a terminal phase stays.
pub open spec fn with_phase(s: StateView, new: PhaseView) -> StateView {
    if s.phase == new || terminal(s.phase) {
        s
    } else {
        StateView { phase: new, ..s }
    }
}

/// Whether a change of phase happens.
pub open spec fn moves(s: StateView, new: PhaseView) -> bool {
    s.phase != new && !terminal(s.phase)
}

/// Whether the last claim was dropped too long ago.
pub open spec fn expired(s: StateView, now: u64) -> bool {
    active(s.phase) && s.claims == 0 && (s.released matches Some(t) && now - t >= GRACE_MS)
}

/// The state after a look at the claims.
pub open spec fn checked(s: StateView, now: u64) -> StateView {
    if expired(s, now) {
        with_phase(s, PhaseView::Cancelled)
    } else {
        s
    }
}

/// What `StreamInfo` shows of how far playback can go.
pub open spec fn ahead_ok(s: StateView, ahead: u64) -> bool {
    if !holds(s.ranges, s.play_pos as int) {
        ahead == 0
    } else {
        exists|end: u64|
            s.play_pos < end && !holds(s.ranges, end as int) && (forall|p: int|
                s.play_pos <= p < end ==> #[trigger] holds(s.ranges, p)) && ahead == (if (
            s.len matches Some(l) && end >= l) {
                u64::MAX
            } else {
                (end - s.play_pos) as u64
            })
    }
}

/// The share on disk in percent, at most 100.
pub open spec fn percent_of(s: StateView) -> Option<u8> {
    match s.len {
        Some(l) => if l == 0 {
            None
        } else {
            let p = total(s.ranges) * 100 / (l as nat);
            Some(if p < 100 {
                p as u8
            } else {
                100
            })
        },
        None => match s.progress {
            Some(p) => Some(if p < 100 {
                p
            } else {
                100
            }),
            None => None,
        },
    }
}

impl State {
    pub open spec fn wf(self) -> bool {
        canonical(self.ranges@)
    }

    /// A new stream with nothing on disk.
    pub fn new(phase: StreamState) -> (r: State)
        ensures
            r.wf(),
            r@ == (StateView {
                ranges: seq![],
                len: None,
                jumpable: false,
                phase: phase@,
                want: None,
                claims: 0,
                released: None,
                progress: None,
                play_pos: 0,
                failure: None,
                checkpoint: 0,
            }),
    {
        State {
            ranges: Vec::new(),
            len: None,
            jumpable: false,
            phase,
            want: None,
            claims: 0,
            released: None,
            progress: None,
            play_pos: 0,
            failure: None,
            checkpoint: 0,
        }
    }

    /// A complete stream over a file of `len` bytes.
    pub fn complete(len: u64) -> (r: State)
        ensures
            r.wf(),
            r@.phase is Done,
            r@.len == Some(len),
            r@.jumpable,
            forall|p: int| holds(r@.ranges, p) <==> 0 <= p < len,
            r@.claims == 0,
            r@.released is None,
            r@.want is None,
            r@.failure is None,
            r@.play_pos == 0,
            r@.checkpoint == 0,
            r@.progress is None,
    {
        let mut r = State::new(StreamState::Done);
        r.ranges = whole(len);
        r.len = Some(len);
        r.jumpable = true;
        r
    }

    /// Moves to a phase unless a terminal one was reached. Tells whether the state changed; the
    /// change is announced unless the new phase is `Committing`.
    pub fn set_phase(&mut self, new: StreamState) -> (moved: bool)
        ensures
            moved == moves(old(self)@, new@),
            final(self)@ == with_phase(old(self)@, new@),
    {
        if self.phase.same(&new) || self.phase.is_terminal() {
            return false;
        }
        self.phase = new;
        true
    }

    /// Cancels an active stream whose last claim was dropped too long ago, and tells whether the
    /// stream is still wanted.
    pub fn check(&mut self, now: u64) -> (r: Result<(), Stopped>)
        ensures
            final(self)@ == checked(old(self)@, now),
            r is Err <==> terminal(final(self)@.phase),
    {
        if self.phase.is_active() && self.claims == 0 {
            if let Some(t) = self.released {
                if now >= t && now - t >= GRACE_MS {
                    self.set_phase(StreamState::Cancelled);
                }
            }
        }
        if self.phase.is_terminal() {
            Err(Stopped)
        } else {
            Ok(())
        }
    }

    /// Whether the stream is still wanted; one whose last claim was dropped too long ago is
    /// cancelled on the way.
    pub fn alive(&mut self, now: u64) -> (r: bool)
        ensures
            final(self)@ == checked(old(self)@, now),
            r == !terminal(final(self)@.phase),
    {
        self.check(now).is_ok()
    }

    /// Whether the stream failed or was cancelled.
    pub fn stopped(&self) -> (r: bool)
        ensures
            r == (self@.phase is Failed || self@.phase is Cancelled),
    {
        match self.phase {
            StreamState::Failed(_) | StreamState::Cancelled => true,
            _ => false,
        }
    }

    /// Whether the producer can go on at any place.
    pub fn set_jumpable(&mut self, yes: bool)
        ensures
            final(self)@ == (StateView { jumpable: yes, ..old(self)@ }),
    {
        self.jumpable = yes;
    }

    /// Saves the unit that a producer has come to.
    pub fn set_checkpoint(&mut self, index: u64)
        ensures
            final(self)@ == (StateView { checkpoint: index, ..old(self)@ }),
    {
        self.checkpoint = index;
    }

    pub fn info(&self) -> (r: StreamInfo)
        requires
            self.wf(),
        ensures
            r.ranges@ == self@.ranges,
            r.prefix == prefix_of(self@.ranges),
            r.len == self@.len,
            r.jumpable == self@.jumpable,
            r.state@ == self@.phase,
            ahead_ok(self@, r.ahead),
            r.percent == percent_of(self@),
    {
        let have: u64 = downloaded(&self.ranges);
        let percent: Option<u8> = match self.len {
            Some(l) => if l == 0 {
                None
            } else {
                let p: u128 = (have as u128) * 100 / (l as u128);
                Some(
                    if p < 100 {
                        p as u8
                    } else {
                        100
                    },
                )
            },
            None => match self.progress {
                Some(p) => Some(
                    if p < 100 {
                        p
                    } else {
                        100
                    },
                ),
                None => None,
            },
        };
        let ahead: u64 = match run_end(&self.ranges, self.play_pos) {
            Some(end) => {
                let at_end: bool = match self.len {
                    Some(l) => end >= l,
                    None => false,
                };
                if at_end {
                    u64::MAX
                } else {
                    end - self.play_pos
                }
            },
            None => 0,
        };
        let mut ranges: Vec<Span> = Vec::new();
        let mut i: usize = 0;
        while i < self.ranges.len()
            invariant
                i <= self.ranges@.len(),
                ranges@ == self.ranges@.take(i as int),
            decreases self.ranges@.len() - i,
        {
            ranges.push(self.ranges[i]);
            i = i + 1;
        }
        assert(ranges@ =~= self.ranges@);
        StreamInfo {
            prefix: prefix(&self.ranges),
            len: self.len,
            jumpable: self.jumpable,
            state: self.phase.clone(),
            ahead,
            percent,
            ranges,
        }
    }

    /// Takes in that `n` bytes at `offset` are on disk. Tells whether the stream moved from
    /// connecting to fetching.
    pub fn record_write(&mut self, offset: u64, n: u64) -> (moved: bool)
        requires
            old(self).wf(),
            offset + n <= u64::MAX,
        ensures
            final(self).wf(),
            forall|p: int|
                #[trigger] holds(final(self)@.ranges, p) <==> holds(old(self)@.ranges, p) || (offset
                    <= p < offset + n),
            moved == (old(self)@.phase is Connecting),
            final(self)@ == (StateView {
                ranges: final(self)@.ranges,
                ..if old(self)@.phase is Connecting {
                    with_phase(old(self)@, PhaseView::Fetching)
                } else {
                    old(self)@
                }
            }),
    {
        insert_range(&mut self.ranges, Span { start: offset, end: offset + n });
        if self.phase.same(&StreamState::Connecting) {
            self.set_phase(StreamState::Fetching)
        } else {
            false
        }
    }

    /// Takes in the length of the source; false when it disagrees with an earlier one.
    pub fn set_len(&mut self, n: u64) -> (ok: bool)
        ensures
            ok == !(old(self)@.len matches Some(l) && l != n),
            final(self)@ == (if ok {
                StateView { len: Some(n), ..old(self)@ }
            } else {
                old(self)@
            }),
    {
        if let Some(l) = self.len {
            if l != n {
                return false;
            }
        }
        self.len = Some(n);
        true
    }

    /// Where a playback reader waits, unless the byte has arrived meanwhile.
    pub fn next_want(&mut self) -> (r: Option<u64>)
        requires
            old(self).wf(),
        ensures
            final(self).wf(),
            final(self)@ == (StateView { want: None, ..old(self)@ }),
            r == (match old(self)@.want {
                Some(w) => if holds(old(self)@.ranges, w as int) {
                    None
                } else {
                    Some(w)
                },
                None => None,
            }),
    {
        match self.want {
            None => None,
            Some(w) => {
                self.want = None;
                match run_end(&self.ranges, w) {
                    Some(_) => None,
                    None => Some(w),
                }
            },
        }
    }

    /// Where a resumed producer goes on: the unit it saved and the offset after what is there.
    pub fn checkpoint(&self) -> (r: (u64, u64))
        requires
            self.wf(),
        ensures
            r == (self@.checkpoint, prefix_of(self@.ranges)),
    {
        (self.checkpoint, prefix(&self.ranges))
    }

    /// The first missing span at or after `from`, once the length is known.
    pub fn hole_from(&self, from: u64) -> (r: Option<Span>)
        requires
            self.wf(),
        ensures
            r == (match self@.len {
                Some(l) => hole_after(self@.ranges, l, from, 0, 0),
                None => None,
            }),
            self@.len matches Some(l) ==> within(self@.ranges, l) ==> crate::ranges::first_hole(
                self@.ranges,
                l,
                from,
                r,
            ),
    {
        match self.len {
            Some(l) => hole_from(&self.ranges, l, from),
            None => None,
        }
    }
}

/// What becomes of a stream whose producer says that it is done.
#[derive(Clone, Copy, PartialEq, Eq, Structural, Debug)]
pub enum FinishStep {
    /// The stream had ended already.
    Ended,
    /// Bytes are missing.
    Failed,
    /// The file goes into the cache.
    Commit,
}

/// The length that a finished stream must have.
pub open spec fn final_len(s: StateView) -> u64 {
    match s.len {
        Some(l) => l,
        None => if s.ranges.len() > 0 {
            s.ranges.last().end
        } else {
            0
        },
    }
}

/// Whether the file is there without a gap. An empty one is not.
pub open spec fn complete_file(s: StateView) -> bool {
    s.ranges == seq![Span { start: 0, end: final_len(s) }]
}

pub open spec fn missing_reason(s: StateView) -> Seq<char> {
    if final_len(s) == 0 {
        "empty"@
    } else {
        "incomplete: "@ + decimal(total(s.ranges)) + " of "@ + decimal(final_len(s) as nat)
            + " bytes"@
    }
}

/// The state after the producer said that it is done.
pub open spec fn finished(s: StateView) -> (StateView, FinishStep) {
    if terminal(s.phase) {
        (s, FinishStep::Ended)
    } else if !complete_file(s) {
        (with_phase(s, PhaseView::Failed(missing_reason(s))), FinishStep::Failed)
    } else {
        (
            with_phase(StateView { len: Some(final_len(s)), ..s }, PhaseView::Committing),
            FinishStep::Commit,
        )
    }
}

/// What follows a run of the producer.
#[derive(Clone, Copy, PartialEq, Eq, Structural, Debug)]
pub enum ProduceStep {
    /// The stream has ended.
    Stop,
    /// The stream failed for good.
    GiveUp,
    /// The producer runs again after the wait.
    Resume { wait_ms: u64 },
}

/// How far a producer has come: the bytes at its last progress, and the failed runs since.
#[derive(Clone, Copy, PartialEq, Eq, Structural, Debug)]
pub struct Attempts {
    pub have: u64,
    pub failures: u32,
}

/// The wait before the restart after `failures` failed runs in a row.
pub open spec fn resume_wait(failures: u32) -> u64 {
    if failures <= 1 {
        2_000
    } else if failures == 2 {
        4_000
    } else if failures == 3 {
        8_000
    } else {
        16_000
    }
}

/// The attempts counted after a run that left `got` bytes on disk.
pub open spec fn counted(a: Attempts, got: nat) -> Attempts {
    if got > a.have {
        Attempts { have: got as u64, failures: 1 }
    } else {
        Attempts { have: a.have, failures: (a.failures + 1) as u32 }
    }
}

/// The state, the attempts and the step after a run of the producer.
pub open spec fn after_run_of(s: StateView, a: Attempts) -> (StateView, Attempts, ProduceStep) {
    if terminal(s.phase) {
        (s, a, ProduceStep::Stop)
    } else {
        let why = match s.failure {
            Some(w) => w,
            None => seq![],
        };
        let t = StateView { failure: None, ..s };
        let b = counted(a, total(s.ranges));
        if b.have == 0 || b.failures > RESUMES {
            (with_phase(t, PhaseView::Failed(why)), b, ProduceStep::GiveUp)
        } else {
            (
                with_phase(t, PhaseView::Buffering),
                b,
                ProduceStep::Resume { wait_ms: resume_wait(b.failures) },
            )
        }
    }
}

/// What a read at a position does.
#[derive(PartialEq, Eq, Debug)]
pub enum ReadStep {
    /// The end of the stream.
    End,
    /// This many bytes are there.
    Take(u64),
    /// The stream ended without the bytes.
    Fail(String),
    /// The reader waits.
    Wait,
}

pub enum ReadView {
    End,
    Take(u64),
    Fail(Seq<char>),
    Wait,
}

impl View for ReadStep {
    type V = ReadView;

    open spec fn view(&self) -> ReadView {
        match *self {
            ReadStep::End => ReadView::End,
            ReadStep::Take(n) => ReadView::Take(n),
            ReadStep::Fail(why) => ReadView::Fail(why@),
            ReadStep::Wait => ReadView::Wait,
        }
    }
}

/// What a reader holds between two looks at the stream.
#[derive(Clone, Copy, PartialEq, Eq, Structural, Debug)]
pub struct Reader {
    pub pos: u64,
    /// A playback reader steers the producer.
    pub play: bool,
    /// The stream was marked as buffering for this read.
    pub marked: bool,
}

/// Whether a read may take `n` of the bytes that stand at the reader.
pub open spec fn take_ok(s: StateView, pos: u64, max: u64, n: u64) -> bool {
    0 < n <= max && (forall|p: int| pos <= p < pos + n ==> #[trigger] holds(s.ranges, p)) && (n == max
        || !holds(s.ranges, pos + n))
}

/// The state in which a reader waits: a playback reader tells where, and a long wait marks the
/// stream as buffering.
pub open spec fn waiting(s: StateView, r: Reader, stalled_ms: u64) -> StateView {
    let t = if r.play && s.jumpable {
        StateView { want: Some(r.pos), ..s }
    } else {
        s
    };
    if !r.marked && stalled_ms >= STALL_MS && s.phase is Fetching {
        with_phase(t, PhaseView::Buffering)
    } else {
        t
    }
}

/// Where a seek goes.
#[derive(Clone, Copy, PartialEq, Eq, Structural, Debug)]
pub enum SeekTo {
    Start(u64),
    Current(i64),
    End(i64),
}

/// Why a seek is refused.
#[derive(Clone, Copy, PartialEq, Eq, Structural, Debug)]
pub enum SeekError {
    /// The stream length is unknown.
    UnknownLength,
    /// The target is before the start, or too far.
    BeforeStart,
}

/// `a + d` when that is a 64-bit position.
pub open spec fn moved_by(a: u64, d: i64) -> Option<u64> {
    if 0 <= a + d <= u64::MAX {
        Some((a + d) as u64)
    } else {
        None
    }
}

pub open spec fn seek_target_of(pos: u64, len: Option<u64>, to: SeekTo) -> Result<u64, SeekError> {
    match to {
        SeekTo::Start(p) => Ok(p),
        SeekTo::Current(d) => match moved_by(pos, d) {
            Some(p) => Ok(p),
            None => Err(SeekError::BeforeStart),
        },
        SeekTo::End(d) => match len {
            None => Err(SeekError::UnknownLength),
            Some(l) => match moved_by(l, d) {
                Some(p) => Ok(p),
                None => Err(SeekError::BeforeStart),
            },
        },
    }
}

fn add_signed(a: u64, d: i64) -> (r: Option<u64>)
    ensures
        r == moved_by(a, d),
{
    let sum: i128 = a as i128 + d as i128;
    if 0 <= sum && sum <= u64::MAX as i128 {
        Some(sum as u64)
    } else {
        None
    }
}

/// Where a seek from `pos` ends up.
pub fn seek_target(pos: u64, len: Option<u64>, to: SeekTo) -> (r: Result<u64, SeekError>)
    ensures
        r == seek_target_of(pos, len, to),
{
    match to {
        SeekTo::Start(p) => Ok(p),
        SeekTo::Current(d) => match add_signed(pos, d) {
            Some(p) => Ok(p),
            None => Err(SeekError::BeforeStart),
        },
        SeekTo::End(d) => match len {
            None => Err(SeekError::UnknownLength),
            Some(l) => match add_signed(l, d) {
                Some(p) => Ok(p),
                None => Err(SeekError::BeforeStart),
            },
        },
    }
}

/// What a filler does next.
#[derive(Clone, Copy, PartialEq, Eq, Structural, Debug)]
pub enum FillStep {
    /// Every byte is there.
    Finish,
    /// Read up to `n` bytes at `at`.
    Read { at: u64, n: u64 },
}

/// Whether a wait for a span is over, and how.
#[derive(Clone, Copy, PartialEq, Eq, Structural, Debug)]
pub enum RangeWait {
    Ready,
    Stopped,
    Pending,
}

/// A span clipped to the length of the stream.
pub open spec fn clipped_end(s: StateView, end: u64) -> u64 {
    match s.len {
        Some(l) => if l < end {
            l
        } else {
            end
        },
        None => end,
    }
}

impl State {
    /// The producer says that it is done: a complete file is committed, any other fails.
    pub fn finish(&mut self) -> (step: FinishStep)
        requires
            old(self).wf(),
        ensures
            final(self).wf(),
            (final(self)@, step) == finished(old(self)@),
    {
        if self.phase.is_terminal() {
            return FinishStep::Ended;
        }
        let end: u64 = if self.ranges.len() > 0 {
            self.ranges[self.ranges.len() - 1].end
        } else {
            0
        };
        let len: u64 = match self.len {
            Some(l) => l,
            None => end,
        };
        if self.ranges.len() != 1 || self.ranges[0].start != 0 || self.ranges[0].end != len {
            let why: String = if len == 0 {
                "empty".to_owned()
            } else {
                let mut out = chars_of("incomplete: ");
                let have: u64 = downloaded(&self.ranges);
                append_decimal(&mut out, have);
                append_str(&mut out, " of ");
                append_decimal(&mut out, len);
                append_str(&mut out, " bytes");
                string_of(&out)
            };
            self.set_phase(StreamState::Failed(why));
            assert(!complete_file(old(self)@)) by {
                let one = seq![Span { start: 0, end: final_len(old(self)@) }];
                assert(one.len() == 1 && one[0].end == final_len(old(self)@));
            }
            return FinishStep::Failed;
        }
        assert(self@.ranges =~= seq![Span { start: 0, end: len }]);
        self.len = Some(len);
        self.set_phase(StreamState::Committing);
        FinishStep::Commit
    }

    /// The file is in the cache, or could not be put there; either way the stream is complete.
    pub fn committed(&mut self) -> (moved: bool)
        ensures
            moved == moves(old(self)@, PhaseView::Done),
            final(self)@ == with_phase(old(self)@, PhaseView::Done),
    {
        self.set_phase(StreamState::Done)
    }

    /// A finished local file of `len` bytes takes the place of the download.
    pub fn adopt(&mut self, len: u64) -> (adopted: bool)
        requires
            old(self).wf(),
        ensures
            final(self).wf(),
            adopted == !terminal(old(self)@.phase),
            !adopted ==> final(self)@ == old(self)@,
            adopted ==> (forall|p: int| holds(final(self)@.ranges, p) <==> 0 <= p < len)
                && final(self)@ == (StateView {
                ranges: final(self)@.ranges,
                len: Some(len),
                jumpable: true,
                phase: PhaseView::Done,
                ..old(self)@
            }),
    {
        if self.phase.is_terminal() {
            return false;
        }
        self.ranges = whole(len);
        self.len = Some(len);
        self.jumpable = true;
        self.set_phase(StreamState::Done);
        true
    }

    /// This run of the producer ended early.
    pub fn fail(&mut self, why: String)
        ensures
            final(self)@ == (StateView { failure: Some(why@), ..old(self)@ }),
    {
        self.failure = Some(why);
    }

    /// A producer went away without a word.
    pub fn writer_dropped(&mut self)
        ensures
            final(self)@ == (StateView {
                failure: Some(
                    match old(self)@.failure {
                        Some(w) => w,
                        None => "producer ended early"@,
                    },
                ),
                ..old(self)@
            }),
    {
        if self.failure.is_none() {
            self.failure = Some("producer ended early".to_owned());
        }
    }

    /// Joins a running stream; not one that failed or was cancelled. Tells whether a claim was
    /// taken.
    pub fn attach(&mut self, intent: Intent) -> (claimed: Option<bool>)
        requires
            old(self)@.claims < u64::MAX,
        ensures
            claimed == (if old(self)@.phase is Failed || old(self)@.phase is Cancelled {
                None
            } else {
                Some(intent != Intent::Peek)
            }),
            final(self)@ == (if claimed == Some(true) {
                StateView {
                    claims: (old(self)@.claims + 1) as u64,
                    released: None,
                    ..old(self)@
                }
            } else {
                old(self)@
            }),
    {
        match self.phase {
            StreamState::Failed(_) | StreamState::Cancelled => None,
            _ => if intent == Intent::Peek {
                Some(false)
            } else {
                self.claims = self.claims + 1;
                self.released = None;
                Some(true)
            },
        }
    }

    /// A claim is dropped at the time `now`.
    pub fn release(&mut self, now: u64)
        requires
            old(self)@.claims > 0,
        ensures
            final(self)@ == (StateView {
                claims: (old(self)@.claims - 1) as u64,
                released: if old(self)@.claims == 1 {
                    Some(now)
                } else {
                    old(self)@.released
                },
                ..old(self)@
            }),
    {
        self.claims = self.claims - 1;
        if self.claims == 0 {
            self.released = Some(now);
        }
    }

    /// Stops the download now.
    pub fn cancel(&mut self) -> (moved: bool)
        ensures
            moved == active(old(self)@.phase),
            final(self)@ == (if active(old(self)@.phase) {
                with_phase(old(self)@, PhaseView::Cancelled)
            } else {
                old(self)@
            }),
    {
        if self.phase.is_active() {
            self.set_phase(StreamState::Cancelled)
        } else {
            false
        }
    }

    /// Decides what follows a run of the producer that did not end the stream: a download that
    /// had started is resumed with growing waits, until too many runs in a row brought nothing.
    pub fn after_run(&mut self, attempts: Attempts) -> (r: (Attempts, ProduceStep))
        requires
            old(self).wf(),
            attempts.failures < u32::MAX,
        ensures
            final(self).wf(),
            (final(self)@, r.0, r.1) == after_run_of(old(self)@, attempts),
    {
        if self.phase.is_terminal() {
            return (attempts, ProduceStep::Stop);
        }
        let why: String = match self.failure.take() {
            Some(w) => w,
            None => String::new(),
        };
        let got: u64 = downloaded(&self.ranges);
        let next: Attempts = if got > attempts.have {
            Attempts { have: got, failures: 1 }
        } else {
            Attempts { have: attempts.have, failures: attempts.failures + 1 }
        };
        if next.have == 0 || next.failures > RESUMES {
            self.set_phase(StreamState::Failed(why));
            return (next, ProduceStep::GiveUp);
        }
        let wait_ms: u64 = if next.failures <= 1 {
            RESUME_BACKOFF_MS
        } else if next.failures == 2 {
            2 * RESUME_BACKOFF_MS
        } else if next.failures == 3 {
            4 * RESUME_BACKOFF_MS
        } else {
            RESUME_BACKOFF_MAX_MS
        };
        self.set_phase(StreamState::Buffering);
        (next, ProduceStep::Resume { wait_ms })
    }

    /// A playback reader tells where it reads.
    pub fn begin_read(&mut self, r: Reader)
        ensures
            final(self)@ == (if r.play {
                StateView { play_pos: r.pos, ..old(self)@ }
            } else {
                old(self)@
            }),
    {
        if r.play {
            self.play_pos = r.pos;
        }
    }

    /// One look of a reader at the stream, `stalled_ms` after it first found nothing: what is
    /// there is taken at once, and a read at a gap waits. Tells the step and whether the stream
    /// is now marked as buffering for this read.
    pub fn read_step(&mut self, r: Reader, max: u64, stalled_ms: u64) -> (out: (ReadStep, bool))
        requires
            old(self).wf(),
            max > 0,
        ensures
            final(self).wf(),
            ({
                let s = old(self)@;
                let t = final(self)@;
                if s.len matches Some(l) && r.pos >= l {
                    out.0@ == ReadView::End && t == s && out.1 == r.marked
                } else if holds(s.ranges, r.pos as int) {
                    &&& out.0@ matches ReadView::Take(n) && take_ok(s, r.pos, max, n)
                    &&& t == (if r.marked && s.phase is Buffering {
                        with_phase(s, PhaseView::Fetching)
                    } else {
                        s
                    })
                    &&& out.1 == r.marked
                } else if s.phase is Done {
                    out.0@ == ReadView::End && t == s && out.1 == r.marked
                } else if s.phase is Failed {
                    out.0@ == ReadView::Fail(s.phase->Failed_0) && t == s && out.1 == r.marked
                } else if s.phase is Cancelled {
                    out.0@ == ReadView::Fail("stream cancelled"@) && t == s && out.1 == r.marked
                } else {
                    &&& out.0@ == ReadView::Wait
                    &&& t == waiting(s, r, stalled_ms)
                    &&& out.1 == (r.marked || (stalled_ms >= STALL_MS && s.phase is Fetching))
                }
            }),
    {
        if let Some(l) = self.len {
            if r.pos >= l {
                return (ReadStep::End, r.marked);
            }
        }
        if let Some(end) = run_end(&self.ranges, r.pos) {
            if r.marked && self.phase.same(&StreamState::Buffering) {
                self.set_phase(StreamState::Fetching);
            }
            let n: u64 = if end - r.pos < max {
                end - r.pos
            } else {
                max
            };
            return (ReadStep::Take(n), r.marked);
        }
        match &self.phase {
            StreamState::Done => {
                return (ReadStep::End, r.marked);
            },
            StreamState::Failed(why) => {
                return (ReadStep::Fail(why.clone()), r.marked);
            },
            StreamState::Cancelled => {
                return (ReadStep::Fail("stream cancelled".to_owned()), r.marked);
            },
            _ => {},
        }
        if r.play && self.jumpable {
            self.want = Some(r.pos);
        }
        let mut marked: bool = r.marked;
        if !marked && stalled_ms >= STALL_MS && self.phase.same(&StreamState::Fetching) {
            marked = self.set_phase(StreamState::Buffering);
        }
        (ReadStep::Wait, marked)
    }

    /// Whether a span, clipped to the length, is on disk or the stream has ended.
    pub fn range_wait(&self, r: Span) -> (w: RangeWait)
        requires
            self.wf(),
        ensures
            w == (if self@.phase is Done || (forall|p: int|
                r.start <= p < clipped_end(self@, r.end) ==> #[trigger] holds(self@.ranges, p)) {
                RangeWait::Ready
            } else if self@.phase is Failed || self@.phase is Cancelled {
                RangeWait::Stopped
            } else {
                RangeWait::Pending
            }),
    {
        let end: u64 = match self.len {
            Some(l) => if l < r.end {
                l
            } else {
                r.end
            },
            None => r.end,
        };
        let clipped = Span { start: r.start, end };
        let there: bool = covers(&self.ranges, clipped);
        proof {
            assert(there <==> forall|p: int|
                r.start <= p < clipped_end(self@, r.end) ==> #[trigger] holds(self@.ranges, p)) by {
                if there {
                    assert forall|p: int| r.start <= p < end implies #[trigger] holds(
                        self@.ranges,
                        p,
                    ) by {
                        assert(clipped.has(p));
                    }
                } else {
                    let p = choose|p: int| clipped.has(p) && !#[trigger] holds(self@.ranges, p);
                    assert(r.start <= p < end && !holds(self@.ranges, p));
                }
            }
        }
        if self.phase.same(&StreamState::Done) || there {
            return RangeWait::Ready;
        }
        match self.phase {
            StreamState::Failed(_) | StreamState::Cancelled => RangeWait::Stopped,
            _ => RangeWait::Pending,
        }
    }

    /// What a filler that stands at `pos` reads next: first where a reader waits, then the first
    /// gap from there on, then the gaps before it. `None` while the length is unknown.
    pub fn fill_step(&mut self, pos: u64) -> (step: Option<FillStep>)
        requires
            old(self).wf(),
            old(self)@.len matches Some(l) ==> within(old(self)@.ranges, l),
        ensures
            final(self).wf(),
            final(self)@ == (StateView { want: None, ..old(self)@ }),
            step is None <==> old(self)@.len is None,
            step matches Some(FillStep::Finish) ==> forall|p: int|
                0 <= p < old(self)@.len->0 ==> #[trigger] holds(old(self)@.ranges, p),
            step matches Some(FillStep::Read { at, n }) ==> {
                let s = old(self)@;
                let from = match s.want {
                    Some(w) => if holds(s.ranges, w as int) {
                        pos
                    } else {
                        w
                    },
                    None => pos,
                };
                &&& 0 < n <= FILL_CHUNK
                &&& at + n <= s.len->0
                &&& n == FILL_CHUNK || at + n == s.len->0 || holds(s.ranges, at + n)
                &&& forall|p: int| at <= p < at + n ==> !#[trigger] holds(s.ranges, p)
                &&& at >= from ==> forall|p: int| from <= p < at ==> #[trigger] holds(s.ranges, p)
                &&& at < from ==> (forall|p: int| 0 <= p < at ==> #[trigger] holds(s.ranges, p))
                    && forall|p: int| from <= p < s.len->0 ==> #[trigger] holds(s.ranges, p)
            },
    {
        let from: u64 = match self.next_want() {
            Some(w) => w,
            None => pos,
        };
        match self.len {
            None => None,
            Some(_) => {
                let hole: Option<Span> = match self.hole_from(from) {
                    Some(h) => Some(h),
                    None => self.hole_from(0),
                };
                match hole {
                    None => Some(FillStep::Finish),
                    Some(h) => {
                        let left: u64 = h.end - h.start;
                        let n: u64 = if left < FILL_CHUNK {
                            left
                        } else {
                            FILL_CHUNK
                        };
                        proof {
                            assert forall|p: int| h.start <= p < h.start + n implies !#[trigger] holds(
                                old(self)@.ranges,
                                p,
                            ) by {
                                assert(h.has(p));
                            }
                        }
                        Some(FillStep::Read { at: h.start, n })
                    },
                }
            },
        }
    }
}

/// The wait before the next try of a request that failed `attempt` times, while any is left.
pub fn retry_wait_ms(attempt: u32) -> (r: Option<u64>)
    requires
        attempt >= 1,
    ensures
        r == (if attempt > RETRIES {
            None
        } else if attempt == 1 {
            Some(500u64)
        } else if attempt == 2 {
            Some(1_000u64)
        } else {
            Some(2_000u64)
        }),
{
    if attempt > RETRIES {
        None
    } else if attempt == 1 {
        Some(500)
    } else if attempt == 2 {
        Some(1_000)
    } else {
        Some(2_000)
    }
}

/// Whether a file of `bytes` bytes is too small for its length: a cut-off preview.
pub fn truncated(bytes: u64, duration_ms: u32) -> (r: bool)
    ensures
        r == (duration_ms > 35_000 && bytes < (duration_ms / 1000) * 4_000),
{
    duration_ms > 35_000 && bytes < (duration_ms as u64 / 1000) * 4_000
}

/// How a rendition is opened.
#[derive(Clone, Copy, PartialEq, Eq, Structural, Debug)]
pub enum OpenPlan {
    /// A running download of the same rendition is joined.
    Join,
    /// The cached copy is complete.
    Cached,
    /// The local file is complete.
    Local,
    /// Nothing to peek at.
    NotFound,
    /// No source can give it.
    NoSource,
    /// A new download starts.
    Start,
}

/// What is known of a rendition before it is opened.
#[derive(Clone, Copy, PartialEq, Eq, Structural, Debug)]
pub struct OpenFacts {
    /// A download of it runs and has neither failed nor been cancelled.
    pub running: bool,
    /// The size of the cached copy.
    pub cached_bytes: Option<u64>,
    pub duration_ms: u32,
    /// It is on the local source, and no provider serves that source.
    pub local: bool,
    /// A provider serves its source, or the HTTP source is there to stand in.
    pub provider: bool,
}

/// Decides how a rendition is opened: a running download is shared, a whole cached copy or a
/// local file is complete, and only then something is fetched.
pub fn plan_open(f: OpenFacts, intent: Intent) -> (r: OpenPlan)
    ensures
        r == (if f.running {
            OpenPlan::Join
        } else if f.cached_bytes matches Some(b) && !(f.duration_ms > 35_000 && b < (f.duration_ms
            / 1000) * 4_000) {
            OpenPlan::Cached
        } else if f.local {
            OpenPlan::Local
        } else if intent == Intent::Peek {
            OpenPlan::NotFound
        } else if !f.provider {
            OpenPlan::NoSource
        } else {
            OpenPlan::Start
        }),
{
    if f.running {
        return OpenPlan::Join;
    }
    if let Some(b) = f.cached_bytes {
        if !truncated(b, f.duration_ms) {
            return OpenPlan::Cached;
        }
    }
    if f.local {
        OpenPlan::Local
    } else if intent == Intent::Peek {
        OpenPlan::NotFound
    } else if !f.provider {
        OpenPlan::NoSource
    } else {
        OpenPlan::Start
    }
}

/// A download with bytes on disk is given up only after too many runs in a row that brought
/// nothing new, and one without any at its first failure.
pub proof fn giving_up(s: StateView, a: Attempts)
    requires
        !terminal(s.phase),
        canonical(s.ranges),
    ensures
        total(s.ranges) > a.have ==> after_run_of(s, a).2 == (ProduceStep::Resume {
            wait_ms: 2_000,
        }),
        total(s.ranges) == 0 && a.have == 0 ==> after_run_of(s, a).2 == ProduceStep::GiveUp,
        0 < total(s.ranges) <= a.have && a.failures < RESUMES ==> after_run_of(s, a).2 is Resume,
        after_run_of(s, a).2 matches ProduceStep::Resume { wait_ms } ==> 2_000 <= wait_ms <= 16_000,
{
    crate::ranges::lemma_total_bound(s.ranges);
}

/// A phase that is terminal is never left.
pub proof fn terminal_phase_stays(s: StateView, new: PhaseView, now: u64)
    requires
        terminal(s.phase),
    ensures
        with_phase(s, new) == s,
        checked(s, now) == s,
{
}

/// While a claim is held the stream is not cancelled for want of one.
pub proof fn claimed_stream_survives(s: StateView, now: u64)
    requires
        s.claims > 0,
    ensures
        checked(s, now) == s,
{
}

} // verus!
