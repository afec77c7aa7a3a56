//! The producer of a stream: what one run of it does with what the provider hands over, and how
//! the stream is filled with what is read.

use vstd::prelude::*;
use crate::ranges::{hole_after, holds};
use crate::stream::{checked, terminal, with_phase, PhaseView, State, StateView, StreamState};
use crate::text::{append_decimal, append_str, decimal, string_of};

verus! {

/// What a provider hands over.
#[derive(Clone, Copy, PartialEq, Eq, Structural, Debug)]
pub enum MediaForm {
    /// A finished local file.
    Path,
    /// An address to fetch from.
    Url,
    /// A producer of its own.
    Stream,
}

/// What a run does.
#[derive(Clone, Copy, PartialEq, Eq, Structural, Debug)]
pub enum RunStep {
    /// The run has failed.
    End,
    /// The file takes the place of the download.
    Adopt,
    /// The address is opened from this byte on.
    Fetch { from: u64 },
    /// The producer that was handed over runs.
    Run,
}

pub open spec fn failing(s: StateView, why: Seq<char>) -> StateView {
    StateView { failure: Some(why), ..s }
}

/// The first byte that is missing; the start while the length is unknown or nothing is missing.
pub open spec fn first_gap(s: StateView) -> u64 {
    match s.len {
        Some(l) => match hole_after(s.ranges, l, 0, 0, 0) {
            Some(h) => h.start,
            None => 0,
        },
        None => 0,
    }
}

/// A stream after the provider was asked, the form that its runs must keep to, and what the run
/// does.
pub open spec fn run_of(s: StateView, first: Option<MediaForm>, got: Result<MediaForm, String>) -> (StateView, Option<MediaForm>, RunStep) {
    match got {
        Err(e) => (failing(s, "open: "@ + e@), first, RunStep::End),
        Ok(m) => {
            let kept = match first {
                Some(f) => f,
                None => m,
            };
            if kept != m {
                (failing(s, "the source changed media kind"@), Some(kept), RunStep::End)
            } else {
                match m {
                    MediaForm::Path => (s, Some(kept), RunStep::Adopt),
                    MediaForm::Url => (s, Some(kept), RunStep::Fetch { from: first_gap(s) }),
                    MediaForm::Stream => (with_phase(s, PhaseView::Fetching), Some(kept), RunStep::Run),
                }
            }
        },
    }
}

pub open spec fn open_failure(what: Seq<char>, why: Seq<char>) -> Seq<char> {
    "open "@ + what + ": "@ + why
}

pub open spec fn length_failure(len: u64) -> Seq<char> {
    "source length changed to "@ + decimal(len as nat)
}

pub open spec fn end_failure(at: u64, len: u64) -> Seq<char> {
    "source ended at "@ + decimal(at as nat) + " of "@ + decimal(len as nat) + " bytes"@
}

pub open spec fn read_failure(at: u64, why: Seq<char>) -> Seq<char> {
    "read at "@ + decimal(at as nat) + ": "@ + why
}

pub open spec fn write_failure(why: Seq<char>) -> Seq<char> {
    "write: "@ + why
}

/// What a read of the source gave.
#[derive(Debug)]
pub enum SourceRead {
    /// There is no more.
    End,
    Bytes(u64),
    Failed(String),
}

/// What follows a read of the source.
#[derive(Clone, Copy, PartialEq, Eq, Structural, Debug)]
pub enum FillNext {
    /// The run is over.
    Stop,
    /// Every byte was read.
    Finish,
    /// The bytes are written at their place.
    Write,
}

/// A stream after a read at `at`, and what follows. `len` is the length of a source that can be
/// read at any place.
pub open spec fn filled_of(s: StateView, at: u64, len: Option<u64>, read: SourceRead, now: u64) -> (StateView, FillNext) {
    match read {
        SourceRead::End => match len {
            Some(l) => (failing(s, end_failure(at, l)), FillNext::Stop),
            None => (s, FillNext::Finish),
        },
        SourceRead::Bytes(_) => if terminal(checked(s, now).phase) {
            (checked(s, now), FillNext::Stop)
        } else {
            (checked(s, now), FillNext::Write)
        },
        SourceRead::Failed(e) => (failing(s, read_failure(at, e@)), FillNext::Stop),
    }
}

impl State {
    /// Starts a run with what the provider gave. `first` is the form that the first run got: a
    /// later run must get the same.
    pub fn begin_run(&mut self, first: &mut Option<MediaForm>, got: Result<MediaForm, String>) -> (r: RunStep)
        requires
            old(self).wf(),
        ensures
            final(self).wf(),
            (final(self)@, *final(first), r) == run_of(old(self)@, *old(first), got),
    {
        let m: MediaForm = match got {
            Err(e) => {
                let mut why: Vec<char> = Vec::new();
                append_str(&mut why, "open: ");
                append_str(&mut why, &e);
                assert(why@ =~= "open: "@ + e@);
                self.fail(string_of(&why));
                return RunStep::End;
            },
            Ok(m) => m,
        };
        let kept: MediaForm = match *first {
            Some(f) => f,
            None => m,
        };
        *first = Some(kept);
        if kept != m {
            self.fail("the source changed media kind".to_owned());
            return RunStep::End;
        }
        match m {
            MediaForm::Path => RunStep::Adopt,
            MediaForm::Url => {
                let from: u64 = match self.hole_from(0) {
                    Some(h) => h.start,
                    None => 0,
                };
                RunStep::Fetch { from }
            },
            MediaForm::Stream => {
                self.set_phase(StreamState::Fetching);
                RunStep::Run
            },
        }
    }

    /// What a run was to read was opened, or could not be; says whether it goes on.
    pub fn source_opened(&mut self, what: &str, error: Option<String>) -> (goes_on: bool)
        requires
            old(self).wf(),
        ensures
            final(self).wf(),
            goes_on == (error is None),
            final(self)@ == (match error {
                Some(e) => failing(old(self)@, open_failure(what@, e@)),
                None => with_phase(old(self)@, PhaseView::Fetching),
            }),
    {
        match error {
            Some(e) => {
                let mut why: Vec<char> = Vec::new();
                append_str(&mut why, "open ");
                append_str(&mut why, what);
                append_str(&mut why, ": ");
                append_str(&mut why, &e);
                assert(why@ =~= open_failure(what@, e@));
                self.fail(string_of(&why));
                false
            },
            None => {
                self.set_phase(StreamState::Fetching);
                true
            },
        }
    }

    /// The source can be read at any place and has `len` bytes; says whether that agrees with what
    /// an earlier run was told.
    pub fn begin_fill(&mut self, len: u64) -> (agrees: bool)
        requires
            old(self).wf(),
        ensures
            final(self).wf(),
            agrees == !(old(self)@.len matches Some(l) && l != len),
            final(self)@ == (if agrees {
                StateView { len: Some(len), jumpable: true, ..old(self)@ }
            } else {
                failing(old(self)@, length_failure(len))
            }),
    {
        if self.set_len(len) {
            self.set_jumpable(true);
            true
        } else {
            let mut why: Vec<char> = Vec::new();
            append_str(&mut why, "source length changed to ");
            append_decimal(&mut why, len);
            assert(why@ =~= length_failure(len));
            self.fail(string_of(&why));
            false
        }
    }

    /// Takes what a read of the source at `at` gave.
    pub fn filled(&mut self, at: u64, len: Option<u64>, read: SourceRead, now: u64) -> (r: FillNext)
        requires
            old(self).wf(),
        ensures
            final(self).wf(),
            (final(self)@, r) == filled_of(old(self)@, at, len, read, now),
    {
        match read {
            SourceRead::End => match len {
                Some(l) => {
                    let mut why: Vec<char> = Vec::new();
                    append_str(&mut why, "source ended at ");
                    append_decimal(&mut why, at);
                    append_str(&mut why, " of ");
                    append_decimal(&mut why, l);
                    append_str(&mut why, " bytes");
                    assert(why@ =~= end_failure(at, l));
                    self.fail(string_of(&why));
                    FillNext::Stop
                },
                None => FillNext::Finish,
            },
            SourceRead::Bytes(_) => if self.alive(now) {
                FillNext::Write
            } else {
                FillNext::Stop
            },
            SourceRead::Failed(e) => {
                let mut why: Vec<char> = Vec::new();
                append_str(&mut why, "read at ");
                append_decimal(&mut why, at);
                append_str(&mut why, ": ");
                append_str(&mut why, &e);
                assert(why@ =~= read_failure(at, e@));
                self.fail(string_of(&why));
                FillNext::Stop
            },
        }
    }

    /// The bytes that were read were written at their place, or could not be, which ends the
    /// stream. Gives the place behind them.
    pub fn wrote(&mut self, at: u64, n: u64, error: Option<String>) -> (r: Option<u64>)
        requires
            old(self).wf(),
            at + n <= u64::MAX,
        ensures
            final(self).wf(),
            match error {
                Some(e) => r is None && final(self)@ == with_phase(old(self)@, PhaseView::Failed(write_failure(e@))),
                None => {
                    &&& r == Some((at + n) as u64)
                    &&& forall|p: int|
                        #[trigger] holds(final(self)@.ranges, p) <==> holds(old(self)@.ranges, p) || (at <= p < at + n)
                    &&& final(self)@ == (StateView {
                        ranges: final(self)@.ranges,
                        ..if old(self)@.phase is Connecting {
                            with_phase(old(self)@, PhaseView::Fetching)
                        } else {
                            old(self)@
                        }
                    })
                },
            },
    {
        match error {
            Some(e) => {
                let mut why: Vec<char> = Vec::new();
                append_str(&mut why, "write: ");
                append_str(&mut why, &e);
                assert(why@ =~= write_failure(e@));
                self.set_phase(StreamState::Failed(string_of(&why)));
                None
            },
            None => {
                self.record_write(at, n);
                Some(at + n)
            },
        }
    }
}

/// A run that failed, or whose provider hands over another form than before, leaves every byte
/// that is there, so that the next run fetches only what is missing.
pub proof fn runs_keep_what_is_there(s: StateView, first: Option<MediaForm>, got: Result<MediaForm, String>)
    ensures
        run_of(s, first, got).0.ranges == s.ranges,
        run_of(s, first, got).0.len == s.len,
        run_of(s, first, got).2 is End ==> run_of(s, first, got).0.phase == s.phase && run_of(s, first, got).0.failure is Some,
        run_of(s, first, got).2 matches RunStep::Fetch { from } ==> from == first_gap(s),
{
}

/// Whatever a read gives, no byte is lost, and only a source that is read in order ends the fill
/// by ending.
pub proof fn reads_keep_what_is_there(s: StateView, at: u64, len: Option<u64>, read: SourceRead, now: u64)
    ensures
        filled_of(s, at, len, read, now).0.ranges == s.ranges,
        filled_of(s, at, len, read, now).1 is Finish <==> read is End && len is None,
        filled_of(s, at, len, read, now).1 is Write ==> read is Bytes && !terminal(filled_of(s, at, len, read, now).0.phase),
{
}

} // verus!
