//! Reading a remote file in parts: what to ask the server for, what its answers mean, and where
//! the reader stands.

use vstd::prelude::*;
use crate::text::{append_decimal, append_str, chars_of, decimal, last_char, parse_unsigned, part, rfind_char, string_of, unsigned_of};

verus! {

/// How much one request asks for.
pub const CHUNK: u64 = 262144;

/// The range that a request from `start` asks for.
pub open spec fn range_text(start: nat) -> Seq<char> {
    "bytes="@ + decimal(start) + "-"@ + decimal((start + CHUNK - 1) as nat)
}

/// The range that a request from `start` asks for.
pub fn range_header(start: u64) -> (r: String)
    requires
        start + CHUNK <= u64::MAX,
    ensures
        r@ == range_text(start as nat),
{
    let mut v: Vec<char> = Vec::new();
    append_str(&mut v, "bytes=");
    append_decimal(&mut v, start);
    append_str(&mut v, "-");
    append_decimal(&mut v, start + CHUNK - 1);
    assert(v@ =~= range_text(start as nat));
    string_of(&v)
}

/// What a status means.
#[derive(PartialEq, Eq, Structural, Clone, Copy, Debug)]
pub enum Verdict {
    /// Ask for a fresh address and try again.
    Refresh,
    /// Use the answer.
    Take,
    Fail,
}

/// What a status means: an address that has expired can be renewed once.
pub open spec fn verdict_of(status: u16, first: bool, renewable: bool) -> Verdict {
    if (status == 401 || status == 403) && first && renewable {
        Verdict::Refresh
    } else if status == 416 {
        Verdict::Take
    } else if 400 <= status < 600 {
        Verdict::Fail
    } else {
        Verdict::Take
    }
}

pub fn verdict(status: u16, first: bool, renewable: bool) -> (r: Verdict)
    ensures
        r == verdict_of(status, first, renewable),
{
    if (status == 401 || status == 403) && first && renewable {
        Verdict::Refresh
    } else if status == 416 {
        Verdict::Take
    } else if 400 <= status && status < 600 {
        Verdict::Fail
    } else {
        Verdict::Take
    }
}

/// The whole length that a `Content-Range` gives.
pub open spec fn total_of(header: Seq<char>) -> Option<nat> {
    match last_char(header, '/') {
        Some(i) => unsigned_of(header.skip(i + 1), u64::MAX as nat),
        None => unsigned_of(header, u64::MAX as nat),
    }
}

pub fn total_from_content_range(header: &str) -> (r: Option<u64>)
    ensures
        match r {
            Some(n) => total_of(header@) == Some(n as nat),
            None => total_of(header@) is None,
        },
{
    let v = chars_of(header);
    match rfind_char(&v, '/') {
        Some(i) => {
            let n: usize = v.len();
            let rest = part(&v, i + 1, n);
            assert(rest@ =~= v@.skip(i + 1));
            parse_unsigned(&rest, u64::MAX)
        },
        None => parse_unsigned(&v, u64::MAX),
    }
}

/// How the server is read.
pub enum Mode {
    /// In parts; the one that is here, and where it starts.
    Ranged { chunk: Vec<u8>, chunk_start: u64 },
    /// In one piece from start to end, read up to `at`.
    Sequential { at: u64 },
}

pub enum ModeView {
    Ranged { chunk: Seq<u8>, chunk_start: int },
    Sequential { at: int },
}

impl View for Mode {
    type V = ModeView;

    open spec fn view(&self) -> ModeView {
        match self {
            Mode::Ranged { chunk, chunk_start } => ModeView::Ranged {
                chunk: chunk@,
                chunk_start: *chunk_start as int,
            },
            Mode::Sequential { at } => ModeView::Sequential { at: *at as int },
        }
    }
}

/// A reader of a remote file: where it stands, how long the file is if that is known, and how
/// it is read.
pub struct RangeReader {
    pub pos: u64,
    pub len: Option<u64>,
    pub mode: Mode,
}

/// Why a reader refuses.
#[derive(PartialEq, Eq, Structural, Clone, Copy, Debug)]
pub enum Refusal {
    NoRanges,
    LengthUnknown,
    BeforeStart,
    /// The server answered a request for a part with this status.
    Status(u16),
}

/// What a read needs.
#[derive(PartialEq, Eq, Structural, Clone, Copy, Debug)]
pub enum ReadStep {
    /// There is nothing to read.
    End,
    /// This many bytes are at hand.
    Ready(usize),
    /// The part from here on is wanted.
    Fetch(u64),
    /// The next bytes come from the one body.
    Body,
    Refused(Refusal),
}

/// Whether a position is in the part that is here.
pub open spec fn in_chunk(m: ModeView, pos: int) -> bool {
    m matches ModeView::Ranged { chunk, chunk_start } && chunk_start <= pos < chunk_start + chunk.len()
}

/// What a read of up to `want` bytes needs.
pub open spec fn read_step_of(r: RangeReader, want: nat) -> ReadStep {
    if want == 0 || (r.len matches Some(l) && r.pos >= l) {
        ReadStep::End
    } else {
        match r.mode@ {
            ModeView::Sequential { at } => if r.pos != at {
                ReadStep::Refused(Refusal::NoRanges)
            } else {
                ReadStep::Body
            },
            ModeView::Ranged { chunk, chunk_start } => if in_chunk(r.mode@, r.pos as int) {
                let left = chunk_start + chunk.len() - r.pos;
                ReadStep::Ready(
                    (if want < left {
                        want as int
                    } else {
                        left
                    }) as usize,
                )
            } else {
                ReadStep::Fetch(r.pos)
            },
        }
    }
}

/// A place to seek to.
pub enum SeekTo {
    Start(u64),
    Current(i64),
    End(i64),
}

/// Where a seek leads, or why it is refused.
pub open spec fn seek_of(r: RangeReader, to: SeekTo) -> Result<int, Refusal> {
    let target = match to {
        SeekTo::Start(p) => Ok(p as int),
        SeekTo::Current(d) => Ok(r.pos + d),
        SeekTo::End(d) => match (r.mode@, r.len) {
            (ModeView::Ranged { .. }, Some(len)) => Ok(len + d),
            _ => Err(Refusal::LengthUnknown),
        },
    };
    match target {
        Err(e) => Err(e),
        Ok(t) => if t < 0 || t > u64::MAX {
            Err(Refusal::BeforeStart)
        } else {
            match r.mode@ {
                ModeView::Sequential { at } => if t != at {
                    Err(Refusal::NoRanges)
                } else {
                    Ok(t)
                },
                ModeView::Ranged { .. } => Ok(t),
            }
        },
    }
}

fn shifted(p: u64, d: i64) -> (r: Option<u64>)
    ensures
        match r {
            Some(v) => v == p + d,
            None => p + d < 0 || p + d > u64::MAX,
        },
{
    let t: i128 = p as i128 + d as i128;
    if t < 0 || t > u64::MAX as i128 {
        None
    } else {
        Some(t as u64)
    }
}

impl RangeReader {
    /// A reader after its first answer to a request for a part.
    pub fn ranged(content_range: Option<String>, body: Vec<u8>) -> (r: RangeReader)
        ensures
            r.pos == 0,
            r.mode@ == (ModeView::Ranged { chunk: body@, chunk_start: 0 }),
            match content_range {
                Some(h) => match r.len {
                    Some(n) => total_of(h@) == Some(n as nat),
                    None => total_of(h@) is None,
                },
                None => r.len is None,
            },
    {
        let len = match content_range {
            Some(h) => total_from_content_range(&h),
            None => None,
        };
        RangeReader { pos: 0, len, mode: Mode::Ranged { chunk: body, chunk_start: 0 } }
    }

    /// A reader of a server that gives the file in one piece only.
    pub fn sequential(len: Option<u64>) -> (r: RangeReader)
        ensures
            r.pos == 0,
            r.len == len,
            r.mode@ == (ModeView::Sequential { at: 0 }),
    {
        RangeReader { pos: 0, len, mode: Mode::Sequential { at: 0 } }
    }

    /// What a read of up to `want` bytes needs.
    pub fn read_step(&self, want: usize) -> (r: ReadStep)
        ensures
            r == read_step_of(*self, want as nat),
    {
        if want == 0 {
            return ReadStep::End;
        }
        if let Some(l) = self.len {
            if self.pos >= l {
                return ReadStep::End;
            }
        }
        match &self.mode {
            Mode::Sequential { at } => if self.pos != *at {
                ReadStep::Refused(Refusal::NoRanges)
            } else {
                ReadStep::Body
            },
            Mode::Ranged { chunk, chunk_start } => {
                if self.pos >= *chunk_start && ((self.pos - *chunk_start) as u128) < chunk.len() as u128 {
                    let from: usize = (self.pos - *chunk_start) as usize;
                    let left: usize = chunk.len() - from;
                    ReadStep::Ready(
                        if want < left {
                            want
                        } else {
                            left
                        },
                    )
                } else {
                    ReadStep::Fetch(self.pos)
                }
            },
        }
    }

    /// Takes the next `n` bytes of the part that is here.
    pub fn take_ready(&mut self, n: usize) -> (r: Vec<u8>)
        requires
            old(self).mode@ is Ranged,
            old(self).mode@->chunk_start <= old(self).pos,
            old(self).pos + n <= old(self).mode@->chunk_start + old(self).mode@->chunk.len(),
            old(self).pos + n <= u64::MAX,
        ensures
            r@ == old(self).mode@->chunk.subrange(
                old(self).pos - old(self).mode@->chunk_start,
                old(self).pos - old(self).mode@->chunk_start + n,
            ),
            final(self).pos == old(self).pos + n,
            final(self).mode == old(self).mode,
            final(self).len == old(self).len,
    {
        let mut out: Vec<u8> = Vec::new();
        if let Mode::Ranged { chunk, chunk_start } = &self.mode {
            let m: usize = chunk.len();
            assert(self.pos - *chunk_start <= m);
            let from: usize = (self.pos - *chunk_start) as usize;
            let mut i: usize = 0;
            assert(out@ =~= chunk@.subrange(from as int, from as int));
            while i < n
                invariant
                    i <= n,
                    m == chunk@.len(),
                    from + n <= m,
                    out@ == chunk@.subrange(from as int, from + i),
                decreases n - i,
            {
                out.push(chunk[from + i]);
                assert(chunk@.subrange(from as int, from + i + 1) =~= chunk@.subrange(
                    from as int,
                    from + i,
                ).push(chunk@[from + i]));
                i = i + 1;
            }
        }
        self.pos = self.pos + n as u64;
        out
    }

    /// Takes `n` bytes of the one body as read.
    pub fn took_from_body(&mut self, n: u64)
        requires
            old(self).pos + n <= u64::MAX,
            old(self).mode@ == (ModeView::Sequential { at: old(self).pos as int }),
        ensures
            final(self).pos == old(self).pos + n,
            final(self).mode@ == (ModeView::Sequential { at: old(self).pos + n }),
            final(self).len == old(self).len,
    {
        self.pos = self.pos + n;
        self.mode = Mode::Sequential { at: self.pos };
    }

    /// Takes the answer to a request for the part at the reader's place.
    pub fn fill_chunk(&mut self, status: u16, body: Vec<u8>) -> (r: Result<(), Refusal>)
        ensures
            final(self).pos == old(self).pos,
            if status == 206 {
                &&& r is Ok
                &&& final(self).len == old(self).len
                &&& final(self).mode@ == (ModeView::Ranged { chunk: body@, chunk_start: old(self).pos as int })
            } else if status == 416 {
                &&& r is Ok
                &&& final(self).len == Some(old(self).pos)
                &&& final(self).mode@ == (ModeView::Ranged {
                    chunk: seq![],
                    chunk_start: old(self).pos as int,
                })
            } else {
                &&& r == Err::<(), Refusal>(Refusal::Status(status))
                &&& *final(self) == *old(self)
            },
    {
        if status == 206 {
            self.mode = Mode::Ranged { chunk: body, chunk_start: self.pos };
            Ok(())
        } else if status == 416 {
            self.len = Some(self.pos);
            let empty: Vec<u8> = Vec::new();
            assert(empty@ =~= seq![]);
            self.mode = Mode::Ranged { chunk: empty, chunk_start: self.pos };
            Ok(())
        } else {
            Err(Refusal::Status(status))
        }
    }

    /// Moves the reader.
    pub fn seek(&mut self, to: SeekTo) -> (r: Result<u64, Refusal>)
        ensures
            final(self).mode == old(self).mode,
            final(self).len == old(self).len,
            match r {
                Ok(p) => seek_of(*old(self), to) == Ok::<int, Refusal>(p as int) && final(self).pos == p,
                Err(e) => seek_of(*old(self), to) == Err::<int, Refusal>(e) && final(self).pos == old(self).pos,
            },
    {
        let target = match to {
            SeekTo::Start(p) => Some(p),
            SeekTo::Current(d) => shifted(self.pos, d),
            SeekTo::End(d) => match (&self.mode, self.len) {
                (Mode::Ranged { .. }, Some(len)) => shifted(len, d),
                _ => {
                    return Err(Refusal::LengthUnknown);
                },
            },
        };
        match target {
            None => Err(Refusal::BeforeStart),
            Some(t) => {
                if let Mode::Sequential { at } = &self.mode {
                    if t != *at {
                        return Err(Refusal::NoRanges);
                    }
                }
                self.pos = t;
                Ok(t)
            },
        }
    }
}

/// Whether the part that is here is a part of a file.
pub open spec fn chunk_of_file(r: RangeReader, file: Seq<u8>) -> bool {
    r.mode@ matches ModeView::Ranged { chunk, chunk_start } ==> 0 <= chunk_start && chunk_start + chunk.len()
        <= file.len() && chunk == file.subrange(chunk_start, chunk_start + chunk.len())
}

/// A reader whose part is of a file reads that file's bytes at its place, and at least one
/// whenever it says that some are ready.
pub proof fn reads_give_the_file(r: RangeReader, file: Seq<u8>, want: nat, n: usize)
    requires
        chunk_of_file(r, file),
        want <= usize::MAX,
        read_step_of(r, want) == ReadStep::Ready(n),
    ensures
        0 < n <= want,
        r.pos + n <= file.len(),
        r.mode@->chunk.subrange(r.pos - r.mode@->chunk_start, r.pos - r.mode@->chunk_start + n)
            == file.subrange(r.pos as int, r.pos + n),
{
    let start = r.mode@->chunk_start;
    let chunk = r.mode@->chunk;
    let left = start + chunk.len() - r.pos;
    assert(0 < left);
    assert(chunk.subrange(r.pos - start, r.pos - start + n) =~= file.subrange(r.pos as int, r.pos + n));
}

/// A request that is answered in full brings the place that was asked for.
pub proof fn fetching_makes_progress(r: RangeReader, want: nat, body: Seq<u8>, after: RangeReader)
    requires
        read_step_of(r, want) == ReadStep::Fetch(r.pos),
        body.len() > 0,
        after.pos == r.pos,
        after.len == r.len,
        after.mode@ == (ModeView::Ranged { chunk: body, chunk_start: r.pos as int }),
    ensures
        read_step_of(after, want) is Ready,
{
}

} // verus!
