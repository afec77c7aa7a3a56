//! Playing a file that is still being downloaded: how far a reader may go, where its seeks
//! land, the bytes that are corrected on the way, and what is done with the finished file.

use vstd::prelude::*;
use crate::resolver::is_local_source;
use crate::stream::SeekTo;
use crate::text::{append_decimal, append_str, decimal, string_of};
use crate::types::SourceId;

verus! {

/// How far a download is.
#[derive(Debug)]
pub struct StreamProgress {
    pub written: u64,
    pub done: bool,
    /// Why it ended early.
    pub error: Option<String>,
}

impl StreamProgress {
    /// A download that has just begun.
    pub fn new() -> (r: StreamProgress)
        ensures
            r == (StreamProgress { written: 0, done: false, error: None }),
    {
        StreamProgress { written: 0, done: false, error: None }
    }

    /// A file that is complete.
    pub fn ready(total: u64) -> (r: StreamProgress)
        ensures
            r == (StreamProgress { written: total, done: true, error: None }),
    {
        StreamProgress { written: total, done: true, error: None }
    }

    /// Some more bytes are in the file.
    pub fn advance(&mut self, n: u64)
        requires
            old(self).written + n <= u64::MAX,
        ensures
            *final(self) == (StreamProgress { written: (old(self).written + n) as u64, ..*old(self) }),
    {
        self.written = self.written + n;
    }

    /// The download is over.
    pub fn finish(&mut self, error: Option<String>)
        ensures
            *final(self) == (StreamProgress { written: old(self).written, done: true, error }),
    {
        self.done = true;
        self.error = error;
    }
}

/// What a reader does next.
#[derive(Debug)]
pub enum ReadNext {
    /// Read this many bytes at the position.
    Take(usize),
    /// The file ends here.
    End,
    /// The download failed.
    Fail(String),
    /// More is on its way.
    Wait,
}

/// What a reader at `pos` with room for `room` bytes does next.
pub open spec fn read_next(pos: u64, room: usize, p: StreamProgress) -> ReadNext {
    if pos < p.written {
        ReadNext::Take(if p.written - pos < room {
            (p.written - pos) as usize
        } else {
            room
        })
    } else if p.done {
        match p.error {
            Some(e) => ReadNext::Fail(e),
            None => ReadNext::End,
        }
    } else {
        ReadNext::Wait
    }
}

/// Where a seek lands: never before the start, and a start beyond the signed range is the
/// start of the file.
pub open spec fn landing(pos: u64, total_len: u64, to: SeekTo) -> int {
    match to {
        SeekTo::Start(p) => if p <= i64::MAX {
            p as int
        } else {
            0
        },
        SeekTo::Current(d) => if pos + d < 0 {
            0
        } else {
            pos + d
        },
        SeekTo::End(d) => if total_len + d < 0 {
            0
        } else {
            total_len + d
        },
    }
}

/// The byte at a place of the file once it has been corrected.
pub open spec fn corrected(b: u8, at: int, patch: Option<(u64, [u8; 4])>) -> u8 {
    match patch {
        Some((off, bytes)) => if off <= at < off + 4 {
            bytes[at - off]
        } else {
            b
        },
        None => b,
    }
}

/// A reader of a file that a download may still be filling.
#[derive(Debug)]
pub struct StreamingReader {
    pub pos: u64,
    pub total_len: u64,
    /// Four bytes that stand in the file otherwise, and their place.
    pub patch: Option<(u64, [u8; 4])>,
}

impl StreamingReader {
    /// A reader at the start of a file.
    pub fn new(total_len: u64) -> (r: StreamingReader)
        ensures
            r == (StreamingReader { pos: 0, total_len, patch: None }),
    {
        StreamingReader { pos: 0, total_len, patch: None }
    }

    /// Corrects the bytes at a place from now on and goes back to the start.
    pub fn correct(&mut self, patch: Option<(u64, [u8; 4])>)
        ensures
            *final(self) == (StreamingReader { pos: 0, total_len: old(self).total_len, patch }),
    {
        self.pos = 0;
        self.patch = patch;
    }

    /// What a read does next.
    pub fn next(&self, room: usize, progress: &StreamProgress) -> (r: ReadNext)
        ensures
            r == read_next(self.pos, room, *progress),
    {
        if self.pos < progress.written {
            let left: u64 = progress.written - self.pos;
            if left < room as u64 {
                ReadNext::Take(left as usize)
            } else {
                ReadNext::Take(room)
            }
        } else if progress.done {
            match &progress.error {
                Some(e) => ReadNext::Fail(e.clone()),
                None => ReadNext::End,
            }
        } else {
            ReadNext::Wait
        }
    }

    /// Takes over the bytes that were read at the position: corrects them and moves on.
    pub fn took(&mut self, buf: &mut Vec<u8>)
        requires
            old(self).pos + old(buf)@.len() <= u64::MAX,
            old(self).patch matches Some((off, _)) ==> off + 4 <= u64::MAX,
        ensures
            final(buf)@.len() == old(buf)@.len(),
            forall|i: int|
                0 <= i < old(buf)@.len() ==> #[trigger] final(buf)@[i] == corrected(
                    old(buf)@[i],
                    old(self).pos + i,
                    old(self).patch,
                ),
            *final(self) == (StreamingReader { pos: (old(self).pos + old(buf)@.len()) as u64, ..*old(self) }),
    {
        let n: usize = buf.len();
        if let Some((off, bytes)) = self.patch {
            let mut i: usize = 0;
            while i < 4
                invariant
                    i <= 4,
                    n == buf@.len(),
                    n == old(buf)@.len(),
                    bytes@.len() == 4,
                    off + 4 <= u64::MAX,
                    *self == *old(self),
                    forall|k: int|
                        0 <= k < n ==> #[trigger] buf@[k] == (if off <= self.pos + k < off + i {
                            bytes@[self.pos + k - off]
                        } else {
                            old(buf)@[k]
                        }),
                decreases 4 - i,
            {
                let at: u64 = off + i as u64;
                if at >= self.pos && at - self.pos < n as u64 {
                    let k: usize = (at - self.pos) as usize;
                    buf.set(k, bytes[i]);
                }
                i = i + 1;
            }
        }
        self.pos = self.pos + n as u64;
    }

    /// Moves the position; gives the new one.
    pub fn seek(&mut self, to: SeekTo) -> (r: u64)
        requires
            old(self).pos <= i64::MAX,
            old(self).total_len <= i64::MAX,
            to matches SeekTo::Current(d) ==> old(self).pos + d <= i64::MAX,
            to matches SeekTo::End(d) ==> old(self).total_len + d <= i64::MAX,
        ensures
            r == landing(old(self).pos, old(self).total_len, to),
            *final(self) == (StreamingReader { pos: r, ..*old(self) }),
            r <= i64::MAX,
    {
        let target: i64 = match to {
            SeekTo::Start(p) => if p <= i64::MAX as u64 {
                p as i64
            } else {
                0
            },
            SeekTo::Current(d) => self.pos as i64 + d,
            SeekTo::End(d) => self.total_len as i64 + d,
        };
        let at: u64 = if target < 0 {
            0
        } else {
            target as u64
        };
        self.pos = at;
        at
    }
}

/// What a download does with a piece of the body.
#[derive(Debug)]
pub enum BodyStep {
    /// Write it.
    Write,
    Done,
    /// The body ended early: keep what was received and fail for this reason.
    Truncated(String),
}

pub open spec fn truncated_text(got: u64, expected: u64) -> Seq<char> {
    "truncated: got "@ + decimal(got as nat) + " of "@ + decimal(expected as nat) + " bytes"@
}

/// What a download does with a piece of `n` bytes after `got`: a body that ends before its
/// announced length is not a success.
pub fn body_step(got: u64, n: usize, expected: u64) -> (r: BodyStep)
    ensures
        n > 0 ==> r is Write,
        n == 0 && got >= expected ==> r is Done,
        n == 0 && got < expected ==> (r matches BodyStep::Truncated(why) && why@
            == truncated_text(got, expected)),
{
    if n > 0 {
        BodyStep::Write
    } else if got < expected {
        let mut v: Vec<char> = Vec::new();
        append_str(&mut v, "truncated: got ");
        append_decimal(&mut v, got);
        append_str(&mut v, " of ");
        append_decimal(&mut v, expected);
        append_str(&mut v, " bytes");
        assert(v@ =~= truncated_text(got, expected));
        BodyStep::Truncated(string_of(&v))
    } else {
        BodyStep::Done
    }
}

/// Where a rendition is opened.
#[derive(Clone, Copy, PartialEq, Eq, Structural, Debug)]
pub enum OpenFrom {
    /// Its address is a file.
    Disk,
    /// The cached copy.
    Cache,
    /// The provider of its source.
    Provider,
    /// The provider of the HTTP source stands in.
    HttpProvider,
    Nothing,
}

/// Where a rendition is opened: a local file that no provider serves comes off the disk, a
/// cached copy goes before any fetch, and the HTTP source stands in for an unknown one.
pub open spec fn open_from_of(source: Seq<char>, own: bool, cached: bool, http: bool) -> OpenFrom {
    if source == "local"@ && !own {
        OpenFrom::Disk
    } else if cached {
        OpenFrom::Cache
    } else if own {
        OpenFrom::Provider
    } else if http {
        OpenFrom::HttpProvider
    } else {
        OpenFrom::Nothing
    }
}

/// Where a rendition is opened. `own` tells of a provider of its source, `http` of one of the
/// HTTP source.
pub fn open_from(source: &SourceId, own: bool, cached: bool, http: bool) -> (r: OpenFrom)
    ensures
        r == open_from_of(source@, own, cached, http),
{
    if is_local_source(source) && !own {
        OpenFrom::Disk
    } else if cached {
        OpenFrom::Cache
    } else if own {
        OpenFrom::Provider
    } else if http {
        OpenFrom::HttpProvider
    } else {
        OpenFrom::Nothing
    }
}

/// What a provider hands out.
#[derive(Clone, Copy, PartialEq, Eq, Structural, Debug)]
pub enum MediaKind {
    /// A file on the disk.
    Path,
    /// An address to fetch, with the length that the server announced.
    Url(Option<u64>),
    /// Bytes to read to their end.
    Reader,
}

/// How a provider's media become a file to play.
#[derive(Clone, Copy, PartialEq, Eq, Structural, Debug)]
pub struct MediaPlan {
    /// Refer to the file from the cache.
    pub link: bool,
    /// Copy the bytes to a file before playback begins.
    pub copy: bool,
    /// Play while the bytes come in, up to this length.
    pub stream: Option<u64>,
    /// Put the finished file into the cache.
    pub store: bool,
    /// The file is whole when playback begins.
    pub whole: bool,
}

/// How a provider's media become a file: a file is only referred to, a body with a known
/// length is played while it comes in, and anything else is copied first.
pub open spec fn media_plan_of(kind: MediaKind, cache: bool) -> MediaPlan {
    match kind {
        MediaKind::Path => MediaPlan { link: cache, copy: false, stream: None, store: false, whole: true },
        MediaKind::Url(Some(len)) => MediaPlan {
            link: false,
            copy: false,
            stream: Some(len),
            store: cache,
            whole: false,
        },
        MediaKind::Url(None) | MediaKind::Reader => MediaPlan {
            link: false,
            copy: true,
            stream: None,
            store: cache,
            whole: true,
        },
    }
}

/// How a provider's media become a file to play.
pub fn media_plan(kind: MediaKind, cache: bool) -> (r: MediaPlan)
    ensures
        r == media_plan_of(kind, cache),
{
    match kind {
        MediaKind::Path => MediaPlan { link: cache, copy: false, stream: None, store: false, whole: true },
        MediaKind::Url(Some(len)) => MediaPlan {
            link: false,
            copy: false,
            stream: Some(len),
            store: cache,
            whole: false,
        },
        MediaKind::Url(None) | MediaKind::Reader => MediaPlan {
            link: false,
            copy: true,
            stream: None,
            store: cache,
            whole: true,
        },
    }
}

/// The message of a download that failed while its track played.
pub fn streaming_failure(url: &str, why: &str) -> (r: String)
    ensures
        r@ == "streaming download of "@ + url@ + " failed: "@ + why@,
{
    let mut v: Vec<char> = Vec::new();
    append_str(&mut v, "streaming download of ");
    append_str(&mut v, url);
    append_str(&mut v, " failed: ");
    append_str(&mut v, why);
    assert(v@ =~= "streaming download of "@ + url@ + " failed: "@ + why@);
    string_of(&v)
}

/// A reader never takes a byte that has not been written, and the end of the file is told only
/// of a download that is over.
pub proof fn reads_stay_within_what_is_written(pos: u64, room: usize, p: StreamProgress)
    ensures
        read_next(pos, room, p) matches ReadNext::Take(n) ==> pos + n <= p.written && n <= room,
        read_next(pos, room, p) is End ==> p.done && p.error is None && pos >= p.written,
        read_next(pos, room, p) is Wait ==> !p.done,
        room > 0 && pos < p.written ==> (read_next(pos, room, p) matches ReadNext::Take(n) && n > 0),
{
}

} // verus!
