//! What a file name says of the audio in it.

use vstd::prelude::*;
use crate::text::{
    ascii_lower_of, chars_of, last_char, part, rfind_char, string_of, same_text, to_ascii_lower,
};
use crate::types::Quality;

verus! {

pub open spec fn is_slash(c: char) -> bool {
    c == '/' || c == '\\'
}

/// Where the last segment of the first `n` characters of a path starts.
pub open spec fn segment_start(s: Seq<char>, n: int) -> int
    decreases n,
{
    if n <= 0 || n > s.len() {
        0
    } else if is_slash(s[n - 1]) {
        n
    } else {
        segment_start(s, n - 1)
    }
}

/// The last segment of a path.
pub open spec fn last_segment(s: Seq<char>) -> Seq<char> {
    s.skip(segment_start(s, s.len() as int))
}

/// The extension of the last segment of a path, in lower case.
pub open spec fn extension(s: Seq<char>) -> Option<Seq<char>> {
    let seg = last_segment(s);
    match last_char(seg, '.') {
        Some(i) => if i + 1 < seg.len() {
            Some(ascii_lower_of(seg.skip(i + 1)))
        } else {
            None
        },
        None => None,
    }
}

/// The extensions of audio files.
pub open spec fn audio_extension(e: Seq<char>) -> bool {
    e == "mp3"@ || e == "flac"@ || e == "ogg"@ || e == "opus"@ || e == "m4a"@ || e == "aac"@ || e
        == "wav"@ || e == "webm"@ || e == "aiff"@ || e == "wv"@
}

/// The extensions of audio files that lose nothing.
pub open spec fn lossless_extension(e: Seq<char>) -> bool {
    e == "flac"@ || e == "wav"@ || e == "aiff"@ || e == "wv"@
}

fn ext_of(name: &str) -> (r: Option<String>)
    ensures
        match r {
            Some(e) => extension(name@) == Some(e@),
            None => extension(name@) is None,
        },
{
    let v = chars_of(name);
    let n: usize = v.len();
    let mut k: usize = n;
    while k > 0 && v[k - 1] != '/' && v[k - 1] != '\\'
        invariant
            k <= v@.len() == n,
            segment_start(v@, k as int) == segment_start(v@, n as int),
        decreases k,
    {
        k = k - 1;
    }
    assert(segment_start(v@, k as int) == k);
    let seg = part(&v, k, n);
    assert(seg@ =~= last_segment(v@));
    match rfind_char(&seg, '.') {
        None => None,
        Some(i) => {
            let m: usize = seg.len();
            if i + 1 < m {
                let e = part(&seg, i + 1, m);
                assert(e@ =~= seg@.skip(i + 1));
                Some(string_of(&to_ascii_lower(&e)))
            } else {
                None
            }
        },
    }
}

/// Whether a name has an extension of an audio file.
pub fn audio_ext(name: &str) -> (r: bool)
    ensures
        r == (extension(name@) matches Some(e) && audio_extension(e)),
{
    match ext_of(name) {
        None => false,
        Some(e) => same_text(&e, "mp3") || same_text(&e, "flac") || same_text(&e, "ogg") || same_text(
            &e,
            "opus",
        ) || same_text(&e, "m4a") || same_text(&e, "aac") || same_text(&e, "wav") || same_text(&e, "webm")
            || same_text(&e, "aiff") || same_text(&e, "wv"),
    }
}

/// The quality that a name promises; what is not known to lose nothing counts as lossy.
pub open spec fn quality_of_name(s: Seq<char>) -> Quality {
    match extension(s) {
        Some(e) => if lossless_extension(e) {
            Quality::Lossless { bits: None, hz: None }
        } else {
            Quality::Lossy { kbps: None }
        },
        None => Quality::Lossy { kbps: None },
    }
}

pub fn audio_quality(name: &str) -> (r: Quality)
    ensures
        r == quality_of_name(name@),
{
    match ext_of(name) {
        None => Quality::Lossy { kbps: None },
        Some(e) => if same_text(&e, "flac") || same_text(&e, "wav") || same_text(&e, "aiff") || same_text(
            &e,
            "wv",
        ) {
            Quality::Lossless { bits: None, hz: None }
        } else {
            Quality::Lossy { kbps: None }
        },
    }
}

/// What is lossless is an audio file.
pub proof fn lossless_is_audio(s: Seq<char>)
    ensures
        quality_of_name(s) is Lossless ==> (extension(s) matches Some(e) && audio_extension(e)),
{
}

} // verus!
