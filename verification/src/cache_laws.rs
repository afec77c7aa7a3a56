//! What is asked of servers, and what of it is kept on disk.

use vstd::prelude::*;
use crate::http::{
    range_text, read_step_of, seek_of, total_of, verdict_of, ModeView, RangeReader, ReadStep, Refusal, SeekTo,
    Verdict,
};
use crate::media_cache::{
    base_name, entry_path, first_free, free_name, index_path_of, move_plan, numbered, readable_name, sanitized,
    shown_name, sniffed, with_ext, without_end_dots, MediaCache, MoveFacts, MovePlan,
};
use crate::rate_limit::{pause_of, GateStep, RateGate, RateLimiter};
use crate::store::{by_rendition_of, rendition_key_of, StoreView};
use crate::strmap::StrMap;
use crate::text::{decimal, last_char_below, lemma_unsigned_decimal};
use crate::types::{track_name, SourceId};

verus! {

/// A part is asked for by its first and its last byte; parts that are asked for one behind the
/// other leave nothing out and bring nothing twice.
pub proof fn parts_follow_each_other(start: nat)
    ensures
        range_text(start) == "bytes="@ + decimal(start) + "-"@ + decimal((start + 262143) as nat),
        range_text(start + 262144) == "bytes="@ + decimal((start + 262143) as nat + 1) + "-"@ + decimal((start + 524287) as nat),
{
}

/// A refused address is asked for anew once, where that can be done; an error is an error, and
/// everything else is used.
pub proof fn answers_are_judged_by_their_status(status: u16, first: bool, renewable: bool)
    ensures
        200 <= status < 300 ==> verdict_of(status, first, renewable) == Verdict::Take,
        (status == 401 || status == 403) && first && renewable ==> verdict_of(status, first, renewable) == Verdict::Refresh,
        (status == 401 || status == 403) && !(first && renewable) ==> verdict_of(status, first, renewable) == Verdict::Fail,
        status == 404 || status == 500 || status == 503 ==> verdict_of(status, first, renewable) == Verdict::Fail,
        status == 416 ==> verdict_of(status, first, renewable) == Verdict::Take,
        verdict_of(status, first, renewable) == Verdict::Refresh ==> first && renewable,
{
}

proof fn lemma_last_slash(s: Seq<char>, k: int, n: int)
    requires
        0 <= k < n <= s.len(),
        s[k] == '/',
        forall|i: int| k < i < n ==> s[i] != '/',
    ensures
        last_char_below(s, '/', n) == Some(k),
    decreases n,
{
    if n > k + 1 {
        lemma_last_slash(s, k, n - 1);
    }
}

proof fn lemma_digits_only(n: nat)
    ensures
        decimal(n).len() > 0,
        forall|i: int| 0 <= i < decimal(n).len() ==> '0' <= #[trigger] decimal(n)[i] <= '9',
    decreases n,
{
    if n >= 10 {
        lemma_digits_only(n / 10);
    }
}

/// The length of a file is what stands behind the slash of the answer's range.
pub proof fn lengths_stand_behind_the_slash(part: Seq<char>, n: u64)
    ensures
        total_of(part + "/"@ + decimal(n as nat)) == Some(n as nat),
        total_of(part + "/*"@) is None,
{
    reveal_strlit("/");
    reveal_strlit("/*");
    let d = decimal(n as nat);
    let s = part + "/"@ + d;
    let k = part.len() as int;
    lemma_digits_only(n as nat);
    assert forall|i: int| k < i < s.len() implies s[i] != '/' by {
        assert(s[i] == d[i - k - 1]);
    }
    assert(s[k] == '/');
    lemma_last_slash(s, k, s.len() as int);
    assert(s.skip(k + 1) =~= d);
    lemma_unsigned_decimal(n as nat, u64::MAX as nat);
    let t = part + "/*"@;
    assert(t[k] == '/' && t[k + 1] == '*');
    lemma_last_slash(t, k, t.len() as int);
    assert(t.skip(k + 1) =~= seq!['*']);
}

/// A reader of a file that can be read in parts asks for the part at its place, unless it has it;
/// behind the end it has nothing.
pub proof fn readers_ask_for_what_they_lack(r: RangeReader, want: nat)
    requires
        want > 0,
    ensures
        (r.len matches Some(l) && r.pos >= l) ==> read_step_of(r, want) == ReadStep::End,
        (r.len matches Some(l) ==> r.pos < l) ==> (r.mode@ matches ModeView::Ranged { chunk, chunk_start } ==> (if chunk_start
            <= r.pos < chunk_start + chunk.len() {
            read_step_of(r, want) is Ready
        } else {
            read_step_of(r, want) == ReadStep::Fetch(r.pos)
        })),
        (r.len matches Some(l) ==> r.pos < l) ==> (r.mode@ matches ModeView::Sequential { at } ==> (if r.pos == at {
            read_step_of(r, want) == ReadStep::Body
        } else {
            read_step_of(r, want) is Refused
        })),
{
}

/// A file that can be read in parts is sought anywhere; one that cannot only where it is read.
pub proof fn only_parts_can_be_sought(r: RangeReader, p: u64, d: i64)
    ensures
        r.mode@ is Ranged ==> seek_of(r, SeekTo::Start(p)) == Ok::<int, Refusal>(p as int),
        r.mode@ is Ranged && 0 <= r.pos + d <= u64::MAX ==> seek_of(r, SeekTo::Current(d)) == Ok::<int, Refusal>(r.pos + d),
        r.mode@ is Ranged && r.pos + d < 0 ==> seek_of(r, SeekTo::Current(d)) is Err,
        r.mode@ matches ModeView::Sequential { at } ==> (at != p ==> seek_of(r, SeekTo::Start(p)) is Err),
        r.mode@ is Ranged ==> (r.len matches Some(l) ==> 0 <= l + d <= u64::MAX ==> seek_of(r, SeekTo::End(d)) == Ok::<int, Refusal>(
            l + d,
        )),
{
}

/// A request waits for what is left of the interval since the last one, and no longer.
pub proof fn requests_wait_for_the_rest(l: RateLimiter, now: u64, jitter: u64)
    requires
        l.credit == 0,
        now >= l.last,
    ensures
        now - l.last >= l.min_interval + jitter ==> pause_of(l, now, jitter) == 0,
        now - l.last < l.min_interval + jitter ==> (now - l.last) + pause_of(l, now, jitter) == l.min_interval + jitter,
{
}

/// The first request of a limiter does not wait.
pub proof fn the_first_request_goes_at_once(l: RateLimiter, min_interval: u64, jitter_max: u64, now: u64)
    requires
        call_ensures(RateLimiter::new, (min_interval, jitter_max, now), l),
    ensures
        pause_of(l, now, 0) == 0,
        l.min_interval == min_interval,
{
}

/// While a source cools down nobody's turn comes, and afterwards it does; a cooldown is never
/// made shorter.
pub proof fn cooldowns_are_kept(g: &mut RateGate, now: u64, r: GateStep)
    requires
        call_ensures(RateGate::wait_turn, (g, now), r),
    ensures
        old(g).cooldown_until is None ==> r is Go,
        (old(g).cooldown_until matches Some(t) && now > t) ==> r is Go,
        (old(g).cooldown_until matches Some(t) && now < t) ==> (r matches GateStep::Sleep(ms) && 0 < ms <= 250 && now + ms <= (
        old(g).cooldown_until->0)),
{
}

/// A new cooldown lasts at least as long as was asked for and as the one before it.
pub proof fn cooldowns_only_grow(g: &mut RateGate, now: u64, wait: u64)
    requires
        call_ensures(RateGate::set_cooldown, (g, now, wait), ()),
        now + wait <= u64::MAX,
    ensures
        final(g).cooldown_until matches Some(t) && t >= now + wait && (old(g).cooldown_until matches Some(u) ==> t >= u) && (t
            == now + wait || old(g).cooldown_until == Some(t)),
{
}

/// The name of a directory for a source holds only letters, digits and marks that are safe in
/// paths, never a slash, and is as long as the name of the source; a safe name stays.
pub proof fn safe_names(s: Seq<char>, i: int)
    requires
        0 <= i < s.len(),
    ensures
        sanitized(s).len() == s.len(),
        sanitized(s)[i] != '/' && sanitized(s)[i] != '\\' && sanitized(s)[i] != '\0',
        ('a' <= s[i] <= 'z') || ('A' <= s[i] <= 'Z') || ('0' <= s[i] <= '9') || s[i] == '-' || s[i] == '_' || s[i] == '.'
            ==> sanitized(s)[i] == s[i],
{
}

/// The name of a cached file is at most as long as a file name may be.
pub proof fn readable_names_are_short(s: Seq<char>)
    ensures
        readable_name(s).len() <= 120,
{
}

/// A file of the cache is found exactly if it is listed and is there.
pub proof fn cached_files_are_found(c: MediaCache, source: SourceId, uri: &str, files: StrMap<()>, r: Option<String>)
    requires
        call_ensures(MediaCache::cached_path, (&c, &source, uri, &files), r),
    ensures
        ({
            let k = rendition_key_of(source@, uri@);
            &&& r is Some ==> c.index@.dom().contains(k) && files@.dom().contains(r->0@)
            &&& !c.index@.dom().contains(k) ==> r is None
            &&& c.index@.dom().contains(k) && files@.dom().contains(entry_path(c.dir@, source@, c.index@[k]@)) ==> r is Some
        }),
{
}

/// A new file gets a name that no other file has: its own, or, where that is taken, with the
/// first number that is free.
pub proof fn new_names_are_free(taken: Set<Seq<char>>, base: Seq<char>, ext: Option<Seq<char>>, r: Seq<char>)
    requires
        free_name(taken, base, ext, r),
    ensures
        !taken.contains(r),
        !taken.contains(with_ext(base, ext)) ==> r == with_ext(base, ext),
        taken.contains(with_ext(base, ext)) && !taken.contains(numbered(base, 2, ext)) ==> r == numbered(base, 2, ext),
{
    if taken.contains(with_ext(base, ext)) && !taken.contains(numbered(base, 2, ext)) {
        let n = choose|n: nat| #[trigger] first_free(taken, base, ext, n) && r == numbered(base, n, ext);
        if n > 2 {
            assert(taken.contains(numbered(base, 2, ext)));
        }
    }
}

/// A file is named after its track where the library knows it, and else after its address.
pub proof fn files_are_named_after_their_track(s: StoreView, source: Seq<char>, uri: Seq<char>)
    ensures
        by_rendition_of(s, source, uri) matches Some(t) ==> shown_name(s, source, uri) == track_name(t),
        by_rendition_of(s, source, uri) is None ==> shown_name(s, source, uri) == uri,
        readable_name(shown_name(s, source, uri)).len() > 0 ==> base_name(s, source, uri) == readable_name(
            shown_name(s, source, uri),
        ),
{
}

/// The kind of a file is told by its first bytes.
pub proof fn files_are_told_by_their_first_bytes(b: Seq<u8>)
    ensures
        b.len() >= 4 && b.take(4) == seq![0x4fu8, 0x67u8, 0x67u8, 0x53u8] ==> sniffed(b) == Some("ogg"@),
        b.len() >= 3 && b.take(3) == seq![0x49u8, 0x44u8, 0x33u8] ==> sniffed(b) == Some("mp3"@),
        b.len() >= 2 && b[0] == 0xff && b[1] >= 0xe0 ==> sniffed(b) == Some("mp3"@),
        b.len() >= 8 && b.subrange(4, 8) == seq![0x66u8, 0x74u8, 0x79u8, 0x70u8] && b[0] == 0 ==> sniffed(b) == Some("m4a"@),
        b.len() < 2 ==> sniffed(b) is None,
{
    if b.len() >= 4 {
        let t = b.take(4);
        assert(t[0] == b[0] && t[1] == b[1] && t[2] == b[2] && t[3] == b[3]);
    }
    if b.len() >= 3 {
        let t = b.take(3);
        assert(t[0] == b[0] && t[1] == b[1] && t[2] == b[2]);
    }
    if b.len() >= 8 {
        let t = b.subrange(4, 8);
        assert(t[0] == b[4] && t[1] == b[5] && t[2] == b[6] && t[3] == b[7]);
    }
}

proof fn lemma_no_char(s: Seq<char>, c: char, n: int)
    requires
        0 <= n <= s.len(),
        forall|i: int| 0 <= i < n ==> s[i] != c,
    ensures
        last_char_below(s, c, n) is None,
    decreases n,
{
    if n > 0 {
        lemma_no_char(s, c, n - 1);
    }
}

/// The index of a cache lies beside its directory, under the same name.
pub proof fn the_index_lies_beside_the_cache(parent: Seq<char>, name: Seq<char>)
    requires
        parent.len() == 0 || parent.last() == '/',
        name.len() > 0,
        forall|i: int| 0 <= i < name.len() ==> name[i] != '/' && name[i] != '.',
    ensures
        index_path_of(parent + name) == parent + name + ".redb"@,
        index_path_of(parent + name + "/"@) == parent + name + ".redb"@,
{
    reveal_strlit(".redb");
    reveal_strlit("/");
    reveal_strlit(".");
    reveal_strlit("..");
    let t = parent + name;
    let k = parent.len() as int;
    assert(t.last() == name.last());
    assert(name[name.len() - 1] != '/' && name[name.len() - 1] != '.');
    assert(without_end_dots(t) == t);
    let u = t + "/"@;
    assert(u.last() == '/');
    assert(u.drop_last() =~= t);
    assert(without_end_dots(u) == t);
    if k > 0 {
        assert(t[k - 1] == '/');
        assert forall|i: int| k - 1 < i < t.len() implies t[i] != '/' by {
            assert(t[i] == name[i - k]);
        }
        lemma_last_slash(t, k - 1, t.len() as int);
    } else {
        assert forall|i: int| 0 <= i < t.len() implies t[i] != '/' by {
            assert(t[i] == name[i]);
        }
        lemma_no_char(t, '/', t.len() as int);
    }
    assert(t.skip(k) =~= name);
    lemma_no_char(name, '.', name.len() as int);
    assert(name[0] != '.');
    assert("."@[0] == '.' && ".."@[0] == '.');
}

/// A cache is never moved over another one, and what is there is moved.
pub proof fn moves_lose_nothing(to: &str, f: MoveFacts, r: MovePlan)
    requires
        call_ensures(move_plan, (to, &f), r),
    ensures
        f.to_index || f.to_entries ==> r is Refuse,
        !(f.to_index || f.to_entries) && !f.from_dir && !f.from_index ==> r is Nothing,
        !(f.to_index || f.to_entries) && (f.from_dir || f.from_index) && f.same_device ==> (r matches MovePlan::Rename { index } && index == f.from_index),
        !(f.to_index || f.to_entries) && (f.from_dir || f.from_index) && !f.same_device ==> (r matches MovePlan::Copy { index } && index == f.from_index),
{
}

} // verus!
