//! What is kept as bytes and text reads as what it is: levels of a waveform, attributes, names of
//! tracks, lengths of fragmented files, and entries of an index.

use vstd::prelude::*;
use crate::embedding::{le_bytes, word_bytes};
use crate::fmp4::{
    after_box, be32, finished, mdhd_at, mdhd_from, patch_of, tag_at, ticks_of, total_ticks, u32_at, walked, Found,
};
use crate::ids::{hex_digits, hex_lower, uuid_text, uuid_value};
use crate::index_ingest::{ingested, Incoming};
use crate::media_cache::{extra_index, merged_index};
use crate::ranges::{canonical, holds, prefix_of, Span};
use crate::waveform::{bucket_of, hex_text, nearest_level, Live, BUCKETS};
use crate::types::TrackId;

verus! {

/// A sample falls into the bucket of its share of the track, so that the buckets divide the track
/// evenly and in order.
pub proof fn buckets_divide_the_track(index: usize, total: usize, r: usize, later: usize, s: usize)
    requires
        total > 0,
        index < total,
        index <= later,
        call_ensures(bucket_of, (index, total), r),
        call_ensures(bucket_of, (later, total), s),
    ensures
        r * total <= index * BUCKETS < (r + 1) * total,
        r <= s < BUCKETS,
        index == 0 ==> r == 0,
        later >= total ==> s == BUCKETS - 1,
{
    let n = total as int;
    let a = index * BUCKETS;
    let b = later * BUCKETS;
    vstd::arithmetic::div_mod::lemma_fundamental_div_mod(a, n);
    vstd::arithmetic::div_mod::lemma_mod_bound(a, n);
    assert(a < BUCKETS * n) by (nonlinear_arith)
        requires
            a == index * BUCKETS,
            index < n,
            BUCKETS > 0,
    ;
    let q = a / n;
    assert(q < BUCKETS) by (nonlinear_arith)
        requires
            n * q <= a < BUCKETS * n,
            n > 0,
    ;
    assert(r == q);
    assert(r * n == n * q) by (nonlinear_arith)
        requires
            r == q,
    ;
    assert((r + 1) * n == n * q + n) by (nonlinear_arith)
        requires
            r == q,
    ;
    vstd::arithmetic::div_mod::lemma_div_is_ordered(a, b, n);
    if later >= total {
        assert(b >= BUCKETS * n) by (nonlinear_arith)
            requires
                b == later * BUCKETS,
                later >= n,
                BUCKETS > 0,
        ;
        vstd::arithmetic::div_mod::lemma_div_is_ordered(BUCKETS * n, b, n);
        vstd::arithmetic::div_mod::lemma_div_multiples_vanish(BUCKETS as int, n);
    }
}

/// Where there are fewer levels than buckets each bucket takes the level at its share, in order,
/// from the first level on.
pub proof fn buckets_take_the_nearest_level(bucket: usize, levels: usize, r: usize, later: usize, s: usize)
    requires
        0 < levels < BUCKETS,
        bucket <= later < BUCKETS,
        call_ensures(nearest_level, (bucket, levels), r),
        call_ensures(nearest_level, (later, levels), s),
    ensures
        r * BUCKETS <= bucket * levels < (r + 1) * BUCKETS,
        r <= s < levels,
{
    assert(bucket * levels <= later * levels) by (nonlinear_arith)
        requires
            bucket <= later,
    ;
}

/// A level is written as its two hexadecimal digits, the higher first, in the order of the levels.
pub proof fn levels_are_written_in_hex(b: Seq<u8>, i: int)
    requires
        0 <= i < b.len(),
    ensures
        hex_text(b).len() == 2 * b.len(),
        crate::ids::hex_value(hex_text(b)[2 * i]) matches Some(h) && crate::ids::hex_value(hex_text(b)[2 * i + 1]) matches Some(
            l,
        ) && h * 16 + l == b[i],
    decreases b.len(),
{
    let v = b.last() as nat;
    lemma_hex_len(b);
    lemma_hex_len(b.drop_last());
    if i < b.len() - 1 {
        levels_are_written_in_hex(b.drop_last(), i);
    } else {
        lemma_nibble(v / 16);
        lemma_nibble(v % 16);
    }
}

proof fn lemma_hex_len(b: Seq<u8>)
    ensures
        hex_text(b).len() == 2 * b.len(),
    decreases b.len(),
{
    if b.len() > 0 {
        lemma_hex_len(b.drop_last());
    }
}

proof fn lemma_nibble(d: nat)
    requires
        d < 16,
    ensures
        crate::ids::hex_value(hex_lower(d)) == Some(d),
{
}

/// What a scan shows while it runs is shown until it is cleared, and for that track alone.
pub proof fn live_levels_are_shown(l: &mut Live, id: TrackId, prefix: &[u8], after: &mut Live, other: TrackId)
    requires
        call_ensures(Live::publish_live, (l, id, prefix), ()),
        *old(after) == *final(l),
        call_ensures(Live::clear_live, (after, id), ()),
    ensures
        final(l)@.dom().contains(id.0) && final(l)@[id.0] == prefix@,
        !final(after)@.dom().contains(id.0),
        other.0 != id.0 ==> final(after)@.dom().contains(other.0) == old(l)@.dom().contains(other.0),
        other.0 != id.0 && old(l)@.dom().contains(other.0) ==> final(after)@[other.0] == old(l)@[other.0],
{
}

/// The words of an attribute are kept as four bytes each, the lowest first, in their order.
pub proof fn words_are_kept_lowest_byte_first(v: Seq<u32>, i: int)
    requires
        0 <= i < v.len(),
    ensures
        ({
            let b = le_bytes(v);
            &&& b.len() == 4 * v.len()
            &&& v[i] == b[4 * i] + 256 * b[4 * i + 1] + 65536 * b[4 * i + 2] + 16777216 * b[4 * i + 3]
        }),
    decreases v.len(),
{
    lemma_le_len(v);
    lemma_le_len(v.drop_last());
    if i < v.len() - 1 {
        words_are_kept_lowest_byte_first(v.drop_last(), i);
    } else {
        let w = v.last();
        assert(le_bytes(v)[4 * i] == word_bytes(w)[0]);
        assert(le_bytes(v)[4 * i + 1] == word_bytes(w)[1]);
        assert(le_bytes(v)[4 * i + 2] == word_bytes(w)[2]);
        assert(le_bytes(v)[4 * i + 3] == word_bytes(w)[3]);
        assert(w == w % 256 + 256 * (w / 256 % 256) + 65536 * (w / 65536 % 256) + 16777216 * (w / 16777216));
    }
}

proof fn lemma_le_len(v: Seq<u32>)
    ensures
        le_bytes(v).len() == 4 * v.len(),
    decreases v.len(),
{
    if v.len() > 0 {
        lemma_le_len(v.drop_last());
    }
}

/// The text of a track's name has its digits in groups of eight, four, four, four and twelve.
pub proof fn names_are_grouped(id: u128)
    ensures
        ({
            let t = uuid_text(id);
            &&& t.len() == 36
            &&& t[8] == '-' && t[13] == '-' && t[18] == '-' && t[23] == '-'
            &&& t[35] == hex_lower(id as nat % 16)
        }),
{
    lemma_digits_len(id as nat, 32);
    assert(hex_digits(id as nat, 32).last() == hex_lower(id as nat % 16));
}

proof fn lemma_digits_len(v: nat, n: nat)
    ensures
        hex_digits(v, n).len() == n,
    decreases n,
{
    if n > 0 {
        lemma_digits_len(v / 16, (n - 1) as nat);
    }
}

/// A name is read with its groups, without them, and in braces, and means the same.
pub proof fn names_are_read_in_every_form(s: Seq<char>)
    requires
        s.len() == 36,
        s[8] == '-',
        s[13] == '-',
        s[18] == '-',
        s[23] == '-',
    ensures
        ({
            let plain = s.subrange(0, 8) + s.subrange(9, 13) + s.subrange(14, 18) + s.subrange(19, 23) + s.subrange(24, 36);
            &&& uuid_value(s) == uuid_value(plain)
            &&& uuid_value(seq!['{'] + s + seq!['}']) == uuid_value(s)
        }),
{
    let braced = seq!['{'] + s + seq!['}'];
    assert(braced.subrange(1, 37) =~= s);
}

/// The field that holds a length behind a header: four bytes of zero in the file, behind the scale
/// of a header of the first version.
pub open spec fn empty_length(file: Seq<u8>, o: int, scale: nat) -> bool {
    &&& 20 <= o && o + 4 <= file.len()
    &&& be32(file, o) == 0
    &&& be32(file, o - 4) == scale
    &&& file[o - 16] == 0
    &&& mdhd_at(file, o - 20)
}

proof fn lemma_mdhd_from(b: Seq<u8>, o: int)
    requires
        0 <= o,
    ensures
        mdhd_from(b, o) matches Some(i) ==> o <= i && mdhd_at(b, i),
    decreases b.len() - o,
{
    if o + 4 <= b.len() && !mdhd_at(b, o) {
        lemma_mdhd_from(b, o + 1);
    }
}

proof fn lemma_walked(file: Seq<u8>, total: int, pos: int, f: Found)
    requires
        f.header matches Some((o, scale)) ==> empty_length(file, o, scale),
    ensures
        walked(file, total, pos, f) matches Some(g) ==> (g.header matches Some((o, scale)) ==> empty_length(file, o, scale)),
    decreases (if pos < total {
        total - pos
    } else {
        0
    }),
{
    if !(pos < 0 || pos + 8 > total) && pos + 8 <= file.len() {
        let size = be32(file, pos) as int;
        if size >= 8 {
            if let Some(g) = after_box(file, pos, size, f) {
                if tag_at(file, pos + 4, 109, 111, 111, 118) {
                    let body = file.subrange(pos + 8, pos + size);
                    lemma_mdhd_from(body, 0);
                    let i = mdhd_from(body, 0)->0;
                    let o = pos + 8 + i + 20;
                    assert(be32(body, i + 20) == be32(file, o));
                    assert(be32(body, i + 16) == be32(file, o - 4));
                    assert(body[i + 4] == file[o - 16]);
                    assert(mdhd_at(file, o - 20));
                }
                lemma_walked(file, total, pos + size, g);
            }
        }
    }
}

/// What is filled in is an empty length of the file itself, and what is written there is more than
/// nothing and fits.
pub proof fn only_empty_lengths_are_filled(file: Seq<u8>, total: int)
    ensures
        patch_of(file, total) matches Some((o, t)) ==> 0 < t <= u32::MAX && empty_length(file, o, be32(file, o - 4)),
{
    let f = Found { header: None, segments: seq![] };
    lemma_walked(file, total, 0, f);
    if patch_of(file, total) is Some {
        let g = walked(file, total, 0, f)->0;
        assert(finished(g) == patch_of(file, total));
        let (o, scale) = g.header->0;
        assert(empty_length(file, o, scale));
        let t = total_ticks(g.segments, scale);
        assert(patch_of(file, total) == Some((o, t)));
    }
}

/// The length of a file of equal fragments is the length of one as often as there are fragments, in
/// the scale of the header.
pub proof fn lengths_are_summed(f: Found, o: int, scale: nat, each: nat)
    requires
        f.header == Some((o, scale)),
        scale > 0,
        forall|i: int| 0 <= i < f.segments.len() ==> #[trigger] f.segments[i] == (scale, each),
        0 < f.segments.len() * each <= u32::MAX,
    ensures
        finished(f) == Some((o, (f.segments.len() * each) as nat)),
{
    lemma_total(f.segments, scale, each);
}

proof fn lemma_total(v: Seq<(nat, nat)>, scale: nat, each: nat)
    requires
        scale > 0,
        forall|i: int| 0 <= i < v.len() ==> #[trigger] v[i] == (scale, each),
    ensures
        total_ticks(v, scale) == v.len() * each,
    decreases v.len(),
{
    if v.len() > 0 {
        assert forall|i: int| 0 <= i < v.drop_last().len() implies #[trigger] v.drop_last()[i] == (scale, each) by {
            assert(v[i] == (scale, each));
        }
        lemma_total(v.drop_last(), scale, each);
        assert(v[v.len() - 1] == (scale, each));
        vstd::arithmetic::div_mod::lemma_div_multiples_vanish(each as int, scale as int);
        assert(v.len() * each == (v.len() - 1) * each + each) by (nonlinear_arith);
        assert(each * scale == scale * each) by (nonlinear_arith);
    }
}

/// The length of a segment is the sum of what its parts say: of equal parts it is one as often as
/// there are parts.
pub proof fn parts_are_summed(b: Seq<u8>, o: int, n: nat, each: nat)
    requires
        0 <= o,
        o + 12 * n <= b.len(),
        forall|k: int| 0 <= k < n ==> be32(b, #[trigger] (o + k * 12) + 4) == each,
    ensures
        ticks_of(b, o, n) == Some((n * each) as nat),
    decreases n,
{
    if n > 0 {
        parts_are_summed(b, o, (n - 1) as nat, each);
        let k = n - 1;
        assert(be32(b, (o + k * 12) + 4) == each);
        assert(u32_at(b, o + k * 12 + 4) == Some(each));
        assert(n * each == k * each + each) by (nonlinear_arith)
            requires
                k == n - 1,
        ;
    } else {
        assert(n * each == 0) by (nonlinear_arith)
            requires
                n == 0,
        ;
    }
}

/// What is in the index stays as it is when another is taken over, what was not in it comes from
/// there, and nothing comes from elsewhere.
pub proof fn merging_keeps_what_is_there(m: Map<Seq<char>, String>, keys: Seq<Seq<char>>, vals: Seq<String>, dir: Seq<char>, files: Set<Seq<char>>, n: int)
    requires
        0 <= n <= keys.len(),
        keys.len() == vals.len(),
    ensures
        ({
            let g = merged_index(m, keys, vals, dir, files, n);
            &&& m.submap_of(g.index)
            &&& forall|i: int| 0 <= i < n ==> g.index.dom().contains(#[trigger] keys[i])
            &&& forall|k: Seq<char>|
                #[trigger] g.index.dom().contains(k) && !m.dom().contains(k) ==> exists|i: int|
                    0 <= i < n && keys[i] == k && g.index[k] == vals[i]
            &&& g.inserted + g.skipped == n
        }),
    decreases n,
{
    if n > 0 {
        merging_keeps_what_is_there(m, keys, vals, dir, files, n - 1);
        let v = merged_index(m, keys, vals, dir, files, n - 1);
        let g = merged_index(m, keys, vals, dir, files, n);
        assert forall|k: Seq<char>| #[trigger] g.index.dom().contains(k) && !m.dom().contains(k) implies exists|i: int|
            0 <= i < n && keys[i] == k && g.index[k] == vals[i] by {
            if v.index.dom().contains(k) {
                let i = choose|i: int| 0 <= i < n - 1 && keys[i] == k && v.index[k] == vals[i];
                assert(0 <= i < n && keys[i] == k && g.index[k] == vals[i]);
            } else {
                assert(keys[n - 1] == k && g.index[k] == vals[n - 1]);
            }
        }
    }
}

/// Taking indexes over loses no entry of the live one, leaves alone what is no index, and stops at
/// the first that fails.
pub proof fn indexes_are_taken_over(m: Map<Seq<char>, String>, extras: Seq<Incoming>, dir: Seq<char>, files: Set<Seq<char>>, n: int)
    requires
        0 <= n <= extras.len(),
        forall|i: int| 0 <= i < extras.len() ==> (#[trigger] extras[i] matches Incoming::Entries(t) ==> t.wf()),
    ensures
        ({
            let v = ingested(m, extras, dir, files, n);
            &&& m.submap_of(v.index)
            &&& v.failed <==> exists|i: int| 0 <= i < n && #[trigger] extras[i] is Broken
            &&& forall|j: int| 0 <= j < v.taken.len() ==> 0 <= #[trigger] v.taken[j] < n && extras[v.taken[j]] is Entries
            &&& v.counts.len() == v.taken.len()
        }),
    decreases n,
{
    if n > 0 {
        indexes_are_taken_over(m, extras, dir, files, n - 1);
        let v = ingested(m, extras, dir, files, n - 1);
        let g = ingested(m, extras, dir, files, n);
        if v.failed {
            let i = choose|i: int| 0 <= i < n - 1 && #[trigger] extras[i] is Broken;
            assert(0 <= i < n && extras[i] is Broken);
        } else {
            match extras[n - 1] {
                Incoming::Entries(t) => {
                    t.keys_are_the_domain();
                    merging_keeps_what_is_there(v.index, t.keys(), t.values(), dir, files, t.keys().len() as int);
                },
                _ => {},
            }
            assert(v.index.submap_of(g.index));
            assert forall|k: Seq<char>| #[trigger] m.dom().contains(k) implies g.index.dom().contains(k) && m[k] == g.index[k] by {
                assert(v.index.dom().contains(k) && v.index[k] == m[k]);
            }
            assert(g.failed == (extras[n - 1] is Broken));
            assert forall|j: int| 0 <= j < g.taken.len() implies 0 <= #[trigger] g.taken[j] < n && extras[g.taken[j]] is Entries by {
                if j < v.taken.len() {
                    assert(g.taken[j] == v.taken[j]);
                }
            }
        }
    }
}

/// What is there from the start on reaches exactly to the first byte that is missing.
pub proof fn the_front_reaches_to_the_first_gap(v: Seq<Span>, p: int)
    requires
        canonical(v),
    ensures
        0 <= p < prefix_of(v) ==> holds(v, p),
        !holds(v, prefix_of(v) as int),
{
    if v.len() > 0 && v[0].start == 0 {
        if 0 <= p < v[0].end {
            assert(v[0].has(p));
        }
    }
    let q = prefix_of(v) as int;
    if holds(v, q) {
        let i = choose|i: int| 0 <= i < v.len() && (#[trigger] v[i]).has(q);
        if i > 0 {
            assert(v[0].end < v[i].start);
        }
        assert(v[0].start < v[0].end);
        assert(false);
    }
}

/// Copies of the index are told by its name with a sign behind it; the index itself is none.
pub proof fn copies_of_the_index_are_told(stem: Seq<char>, sign: char, rest: Seq<char>, live: Seq<char>)
    requires
        sign == '-' || sign == '_' || sign == '.' || sign == ' ',
        stem + seq![sign] + rest + ".redb"@ != live,
    ensures
        extra_index(stem + seq![sign] + rest + ".redb"@, stem, live),
        !extra_index(live, stem, live),
        !extra_index(stem + ".redb"@, stem, live),
        !extra_index(stem + seq!['x'] + rest + ".redb"@, stem, live),
{
    reveal_strlit(".redb");
    let name = stem + seq![sign] + rest + ".redb"@;
    let cut = name.len() - 5;
    assert(name.skip(cut) =~= ".redb"@);
    assert(name.take(cut) =~= stem + (seq![sign] + rest));
    crate::text::lemma_strip_own(stem, seq![sign] + rest);
    let bare = stem + ".redb"@;
    assert(bare.take(bare.len() - 5) =~= stem + Seq::<char>::empty());
    crate::text::lemma_strip_own(stem, Seq::empty());
    let longer = stem + seq!['x'] + rest + ".redb"@;
    assert(longer.take(longer.len() - 5) =~= stem + (seq!['x'] + rest));
    crate::text::lemma_strip_own(stem, seq!['x'] + rest);
}

} // verus!
