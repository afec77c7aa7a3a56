//! The length of fragmented MP4 audio. Its header says zero; the real length is the sum of the
//! segment indices.

use vstd::prelude::*;

verus! {

/// The number that four bytes write, the greatest first.
pub open spec fn be32(b: Seq<u8>, o: int) -> nat {
    (b[o] * 16777216 + b[o + 1] * 65536 + b[o + 2] * 256 + b[o + 3]) as nat
}

pub open spec fn u32_at(b: Seq<u8>, o: int) -> Option<nat> {
    if 0 <= o && o + 4 <= b.len() {
        Some(be32(b, o))
    } else {
        None
    }
}

pub open spec fn tag_at(b: Seq<u8>, o: int, a: u8, c: u8, d: u8, e: u8) -> bool {
    0 <= o && o + 4 <= b.len() && b[o] == a && b[o + 1] == c && b[o + 2] == d && b[o + 3] == e
}

/// `mdhd`
pub open spec fn mdhd_at(b: Seq<u8>, o: int) -> bool {
    tag_at(b, o, 109, 100, 104, 100)
}

/// Where the first `mdhd` from `o` on stands.
pub open spec fn mdhd_from(b: Seq<u8>, o: int) -> Option<int>
    decreases b.len() - o,
{
    if o < 0 || o + 4 > b.len() {
        None
    } else if mdhd_at(b, o) {
        Some(o)
    } else {
        mdhd_from(b, o + 1)
    }
}

/// Where in a movie header the length stands, and its time scale; only for the short form of a
/// header whose length is zero.
pub open spec fn header_of(body: Seq<u8>) -> Option<(int, nat)> {
    match mdhd_from(body, 0) {
        None => None,
        Some(i) => if i + 4 < body.len() && body[i + 4] == 0 && u32_at(body, i + 20) == Some(0nat) && u32_at(
            body,
            i + 16,
        ) is Some {
            Some((i + 20, u32_at(body, i + 16)->0))
        } else {
            None
        },
    }
}

/// The sum of the lengths of the first `n` entries of a segment index that start at `o`.
pub open spec fn ticks_of(b: Seq<u8>, o: int, n: nat) -> Option<nat>
    decreases n,
{
    if n == 0 {
        Some(0)
    } else {
        match (ticks_of(b, o, (n - 1) as nat), u32_at(b, o + (n - 1) * 12 + 4)) {
            (Some(t), Some(d)) => Some(t + d),
            _ => None,
        }
    }
}

/// The time scale and the length of a segment index.
pub open spec fn index_of(b: Seq<u8>) -> Option<(nat, nat)> {
    if b.len() == 0 {
        None
    } else {
        let o = if b[0] == 0 {
            20int
        } else {
            28
        };
        if u32_at(b, 8) is Some && o + 4 <= b.len() {
            let count = (b[o + 2] * 256 + b[o + 3]) as nat;
            match ticks_of(b, o + 4, count) {
                Some(t) => Some((u32_at(b, 8)->0, t)),
                None => None,
            }
        } else {
            None
        }
    }
}

/// What is known of the boxes before a place: the header, and the lengths of the segments.
pub struct Found {
    pub header: Option<(int, nat)>,
    pub segments: Seq<(nat, nat)>,
}

/// What is known after the box at `pos`, or nothing where it cannot be read.
pub open spec fn after_box(file: Seq<u8>, pos: int, size: int, f: Found) -> Option<Found> {
    if tag_at(file, pos + 4, 109, 111, 111, 118) {
        if pos + size > file.len() {
            None
        } else {
            match header_of(file.subrange(pos + 8, pos + size)) {
                Some((o, scale)) => Some(Found { header: Some((pos + 8 + o, scale)), ..f }),
                None => None,
            }
        }
    } else if tag_at(file, pos + 4, 115, 105, 100, 120) {
        if pos + size > file.len() {
            None
        } else {
            match index_of(file.subrange(pos + 8, pos + size)) {
                Some(x) => Some(Found { segments: f.segments.push(x), ..f }),
                None => None,
            }
        }
    } else {
        Some(f)
    }
}

/// What is known after all boxes from `pos` to `total`.
pub open spec fn walked(file: Seq<u8>, total: int, pos: int, f: Found) -> Option<Found>
    decreases (if pos < total {
        total - pos
    } else {
        0
    }),
{
    if pos < 0 || pos + 8 > total {
        Some(f)
    } else if pos + 8 > file.len() {
        None
    } else {
        let size = be32(file, pos) as int;
        if size < 8 {
            Some(f)
        } else {
            match after_box(file, pos, size, f) {
                Some(g) => walked(file, total, pos + size, g),
                None => None,
            }
        }
    }
}

/// The segments' length in the time scale of the header.
pub open spec fn total_ticks(v: Seq<(nat, nat)>, scale: nat) -> nat
    decreases v.len(),
{
    if v.len() == 0 {
        0
    } else {
        let (ts, t) = v.last();
        total_ticks(v.drop_last(), scale) + (t * scale) / (if ts == 0 {
            1
        } else {
            ts
        })
    }
}

/// Where the length stands and what it really is.
pub open spec fn patch_of(file: Seq<u8>, total: int) -> Option<(int, nat)> {
    match walked(file, total, 0, Found { header: None, segments: seq![] }) {
        None => None,
        Some(f) => finished(f),
    }
}

/// What all boxes together say of the length.
pub open spec fn finished(f: Found) -> Option<(int, nat)> {
    match f.header {
        None => None,
        Some((o, scale)) => {
            let t = total_ticks(f.segments, scale);
            if 0 < t <= u32::MAX {
                Some((o, t))
            } else {
                None
            }
        },
    }
}

fn get32(b: &[u8], o: usize) -> (r: Option<u32>)
    requires
        o <= usize::MAX - 4,
    ensures
        match r {
            Some(v) => u32_at(b@, o as int) == Some(v as nat),
            None => u32_at(b@, o as int) is None,
        },
{
    if o + 4 <= b.len() {
        Some(b[o] as u32 * 16777216 + b[o + 1] as u32 * 65536 + b[o + 2] as u32 * 256 + b[o + 3] as u32)
    } else {
        None
    }
}

fn is_tag(b: &[u8], o: usize, a: u8, c: u8, d: u8, e: u8) -> (r: bool)
    requires
        o + 4 <= b@.len(),
    ensures
        r == tag_at(b@, o as int, a, c, d, e),
{
    b[o] == a && b[o + 1] == c && b[o + 2] == d && b[o + 3] == e
}

fn header(b: &[u8]) -> (r: Option<(usize, u32)>)
    requires
        b@.len() <= 0xffff_ffff,
    ensures
        match r {
            Some((o, s)) => header_of(b@) == Some((o as int, s as nat)) && o + 4 <= b@.len(),
            None => header_of(b@) is None,
        },
{
    let n: usize = b.len();
    let mut i: usize = 0;
    while i < n && n - i >= 4
        invariant
            i <= n == b@.len(),
            n <= 0xffff_ffff,
            mdhd_from(b@, i as int) == mdhd_from(b@, 0),
        decreases n - i,
    {
        if is_tag(b, i, 109, 100, 104, 100) {
            if n - i <= 4 || b[i + 4] != 0 || n - i < 24 {
                return None;
            }
            return match (get32(b, i + 20), get32(b, i + 16)) {
                (Some(d), Some(s)) => if d == 0 {
                    Some((i + 20, s))
                } else {
                    None
                },
                _ => None,
            };
        }
        i = i + 1;
    }
    None
}

#[verifier::loop_isolation(false)]
fn index(b: &[u8]) -> (r: Option<(u32, u64)>)
    requires
        b@.len() <= 0xffff_ffff,
    ensures
        match r {
            Some((s, t)) => index_of(b@) == Some((s as nat, t as nat)) && t <= 0xffff * 0xffff_ffff,
            None => index_of(b@) is None,
        },
{
    let n: usize = b.len();
    if n == 0 {
        return None;
    }
    let o: usize = if b[0] == 0 {
        20
    } else {
        28
    };
    let scale = match get32(b, 8) {
        Some(s) => s,
        None => {
            return None;
        },
    };
    if o + 4 > n {
        return None;
    }
    let count: u32 = b[o + 2] as u32 * 256 + b[o + 3] as u32;
    let ghost want = ticks_of(b@, o + 4, count as nat);
    let mut t: u64 = 0;
    let mut k: u32 = 0;
    while k < count
        invariant
            k <= count <= 0xffff,
            o <= 28,
            n == b@.len(),
            want == ticks_of(b@, o + 4, count as nat),
            ticks_of(b@, o + 4, k as nat) == Some(t as nat),
            t <= k * 0xffff_ffff,
        decreases count - k,
    {
        let at: usize = o + 4 + k as usize * 12 + 4;
        match get32(b, at) {
            Some(d) => {
                t = t + d as u64;
            },
            None => {
                proof {
                    assert(ticks_of(b@, o + 4, (k + 1) as nat) is None);
                    lemma_ticks_missing(b@, o + 4, (k + 1) as nat, count as nat);
                }
                return None;
            },
        }
        k = k + 1;
    }
    Some((scale, t))
}

proof fn lemma_ticks_missing(b: Seq<u8>, o: int, k: nat, n: nat)
    requires
        k <= n,
        ticks_of(b, o, k) is None,
    ensures
        ticks_of(b, o, n) is None,
    decreases n,
{
    if k < n {
        lemma_ticks_missing(b, o, k, (n - 1) as nat);
    }
}

fn copy_range(b: &[u8], from: usize, to: usize) -> (r: Vec<u8>)
    requires
        from <= to <= b@.len(),
    ensures
        r@ == b@.subrange(from as int, to as int),
{
    let mut out: Vec<u8> = Vec::new();
    let mut i: usize = from;
    while i < to
        invariant
            from <= i <= to <= b@.len(),
            out@ == b@.subrange(from as int, i as int),
        decreases to - i,
    {
        out.push(b[i]);
        assert(b@.subrange(from as int, i + 1) =~= b@.subrange(from as int, i as int).push(b@[i as int]));
        i = i + 1;
    }
    out
}

spec fn segment_views(v: Seq<(u32, u64)>) -> Seq<(nat, nat)> {
    v.map_values(|x: (u32, u64)| (x.0 as nat, x.1 as nat))
}

/// The sum, as far as it fits a 32-bit number; anything greater where it does not.
fn sum_ticks(v: &Vec<(u32, u64)>, scale: u32) -> (r: u128)
    requires
        bounded_segments(v@),
    ensures
        total_ticks(segment_views(v@), scale as nat) <= u32::MAX ==> r == total_ticks(
            segment_views(v@),
            scale as nat,
        ),
        total_ticks(segment_views(v@), scale as nat) > u32::MAX ==> r > u32::MAX,
{
    let ghost all = segment_views(v@);
    let mut acc: u128 = 0;
    let mut i: usize = 0;
    while i < v.len()
        invariant
            i <= v@.len(),
            all == segment_views(v@),
            forall|i: int| 0 <= i < v@.len() ==> (#[trigger] v@[i]).1 <= 0xffff * 0xffff_ffff,
            total_ticks(all.take(i as int), scale as nat) <= u32::MAX ==> acc == total_ticks(
                all.take(i as int),
                scale as nat,
            ),
            total_ticks(all.take(i as int), scale as nat) > u32::MAX ==> acc > u32::MAX,
        decreases v@.len() - i,
    {
        let (ts, t) = v[i];
        proof {
            assert(all.take(i + 1).drop_last() =~= all.take(i as int));
            assert(all.take(i + 1).last() == (ts as nat, t as nat));
            assert(t * scale <= 0xffff * 0xffff_ffff * 0xffff_ffff) by (nonlinear_arith)
                requires
                    0 <= t <= 0xffff * 0xffff_ffff,
                    0 <= scale <= 0xffff_ffff,
            ;
        }
        let d: u128 = if ts == 0 {
            1
        } else {
            ts as u128
        };
        let x: u128 = t as u128 * scale as u128;
        proof {
            let p = (t * scale) as int;
            assert(0 <= x / d <= x) by (nonlinear_arith)
                requires
                    d >= 1,
            ;
        }
        if acc <= u32::MAX as u128 {
            acc = acc + x / d;
        }
        i = i + 1;
    }
    assert(all.take(i as int) =~= all);
    acc
}

/// Reads the box at `p`; says whether it could be read.
fn read_box(file: &[u8], p: usize, size: u32, head: &mut Option<(u64, u32)>, segs: &mut Vec<(u32, u64)>) -> (ok: bool)
    requires
        p + 8 <= file@.len(),
        size >= 8,
        bounded_segments(old(segs)@),
    ensures
        ok == after_box(file@, p as int, size as int, found_of(*old(head), old(segs)@)) is Some,
        ok ==> after_box(file@, p as int, size as int, found_of(*old(head), old(segs)@)) == Some(
            found_of(*final(head), final(segs)@),
        ),
        bounded_segments(final(segs)@),
{
    let n: usize = file.len();
    let moov: bool = is_tag(file, p + 4, 109, 111, 111, 118);
    let sidx: bool = is_tag(file, p + 4, 115, 105, 100, 120);
    if !moov && !sidx {
        return true;
    }
    if size as usize > n - p {
        return false;
    }
    let body = copy_range(file, p + 8, p + size as usize);
    if moov {
        match header(&body) {
            None => false,
            Some((o, scale)) => {
                *head = Some(((p + 8 + o) as u64, scale));
                true
            },
        }
    } else {
        match index(&body) {
            None => false,
            Some(x) => {
                segs.push(x);
                assert(segment_views(segs@) =~= segment_views(old(segs)@).push((x.0 as nat, x.1 as nat)));
                true
            },
        }
    }
}

spec fn bounded_segments(v: Seq<(u32, u64)>) -> bool {
    forall|i: int| 0 <= i < v.len() ==> (#[trigger] v[i]).1 <= 0xffff * 0xffff_ffff
}

fn finish(head: Option<(u64, u32)>, segs: &Vec<(u32, u64)>) -> (r: Option<(u64, [u8; 4])>)
    requires
        bounded_segments(segs@),
    ensures
        match r {
            Some((o, b)) => finished(found_of(head, segs@)) == Some((o as int, be32(b@, 0))),
            None => finished(found_of(head, segs@)) is None,
        },
{
    match head {
        None => None,
        Some((o, scale)) => {
            let t: u128 = sum_ticks(segs, scale);
            if t == 0 || t > u32::MAX as u128 {
                None
            } else {
                let v: u32 = t as u32;
                let b: [u8; 4] = [
                    (v / 16777216) as u8,
                    (v / 65536 % 256) as u8,
                    (v / 256 % 256) as u8,
                    (v % 256) as u8,
                ];
                assert(be32(b@, 0) == v);
                Some((o, b))
            }
        },
    }
}

/// Where the length of a fragmented file stands, and its bytes as they should be. Nothing is
/// returned where the file says its length itself, or does not say enough.
pub fn duration_patch(file: &[u8], total_len: u64) -> (r: Option<(u64, [u8; 4])>)
    ensures
        match r {
            Some((o, b)) => patch_of(file@, total_len as int) == Some((o as int, be32(b@, 0))),
            None => patch_of(file@, total_len as int) is None,
        },
{
    let n: usize = file.len();
    let mut pos: u128 = 0;
    let mut head: Option<(u64, u32)> = None;
    let mut segs: Vec<(u32, u64)> = Vec::new();
    assert(segment_views(segs@) =~= seq![]);
    while pos + 8 <= total_len as u128
        invariant
            n == file@.len(),
            pos <= total_len + 0x1_0000_0000,
            bounded_segments(segs@),
            walked(file@, total_len as int, pos as int, found_of(head, segs@)) == walked(
                file@,
                total_len as int,
                0,
                Found { header: None, segments: seq![] },
            ),
        decreases total_len + 0x1_0000_0000 - pos,
    {
        if n < 8 || pos > (n - 8) as u128 {
            return None;
        }
        let p: usize = pos as usize;
        let size: u32 = file[p] as u32 * 16777216 + file[p + 1] as u32 * 65536 + file[p + 2] as u32 * 256
            + file[p + 3] as u32;
        if size < 8 {
            return finish(head, &segs);
        }
        if !read_box(file, p, size, &mut head, &mut segs) {
            return None;
        }
        pos = pos + size as u128;
    }
    finish(head, &segs)
}

spec fn found_of(head: Option<(u64, u32)>, segs: Seq<(u32, u64)>) -> Found {
    Found {
        header: match head {
            Some((o, s)) => Some((o as int, s as nat)),
            None => None,
        },
        segments: segment_views(segs),
    }
}

} // verus!
