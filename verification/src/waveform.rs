//! The envelope of a track's amplitude, as it is stored and as it grows.

use vstd::prelude::*;
use vstd::utf8::{encode_utf8, is_ascii_chars, is_ascii_chars_encode_utf8};
use crate::idmap::IdMap;
use crate::ids::hex_lower;
use crate::pct::{nibble, pair_of, pair_value};
use crate::text::string_of;
use crate::types::TrackId;

verus! {

/// How many levels an envelope has.
pub const BUCKETS: usize = 400;

/// Two hexadecimal digits for each level.
pub open spec fn hex_text(b: Seq<u8>) -> Seq<char>
    decreases b.len(),
{
    if b.len() == 0 {
        seq![]
    } else {
        hex_text(b.drop_last()) + seq![hex_lower(b.last() as nat / 16), hex_lower(b.last() as nat % 16)]
    }
}

/// The levels that pairs of hexadecimal digits write; other pairs are skipped.
pub open spec fn pair_values(b: Seq<u8>) -> Seq<u8>
    decreases b.len(),
{
    if b.len() < 2 {
        seq![]
    } else {
        (match pair_value(b[0], b[1]) {
            Some(v) => seq![v],
            None => seq![],
        }) + pair_values(b.skip(2))
    }
}

fn hex_char(d: u8) -> (r: char)
    requires
        d < 16,
    ensures
        r == hex_lower(d as nat),
{
    if d < 10 {
        (48 + d) as char
    } else {
        (87 + d) as char
    }
}

/// The stored form of an envelope.
pub fn encode(buckets: &[u8]) -> (r: String)
    ensures
        r@ == hex_text(buckets@),
        pair_values(encode_utf8(r@)) == buckets@,
{
    let mut out: Vec<char> = Vec::new();
    let mut i: usize = 0;
    while i < buckets.len()
        invariant
            i <= buckets@.len(),
            out@ == hex_text(buckets@.take(i as int)),
        decreases buckets@.len() - i,
    {
        proof {
            assert(buckets@.take(i + 1).drop_last() =~= buckets@.take(i as int));
        }
        out.push(hex_char(buckets[i] / 16));
        out.push(hex_char(buckets[i] % 16));
        proof {
            assert(out@ =~= hex_text(buckets@.take(i + 1)));
        }
        i = i + 1;
    }
    proof {
        assert(buckets@.take(i as int) =~= buckets@);
        hex_round_trip(buckets@);
    }
    string_of(&out)
}

/// The envelope of a stored form.
pub fn decode(hex: &str) -> (r: Vec<u8>)
    ensures
        r@ == pair_values(encode_utf8(hex@)),
{
    let b = hex.as_bytes();
    let n: usize = b.len();
    let mut out: Vec<u8> = Vec::new();
    let mut i: usize = 0;
    proof {
        assert(b@.skip(0) =~= b@);
        assert(out@ + pair_values(b@) =~= pair_values(b@));
    }
    while n - i >= 2
        invariant
            i <= n == b@.len(),
            out@ + pair_values(b@.skip(i as int)) == pair_values(b@),
        decreases n - i,
    {
        let ghost rest = b@.skip(i as int);
        let ghost before = out@;
        assert(rest[0] == b@[i as int] && rest[1] == b@[i + 1]);
        assert(rest.skip(2) =~= b@.skip(i + 2));
        if let Some(v) = pair_of(b[i], b[i + 1]) {
            out.push(v);
        }
        assert(out@ + pair_values(b@.skip(i + 2)) =~= before + pair_values(rest));
        i = i + 2;
    }
    assert(out@ + pair_values(b@.skip(i as int)) =~= out@);
    out
}

/// The stored form of an envelope gives it back.
pub proof fn hex_round_trip(b: Seq<u8>)
    ensures
        pair_values(encode_utf8(hex_text(b))) == b,
        is_ascii_chars(hex_text(b)),
    decreases b.len(),
{
    lemma_hex_ascii(b);
    let t = hex_text(b);
    let u = encode_utf8(t);
    is_ascii_chars_encode_utf8(t);
    lemma_pairs(b, 0);
    assert(b.skip(0) =~= b);
    assert(u.skip(0) =~= u);
}

proof fn lemma_hex_ascii(b: Seq<u8>)
    ensures
        hex_text(b).len() == 2 * b.len(),
        is_ascii_chars(hex_text(b)),
        forall|i: int|
            0 <= i < b.len() ==> hex_text(b)[2 * i] == hex_lower(#[trigger] b[i] as nat / 16) && hex_text(b)[2
                * i + 1] == hex_lower(b[i] as nat % 16),
    decreases b.len(),
{
    if b.len() > 0 {
        let c = b.drop_last();
        lemma_hex_ascii(c);
        assert forall|i: int| 0 <= i < b.len() implies hex_text(b)[2 * i] == hex_lower(#[trigger] b[i] as nat / 16)
            && hex_text(b)[2 * i + 1] == hex_lower(b[i] as nat % 16) by {
            if i < c.len() {
                assert(c[i] == b[i]);
            }
        }
        assert forall|i: int| 0 <= i < hex_text(b).len() implies 0 <= #[trigger] hex_text(b)[i] as nat && hex_text(
            b,
        )[i] as nat <= 127 by {
            lemma_hex_lower(b.last() as nat / 16);
            lemma_hex_lower(b.last() as nat % 16);
            if i < hex_text(c).len() {
                assert(hex_text(b)[i] == hex_text(c)[i]);
            }
        }
    }
}

proof fn lemma_hex_lower(d: nat)
    requires
        d < 16,
    ensures
        (hex_lower(d) as nat) <= 127,
        nibble(hex_lower(d) as u8) == Some(d),
{
}

proof fn lemma_pairs(b: Seq<u8>, i: int)
    requires
        0 <= i <= b.len(),
    ensures
        pair_values(encode_utf8(hex_text(b)).skip(2 * i)) == b.skip(i),
    decreases b.len() - i,
{
    lemma_hex_ascii(b);
    let t = hex_text(b);
    let u = encode_utf8(t);
    is_ascii_chars_encode_utf8(t);
    assert(u.len() == 2 * b.len());
    let rest = u.skip(2 * i);
    if i < b.len() {
        lemma_pairs(b, i + 1);
        assert(rest.skip(2) =~= u.skip(2 * (i + 1)));
        lemma_hex_lower(b[i] as nat / 16);
        lemma_hex_lower(b[i] as nat % 16);
        assert(rest[0] == t[2 * i] as u8);
        assert(rest[1] == t[2 * i + 1] as u8);
        assert(pair_value(rest[0], rest[1]) == Some(b[i]));
        assert(seq![b[i]] + b.skip(i + 1) =~= b.skip(i));
    } else {
        assert(b.skip(i) =~= seq![]);
    }
}

/// The bucket that window `index` of `total` falls in.
pub fn bucket_of(index: usize, total: usize) -> (r: usize)
    requires
        total > 0,
        index * BUCKETS <= usize::MAX,
    ensures
        r == (if (index * BUCKETS) / (total as int) < BUCKETS {
            (index * BUCKETS) / (total as int)
        } else {
            BUCKETS - 1
        }),
        r < BUCKETS,
{
    let b: usize = index * BUCKETS / total;
    if b < BUCKETS {
        b
    } else {
        BUCKETS - 1
    }
}

/// The level that stands for a bucket where there are fewer levels than buckets.
pub fn nearest_level(bucket: usize, levels: usize) -> (r: usize)
    requires
        0 < levels < BUCKETS,
        bucket < BUCKETS,
    ensures
        r == (bucket * levels) / 400,
        r < levels,
{
    assert(bucket * levels <= 400 * 400) by (nonlinear_arith)
        requires
            bucket < 400,
            levels < 400,
    ;
    let i: usize = bucket * levels / BUCKETS;
    assert(bucket * levels < levels * 400) by (nonlinear_arith)
        requires
            bucket < 400,
            0 < levels,
    ;
    i
}

/// The envelopes of the tracks that are being read, as far as they are known.
pub struct Live {
    prefixes: IdMap<Vec<u8>>,
}

impl View for Live {
    type V = Map<u128, Seq<u8>>;

    closed spec fn view(&self) -> Map<u128, Seq<u8>> {
        self.prefixes@.map_values(|v: Vec<u8>| v@)
    }
}

fn copy_bytes(v: &[u8]) -> (r: Vec<u8>)
    ensures
        r@ == v@,
{
    let mut out: Vec<u8> = Vec::new();
    let mut i: usize = 0;
    while i < v.len()
        invariant
            i <= v@.len(),
            out@ == v@.take(i as int),
        decreases v@.len() - i,
    {
        out.push(v[i]);
        assert(v@.take(i + 1) =~= v@.take(i as int).push(v@[i as int]));
        i = i + 1;
    }
    assert(v@.take(i as int) =~= v@);
    out
}

impl Live {
    pub fn new() -> (r: Live)
        ensures
            r@ == Map::<u128, Seq<u8>>::empty(),
    {
        let r = Live { prefixes: IdMap::new() };
        assert(r@ =~= Map::<u128, Seq<u8>>::empty());
        r
    }

    /// The known start of the envelope of a track that is being read.
    pub fn live(&self, id: TrackId) -> (r: Option<Vec<u8>>)
        ensures
            match r {
                Some(v) => self@.dom().contains(id.0) && self@[id.0] == v@,
                None => !self@.dom().contains(id.0),
            },
    {
        match self.prefixes.get(id.0) {
            Some(v) => Some(copy_bytes(v)),
            None => None,
        }
    }

    pub fn publish_live(&mut self, id: TrackId, prefix: &[u8])
        ensures
            final(self)@ == old(self)@.insert(id.0, prefix@),
    {
        let v = copy_bytes(prefix);
        self.prefixes.insert(id.0, v);
        assert(self@ =~= old(self)@.insert(id.0, prefix@));
    }

    pub fn clear_live(&mut self, id: TrackId)
        ensures
            final(self)@ == old(self)@.remove(id.0),
    {
        self.prefixes.remove(id.0);
        assert(self@ =~= old(self)@.remove(id.0));
    }
}

} // verus!
