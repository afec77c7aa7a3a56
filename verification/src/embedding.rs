//! The stored form of a genre embedding: the bit patterns of its numbers, least byte first, in
//! Base64.

use vstd::prelude::*;
use base64::Engine;

verus! {

/// What `base64`'s standard engine writes for some bytes.
pub uninterp spec fn base64_text(b: Seq<u8>) -> Seq<char>;

/// What `base64`'s standard engine reads from a text, if it can.
pub uninterp spec fn base64_bytes(s: Seq<char>) -> Option<Seq<u8>>;

/// `base64::engine::general_purpose::STANDARD.encode`: the result is named `base64_text`, and
/// the same engine reads it back as the bytes.
#[verifier::external_body]
fn base64_encode(b: &Vec<u8>) -> (r: String)
    requires
        b@.len() <= 0x3fff_ffff,
    ensures
        r@ == base64_text(b@),
        base64_bytes(r@) == Some(b@),
{
    base64::engine::general_purpose::STANDARD.encode(b)
}

/// `base64::engine::general_purpose::STANDARD.decode`: the result is named `base64_bytes`.
#[verifier::external_body]
fn base64_decode(s: &str) -> (r: Option<Vec<u8>>)
    ensures
        match r {
            Some(b) => base64_bytes(s@) == Some(b@),
            None => base64_bytes(s@) is None,
        },
{
    base64::engine::general_purpose::STANDARD.decode(s).ok()
}

/// The bytes of a word, the least first.
pub open spec fn word_bytes(w: u32) -> Seq<u8> {
    seq![
        (w % 256) as u8,
        (w / 256 % 256) as u8,
        (w / 65536 % 256) as u8,
        (w / 16777216) as u8,
    ]
}

/// The bytes of a row of words.
pub open spec fn le_bytes(v: Seq<u32>) -> Seq<u8>
    decreases v.len(),
{
    if v.len() == 0 {
        seq![]
    } else {
        le_bytes(v.drop_last()) + word_bytes(v.last())
    }
}

/// The word that four bytes write, the least first.
pub open spec fn word_at(b: Seq<u8>, i: int) -> u32 {
    (b[i] + 256 * b[i + 1] + 65536 * b[i + 2] + 16777216 * b[i + 3]) as u32
}

/// The words of a row of bytes.
pub open spec fn le_words(b: Seq<u8>) -> Seq<u32>
    decreases b.len(),
{
    if b.len() < 4 {
        seq![]
    } else {
        le_words(b.take(b.len() - 4)).push(word_at(b, b.len() - 4))
    }
}

/// What an embedding is read as from the bytes of its stored form.
pub open spec fn embedding_of(b: Option<Seq<u8>>) -> Option<Seq<u32>> {
    match b {
        Some(b) => if b.len() % 4 == 0 {
            Some(le_words(b))
        } else {
            None
        },
        None => None,
    }
}

/// The bytes of an embedding give it back.
pub proof fn embedding_round_trip(v: Seq<u32>)
    ensures
        le_bytes(v).len() == 4 * v.len(),
        embedding_of(Some(le_bytes(v))) == Some(v),
    decreases v.len(),
{
    let b = le_bytes(v);
    if v.len() > 0 {
        embedding_round_trip(v.drop_last());
        assert(b.take(b.len() - 4) =~= le_bytes(v.drop_last()));
        let w = v.last();
        assert(word_at(b, b.len() - 4) == w);
        assert(le_words(b) =~= v);
    } else {
        assert(le_words(b) =~= v);
    }
}

/// The stored form of an embedding, whose numbers are given by their bit patterns.
pub fn encode_genre_embedding(v: &[u32]) -> (r: String)
    requires
        v@.len() <= 0x0fff_ffff,
    ensures
        r@ == base64_text(le_bytes(v@)),
        embedding_of(base64_bytes(r@)) == Some(v@),
{
    let mut b: Vec<u8> = Vec::new();
    let mut i: usize = 0;
    while i < v.len()
        invariant
            i <= v@.len(),
            b@ == le_bytes(v@.take(i as int)),
        decreases v@.len() - i,
    {
        let w: u32 = v[i];
        assert(v@.take(i + 1).drop_last() =~= v@.take(i as int));
        b.push((w % 256) as u8);
        b.push((w / 256 % 256) as u8);
        b.push((w / 65536 % 256) as u8);
        b.push((w / 16777216) as u8);
        assert(b@ =~= le_bytes(v@.take(i + 1)));
        i = i + 1;
    }
    proof {
        assert(v@.take(i as int) =~= v@);
        embedding_round_trip(v@);
    }
    base64_encode(&b)
}

/// The embedding of some bytes.
pub fn words_from_bytes(b: &[u8]) -> (r: Option<Vec<u32>>)
    ensures
        match r {
            Some(v) => embedding_of(Some(b@)) == Some(v@),
            None => embedding_of(Some(b@)) is None,
        },
{
    let n: usize = b.len();
    if n % 4 != 0 {
        return None;
    }
    let mut v: Vec<u32> = Vec::new();
    let mut i: usize = 0;
    while i < n
        invariant
            i <= n == b@.len(),
            i % 4 == 0,
            n % 4 == 0,
            v@ == le_words(b@.take(i as int)),
        decreases n - i,
    {
        proof {
            let c = b@.take(i + 4);
            assert(c.take(c.len() - 4) =~= b@.take(i as int));
            assert(word_at(c, i as int) == word_at(b@, i as int));
        }
        let w: u32 = b[i] as u32 + 256 * (b[i + 1] as u32) + 65536 * (b[i + 2] as u32) + 16777216 * (b[i
            + 3] as u32);
        v.push(w);
        i = i + 4;
    }
    assert(b@.take(i as int) =~= b@);
    Some(v)
}

/// The embedding of a stored form; nothing for a text that is not one.
pub fn decode_genre_embedding(s: &str) -> (r: Option<Vec<u32>>)
    ensures
        match r {
            Some(v) => embedding_of(base64_bytes(s@)) == Some(v@),
            None => embedding_of(base64_bytes(s@)) is None,
        },
{
    match base64_decode(s) {
        Some(b) => words_from_bytes(&b),
        None => None,
    }
}

} // verus!
