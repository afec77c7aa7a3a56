//! The percent escapes of the playlist format.

use vstd::prelude::*;
use vstd::utf8::{
    char_is_scalar, decode_utf8, encode_scalar, encode_utf8, encode_utf8_decode_utf8, encode_utf8_valid_utf8,
    has_width_1_encoding, has_width_2_encoding, has_width_3_encoding, is_scalar, leading_byte_width_1,
    leading_byte_width_2, leading_byte_width_3, leading_byte_width_4, last_continuation_byte,
    second_last_continuation_byte, third_last_continuation_byte, valid_utf8,
};
use crate::text::{chars_of, string_of, whitespace};

verus! {

/// The characters that are escaped; `#` only at the start of a text.
pub open spec fn must_escape(c: char, first: bool) -> bool {
    c == '%' || c == '|' || c == ';' || c == '=' || c == '\n' || c == '\r' || (c == '#' && first)
}

/// The upper-case hexadecimal digit of a number below 16.
pub open spec fn hex_upper(d: nat) -> char {
    if d < 10 {
        (48 + d) as u8 as char
    } else {
        (55 + d) as u8 as char
    }
}

/// A character as it stands in an escaped text.
pub open spec fn escape(c: char, first: bool) -> Seq<char> {
    if must_escape(c, first) {
        seq!['%', hex_upper(c as nat / 16), hex_upper(c as nat % 16)]
    } else {
        seq![c]
    }
}

pub open spec fn encoded_from(s: Seq<char>, first: bool) -> Seq<char>
    decreases s.len(),
{
    if s.len() == 0 {
        seq![]
    } else {
        escape(s[0], first) + encoded_from(s.drop_first(), false)
    }
}

/// The escaped text.
pub open spec fn pct_encoded(s: Seq<char>) -> Seq<char> {
    encoded_from(s, true)
}

/// The value of a byte that is a hexadecimal digit.
pub open spec fn nibble(b: u8) -> Option<nat> {
    if 48 <= b <= 57 {
        Some((b - 48) as nat)
    } else if 65 <= b <= 70 {
        Some((b - 55) as nat)
    } else if 97 <= b <= 102 {
        Some((b - 87) as nat)
    } else {
        None
    }
}

/// The byte that two hexadecimal digits write.
pub open spec fn escaped_byte(a: u8, b: u8) -> Option<u8> {
    match (nibble(a), nibble(b)) {
        (Some(x), Some(y)) => Some((x * 16 + y) as u8),
        _ => None,
    }
}

/// The byte that a hexadecimal number of two characters writes; the first may be a plus sign.
pub open spec fn pair_value(a: u8, b: u8) -> Option<u8> {
    match (nibble(a), nibble(b)) {
        (Some(x), Some(y)) => Some((x * 16 + y) as u8),
        (None, Some(y)) => if a == 43 {
            Some(y as u8)
        } else {
            None
        },
        _ => None,
    }
}

/// The bytes with every escape undone; a percent sign that starts no escape stays.
pub open spec fn decoded_bytes(b: Seq<u8>) -> Seq<u8>
    decreases b.len(),
{
    if b.len() == 0 {
        seq![]
    } else if b[0] == 37 && b.len() > 2 && escaped_byte(b[1], b[2]) is Some {
        seq![escaped_byte(b[1], b[2])->0] + decoded_bytes(b.skip(3))
    } else {
        seq![b[0]] + decoded_bytes(b.drop_first())
    }
}

/// What `String::from_utf8_lossy` makes of bytes that are not UTF-8.
pub uninterp spec fn utf8_lossy(b: Seq<u8>) -> Seq<char>;

/// The text with every escape undone.
pub open spec fn pct_decoded(s: Seq<char>) -> Seq<char> {
    let b = decoded_bytes(encode_utf8(s));
    if valid_utf8(b) {
        decode_utf8(b)
    } else {
        utf8_lossy(b)
    }
}

/// `String::from_utf8_lossy`: the text of bytes that are UTF-8; of other bytes the result is
/// named `utf8_lossy`.
#[verifier::external_body]
fn from_utf8_lossy(b: &[u8]) -> (r: String)
    ensures
        r@ == (if valid_utf8(b@) {
            decode_utf8(b@)
        } else {
            utf8_lossy(b@)
        }),
{
    String::from_utf8_lossy(b).into_owned()
}

fn hex_upper_char(d: u32) -> (r: char)
    requires
        d < 16,
    ensures
        r == hex_upper(d as nat),
{
    if d < 10 {
        (48 + d as u8) as char
    } else {
        (55 + d as u8) as char
    }
}

/// Escapes `%`, `|`, `;`, `=`, line ends, and a leading `#`.
pub fn pct_encode(s: &str) -> (r: String)
    ensures
        r@ == pct_encoded(s@),
        pct_decoded(r@) == s@,
{
    let c = chars_of(s);
    let mut out: Vec<char> = Vec::new();
    let mut i: usize = 0;
    proof {
        assert(c@.skip(0) =~= c@);
        assert(out@ + encoded_from(c@.skip(0), true) =~= encoded_from(c@, true));
    }
    while i < c.len()
        invariant
            i <= c@.len(),
            out@ + encoded_from(c@.skip(i as int), i == 0) == pct_encoded(c@),
        decreases c@.len() - i,
    {
        let ghost rest = c@.skip(i as int);
        let ghost before = out@;
        let ch = c[i];
        assert(rest[0] == ch);
        assert(rest.drop_first() =~= c@.skip(i + 1));
        if ch == '%' || ch == '|' || ch == ';' || ch == '=' || ch == '\n' || ch == '\r' || (ch == '#'
            && i == 0) {
            out.push('%');
            out.push(hex_upper_char(ch as u32 / 16));
            out.push(hex_upper_char(ch as u32 % 16));
        } else {
            out.push(ch);
        }
        proof {
            assert(out@ =~= before + escape(ch, i == 0));
            assert(out@ + encoded_from(c@.skip(i + 1), false) =~= before + encoded_from(
                rest,
                i == 0,
            ));
        }
        i = i + 1;
    }
    proof {
        assert(c@.skip(i as int).len() == 0);
        assert(out@ + encoded_from(c@.skip(i as int), i == 0) =~= out@);
        pct_round_trip(s@);
    }
    string_of(&out)
}

fn nibble_of(b: u8) -> (r: Option<u8>)
    ensures
        r is Some == nibble(b) is Some,
        r is Some ==> nibble(b) == Some(r->0 as nat) && r->0 < 16,
{
    if 48 <= b && b <= 57 {
        Some(b - 48)
    } else if 65 <= b && b <= 70 {
        Some(b - 55)
    } else if 97 <= b && b <= 102 {
        Some(b - 87)
    } else {
        None
    }
}

fn escaped_byte_of(a: u8, b: u8) -> (r: Option<u8>)
    ensures
        r == escaped_byte(a, b),
{
    match (nibble_of(a), nibble_of(b)) {
        (Some(x), Some(y)) => Some(x * 16 + y),
        _ => None,
    }
}

pub(crate) fn pair_of(a: u8, b: u8) -> (r: Option<u8>)
    ensures
        r == pair_value(a, b),
{
    match nibble_of(b) {
        None => None,
        Some(y) => match nibble_of(a) {
            Some(x) => Some(x * 16 + y),
            None => if a == 43 {
                Some(y)
            } else {
                None
            },
        },
    }
}

/// Undoes the escapes; a percent sign that starts no escape is kept.
pub fn pct_decode(s: &str) -> (r: String)
    ensures
        r@ == pct_decoded(s@),
{
    let b = s.as_bytes();
    let n: usize = b.len();
    let mut out: Vec<u8> = Vec::new();
    let mut i: usize = 0;
    proof {
        assert(b@.skip(0) =~= b@);
        assert(out@ + decoded_bytes(b@) =~= decoded_bytes(b@));
    }
    while i < n
        invariant
            i <= b@.len() == n,
            out@ + decoded_bytes(b@.skip(i as int)) == decoded_bytes(b@),
        decreases n - i,
    {
        let ghost rest = b@.skip(i as int);
        let ghost before = out@;
        assert(rest[0] == b@[i as int]);
        if b[i] == 37 && n - i > 2 {
            assert(rest[1] == b@[i + 1] && rest[2] == b@[i + 2]);
            if let Some(v) = escaped_byte_of(b[i + 1], b[i + 2]) {
                out.push(v);
                proof {
                    assert(rest.skip(3) =~= b@.skip(i + 3));
                    assert(out@ + decoded_bytes(b@.skip(i + 3)) =~= before + decoded_bytes(rest));
                }
                i = i + 3;
                continue;
            }
        }
        out.push(b[i]);
        proof {
            assert(rest.drop_first() =~= b@.skip(i + 1));
            assert(out@ + decoded_bytes(b@.skip(i + 1)) =~= before + decoded_bytes(rest));
        }
        i = i + 1;
    }
    proof {
        assert(b@.skip(i as int).len() == 0);
        assert(out@ + decoded_bytes(b@.skip(i as int)) =~= out@);
    }
    from_utf8_lossy(&out)
}

/// The bytes of a character are one byte below 128, or all at least 128.
proof fn lemma_scalar_bytes(c: char)
    ensures
        (c as u32) < 128 ==> encode_scalar(c as u32) == seq![c as u8],
        (c as u32) >= 128 ==> forall|i: int|
            0 <= i < encode_scalar(c as u32).len() ==> #[trigger] encode_scalar(c as u32)[i] >= 128,
        encode_scalar(c as u32).len() >= 1,
{
    let v = c as u32;
    char_is_scalar(c);
    if v < 128 {
        assert(v < 128 ==> (v & 0x7F) as u8 == v as u8) by (bit_vector);
        assert(leading_byte_width_1(v) == v as u8);
        assert(c as u8 == v as u8);
    } else {
        assert(0xC0u8 | ((v >> 6) & 0x1F) as u8 >= 128) by (bit_vector);
        assert(0xE0u8 | ((v >> 12) & 0x0F) as u8 >= 128) by (bit_vector);
        assert(0xF0u8 | ((v >> 18) & 0x07) as u8 >= 128) by (bit_vector);
        assert(0x80u8 | (v & 0x3F) as u8 >= 128) by (bit_vector);
        assert(0x80u8 | ((v >> 6) & 0x3F) as u8 >= 128) by (bit_vector);
        assert(0x80u8 | ((v >> 12) & 0x3F) as u8 >= 128) by (bit_vector);
    }
}

/// Only the percent sign has its byte.
proof fn lemma_percent_byte(c: char)
    ensures
        (c as u32) < 128 && c as u8 == 37 ==> c == '%',
{
}

/// Bytes that hold no percent sign at their start pass through.
proof fn lemma_decode_plain(p: Seq<u8>, b: Seq<u8>)
    requires
        forall|i: int| 0 <= i < p.len() ==> p[i] != 37,
    ensures
        decoded_bytes(p + b) == p + decoded_bytes(b),
    decreases p.len(),
{
    if p.len() == 0 {
        assert(p + b =~= b);
        assert(p + decoded_bytes(b) =~= decoded_bytes(b));
    } else {
        lemma_decode_plain(p.drop_first(), b);
        assert((p + b).drop_first() =~= p.drop_first() + b);
        assert(seq![p[0]] + (p.drop_first() + decoded_bytes(b)) =~= p + decoded_bytes(b));
    }
}

proof fn lemma_encode_utf8_concat(a: Seq<char>, b: Seq<char>)
    ensures
        encode_utf8(a + b) == encode_utf8(a) + encode_utf8(b),
    decreases a.len(),
{
    if a.len() == 0 {
        assert(a + b =~= b);
        assert(encode_utf8(a) + encode_utf8(b) =~= encode_utf8(b));
    } else {
        lemma_encode_utf8_concat(a.drop_first(), b);
        assert((a + b).drop_first() =~= a.drop_first() + b);
        assert(encode_utf8(a + b) =~= encode_utf8(a) + encode_utf8(b));
    }
}

proof fn lemma_decode_encoded(s: Seq<char>, first: bool)
    ensures
        decoded_bytes(encode_utf8(encoded_from(s, first))) == encode_utf8(s),
    decreases s.len(),
{
    if s.len() > 0 {
        let c = s[0];
        let tail = encoded_from(s.drop_first(), false);
        lemma_decode_encoded(s.drop_first(), false);
        lemma_encode_utf8_concat(escape(c, first), tail);
        lemma_scalar_bytes(c);
        let rest = encode_utf8(tail);
        if must_escape(c, first) {
            let h = hex_upper(c as nat / 16);
            let l = hex_upper(c as nat % 16);
            assert(escape(c, first).drop_first() =~= seq![h, l]);
            assert(escape(c, first).drop_first().drop_first() =~= seq![l]);
            assert(seq![l].drop_first() =~= Seq::<char>::empty());
            lemma_scalar_bytes('%');
            lemma_scalar_bytes(h);
            lemma_scalar_bytes(l);
            assert(encode_utf8(Seq::<char>::empty()) =~= seq![]);
            assert(encode_utf8(seq![l]) =~= seq![l as u8]);
            assert(encode_utf8(seq![h, l]) =~= seq![h as u8, l as u8]);
            assert(encode_utf8(escape(c, first)) =~= seq![37u8, h as u8, l as u8]);
            let all = seq![37u8, h as u8, l as u8] + rest;
            assert(escaped_byte(h as u8, l as u8) == Some(c as u8));
            assert(all.skip(3) =~= rest);
            assert(decoded_bytes(all) == seq![c as u8] + decoded_bytes(rest));
        } else {
            assert(escape(c, first).drop_first() =~= Seq::<char>::empty());
            assert(encode_utf8(Seq::<char>::empty()) =~= seq![]);
            assert(encode_utf8(escape(c, first)) =~= encode_scalar(c as u32));
            let e = encode_scalar(c as u32);
            assert forall|i: int| 0 <= i < e.len() implies e[i] != 37 by {
                lemma_percent_byte(c);
            }
            lemma_decode_plain(e, rest);
        }
    }
}

/// Escaping and undoing the escapes gives the text back.
pub proof fn pct_round_trip(s: Seq<char>)
    ensures
        pct_decoded(pct_encoded(s)) == s,
{
    lemma_decode_encoded(s, true);
    encode_utf8_valid_utf8(s);
    encode_utf8_decode_utf8(s);
}

/// An escaped text holds none of the characters that part fields and lines.
pub proof fn pct_encoded_is_one_field(s: Seq<char>)
    ensures
        forall|i: int|
            0 <= i < pct_encoded(s).len() ==> {
                let c = #[trigger] pct_encoded(s)[i];
                c != '|' && c != ';' && c != '=' && c != '\n' && c != '\r'
            },
        s.len() > 0 ==> pct_encoded(s).len() > 0,
        s.len() > 0 && (!whitespace(s.last()) || s.last() == '\n' || s.last() == '\r')
            ==> !whitespace(pct_encoded(s).last()),
{
    lemma_encoded_field(s, true);
}

/// A text with nothing to escape is its own escaped form, and its own decoded form.
pub proof fn pct_encoded_plain(s: Seq<char>)
    requires
        forall|i: int| 0 <= i < s.len() ==> !must_escape(s[i], true),
    ensures
        pct_encoded(s) == s,
        pct_decoded(s) == s,
{
    lemma_encoded_plain(s, true);
    pct_round_trip(s);
}

proof fn lemma_encoded_plain(s: Seq<char>, first: bool)
    requires
        forall|i: int| 0 <= i < s.len() ==> !must_escape(s[i], true),
    ensures
        encoded_from(s, first) == s,
    decreases s.len(),
{
    if s.len() > 0 {
        let t = s.drop_first();
        assert forall|i: int| 0 <= i < t.len() implies !must_escape(t[i], true) by {
            assert(t[i] == s[i + 1]);
        }
        lemma_encoded_plain(t, false);
        assert(!must_escape(s[0], true));
        assert(encoded_from(s, first) =~= s);
    }
}

proof fn lemma_encoded_field(s: Seq<char>, first: bool)
    ensures
        forall|i: int|
            0 <= i < encoded_from(s, first).len() ==> {
                let c = #[trigger] encoded_from(s, first)[i];
                c != '|' && c != ';' && c != '=' && c != '\n' && c != '\r'
            },
        s.len() > 0 ==> encoded_from(s, first).len() > 0,
        s.len() > 0 && (!whitespace(s.last()) || s.last() == '\n' || s.last() == '\r')
            ==> !whitespace(encoded_from(s, first).last()),
    decreases s.len(),
{
    if s.len() > 0 {
        lemma_encoded_field(s.drop_first(), false);
        let head = escape(s[0], first);
        let tail = encoded_from(s.drop_first(), false);
        assert(encoded_from(s, first) == head + tail);
        assert forall|i: int| 0 <= i < (head + tail).len() implies {
            let c = #[trigger] (head + tail)[i];
            c != '|' && c != ';' && c != '=' && c != '\n' && c != '\r'
        } by {
            if i < head.len() {
                assert((head + tail)[i] == head[i]);
            } else {
                assert((head + tail)[i] == tail[i - head.len()]);
            }
        }
        if s.len() == 1 {
            assert(tail.len() == 0);
            assert((head + tail).last() == head.last());
        } else {
            assert(s.drop_first().last() == s.last());
            assert((head + tail).last() == tail.last());
        }
    }
}

} // verus!
