//! 128-bit identifiers and their text.

use vstd::prelude::*;
use vstd::arithmetic::power::{lemma_pow1, lemma_pow_adds, lemma_pow_positive, pow};

verus! {

/// Whether the bits of an identifier mark it as a random one (version 4, RFC 4122 variant).
pub open spec fn random_uuid(id: u128) -> bool {
    id & 0xf000_c000_0000_0000_0000u128 == 0x4000_8000_0000_0000_0000u128
}

/// `uuid::Uuid::new_v4`: a random identifier; only its version and variant bits are known.
#[verifier::external_body]
pub(crate) fn new_uuid() -> (r: u128)
    ensures
        random_uuid(r),
{
    uuid::Uuid::new_v4().as_u128()
}

/// A random identifier is none of the smallest ones.
pub proof fn random_uuid_not_small(id: u128)
    requires
        random_uuid(id),
    ensures
        id > 2,
{
    assert(id & 0xf000_c000_0000_0000_0000u128 == 0x4000_8000_0000_0000_0000u128 ==> id > 2)
        by (bit_vector);
}

/// The lower-case hexadecimal digit of a number below 16.
pub open spec fn hex_lower(d: nat) -> char {
    if d < 10 {
        (48 + d) as u8 as char
    } else {
        (87 + d) as u8 as char
    }
}

/// The value of a hexadecimal digit of either case.
pub open spec fn hex_value(c: char) -> Option<nat> {
    if '0' <= c <= '9' {
        Some((c as nat - 48) as nat)
    } else if 'a' <= c <= 'f' {
        Some((c as nat - 87) as nat)
    } else if 'A' <= c <= 'F' {
        Some((c as nat - 55) as nat)
    } else {
        None
    }
}

/// The last `n` hexadecimal digits of a number, the highest first.
pub open spec fn hex_digits(v: nat, n: nat) -> Seq<char>
    decreases n,
{
    if n == 0 {
        seq![]
    } else {
        hex_digits(v / 16, (n - 1) as nat).push(hex_lower(v % 16))
    }
}

/// The number that a row of hexadecimal digits writes.
pub open spec fn hex_number(s: Seq<char>) -> Option<nat>
    decreases s.len(),
{
    if s.len() == 0 {
        Some(0)
    } else {
        match (hex_number(s.drop_last()), hex_value(s.last())) {
            (Some(h), Some(d)) => Some(h * 16 + d),
            _ => None,
        }
    }
}

/// 32 characters in five groups with hyphens between them.
pub open spec fn grouped(h: Seq<char>) -> Seq<char> {
    h.subrange(0, 8) + seq!['-'] + h.subrange(8, 12) + seq!['-'] + h.subrange(12, 16) + seq!['-']
        + h.subrange(16, 20) + seq!['-'] + h.subrange(20, 32)
}

/// The hyphenated text of an identifier.
pub open spec fn uuid_text(id: u128) -> Seq<char> {
    grouped(hex_digits(id as nat, 32))
}

/// The identifier of a hyphenated text of 36 characters.
pub open spec fn grouped_value(s: Seq<char>) -> Option<u128> {
    if s.len() == 36 && s[8] == '-' && s[13] == '-' && s[18] == '-' && s[23] == '-' {
        plain_value(
            s.subrange(0, 8) + s.subrange(9, 13) + s.subrange(14, 18) + s.subrange(19, 23)
                + s.subrange(24, 36),
        )
    } else {
        None
    }
}

/// The identifier of 32 hexadecimal digits.
pub open spec fn plain_value(s: Seq<char>) -> Option<u128> {
    if s.len() == 32 {
        match hex_number(s) {
            Some(n) => Some(n as u128),
            None => None,
        }
    } else {
        None
    }
}

/// The identifier that a text writes: plain, hyphenated, in braces or as a URN.
pub open spec fn uuid_value(s: Seq<char>) -> Option<u128> {
    if s.len() == 32 {
        plain_value(s)
    } else if s.len() == 36 {
        grouped_value(s)
    } else if s.len() == 38 && s[0] == '{' && s[37] == '}' {
        grouped_value(s.subrange(1, 37))
    } else if s.len() == 45 && crate::text::ascii_lower_of(s.take(9)) == "urn:uuid:"@ {
        grouped_value(s.skip(9))
    } else {
        None
    }
}

/// `uuid::Uuid`'s `Display`: the hyphenated text in lower case.
#[verifier::external_body]
pub(crate) fn uuid_to_text(id: u128) -> (r: String)
    ensures
        r@ == uuid_text(id),
{
    uuid::Uuid::from_u128(id).to_string()
}

/// The `Display` of `uuid::Uuid::simple`: the 32 digits in lower case, without hyphens.
#[verifier::external_body]
pub(crate) fn uuid_to_digits(id: u128) -> (r: String)
    ensures
        r@ == hex_digits(id as nat, 32),
{
    uuid::Uuid::from_u128(id).simple().to_string()
}

/// `uuid::Uuid::parse_str`: reads the plain, the hyphenated, the braced and the URN form.
#[verifier::external_body]
pub(crate) fn uuid_from_text(s: &str) -> (r: Option<u128>)
    ensures
        r == uuid_value(s@),
{
    uuid::Uuid::parse_str(s).ok().map(|u| u.as_u128())
}

pub open spec fn hex_or_hyphen(c: char) -> bool {
    ('0' <= c <= '9') || ('a' <= c <= 'f') || c == '-'
}

proof fn lemma_hex_digits(v: nat, n: nat)
    ensures
        hex_digits(v, n).len() == n,
        forall|i: int| 0 <= i < n ==> hex_or_hyphen(#[trigger] hex_digits(v, n)[i]),
        v < pow(16, n) ==> hex_number(hex_digits(v, n)) == Some(v),
    decreases n,
{
    if n > 0 {
        let m = (n - 1) as nat;
        lemma_hex_digits(v / 16, m);
        lemma_pow_adds(16, m, 1);
        lemma_pow1(16);
        assert(hex_digits(v, n).drop_last() =~= hex_digits(v / 16, m));
        if v < pow(16, n) {
            assert(v / 16 < pow(16, m)) by (nonlinear_arith)
                requires
                    v < pow(16, n),
                    pow(16, n) == pow(16, m) * 16,
            ;
        }
    } else {
        reveal(pow);
    }
}

/// The text of an identifier reads back as the identifier; it has 36 characters, hexadecimal
/// digits and hyphens.
pub proof fn uuid_round_trip(id: u128)
    ensures
        uuid_value(uuid_text(id)) == Some(id),
        uuid_text(id).len() == 36,
        forall|i: int| 0 <= i < 36 ==> hex_or_hyphen(#[trigger] uuid_text(id)[i]),
{
    let h = hex_digits(id as nat, 32);
    lemma_hex_digits(id as nat, 32);
    assert(pow(16, 32) == 0x1_0000_0000_0000_0000_0000_0000_0000_0000) by {
        lemma_pow1(16);
        lemma_pow_adds(16, 1, 1);
        assert(pow(16, 2) == 0x100);
        lemma_pow_adds(16, 2, 2);
        assert(pow(16, 4) == 0x1_0000);
        lemma_pow_adds(16, 4, 4);
        assert(pow(16, 8) == 0x1_0000_0000);
        lemma_pow_adds(16, 8, 8);
        assert(pow(16, 16) == 0x1_0000_0000_0000_0000);
        lemma_pow_adds(16, 16, 16);
    }
    let s = uuid_text(id);
    assert(s.len() == 36);
    assert(s.subrange(0, 8) + s.subrange(9, 13) + s.subrange(14, 18) + s.subrange(19, 23)
        + s.subrange(24, 36) =~= h);
    assert forall|i: int| 0 <= i < 36 implies hex_or_hyphen(#[trigger] s[i]) by {
        let k = if i < 8 {
            i
        } else if i < 13 {
            i - 1
        } else if i < 18 {
            i - 2
        } else if i < 23 {
            i - 3
        } else {
            i - 4
        };
        if i != 8 && i != 13 && i != 18 && i != 23 {
            assert(s[i] == h[k]);
        }
    }
}

} // verus!
