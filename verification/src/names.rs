//! Artist and title out of one name.

use vstd::prelude::*;
use crate::text::{
    chars_of, chars_views, find_from, first_of, is_whitespace, join, joined, occurs_at, part, split, split_of,
    stands_at, str_views, string_of, trim, trim_of, trim_start, trim_start_of, whitespace,
};

verus! {

/// The length of the leading run of characters that are not whitespace.
pub open spec fn word_len(s: Seq<char>) -> nat
    decreases s.len(),
{
    if s.len() == 0 || whitespace(s[0]) {
        0
    } else {
        1 + word_len(s.drop_first())
    }
}

/// The words of a text: what stands between runs of whitespace.
pub open spec fn words(s: Seq<char>) -> Seq<Seq<char>>
    decreases s.len(),
{
    if s.len() == 0 {
        seq![]
    } else if whitespace(s[0]) {
        words(s.drop_first())
    } else {
        let n = word_len(s) as int;
        if 0 < n <= s.len() {
            seq![s.take(n)] + words(s.skip(n))
        } else {
            seq![]
        }
    }
}

/// The words of a text with one space between them.
pub open spec fn collapsed(s: Seq<char>) -> Seq<char> {
    joined(words(s), " "@)
}

pub open spec fn ascii_digit(c: char) -> bool {
    '0' <= c <= '9'
}

/// The length of the leading run of digits.
pub open spec fn digits_len(s: Seq<char>) -> nat
    decreases s.len(),
{
    if s.len() == 0 || !ascii_digit(s[0]) {
        0
    } else {
        1 + digits_len(s.drop_first())
    }
}

/// What follows `pat` at the start of `rest`, when that is more than whitespace.
pub open spec fn after_pattern(rest: Seq<char>, pat: Seq<char>) -> Option<Seq<char>> {
    if occurs_at(rest, pat, 0) && trim_start_of(rest.skip(pat.len() as int)).len() > 0 {
        Some(trim_start_of(rest.skip(pat.len() as int)))
    } else {
        None
    }
}

/// A name without its leading track number: one to three digits and a separator.
pub open spec fn without_track_number(s: Seq<char>) -> Seq<char> {
    let n = digits_len(s) as int;
    if n == 0 || n > 3 {
        s
    } else {
        let rest = s.skip(n);
        match after_pattern(rest, ". "@) {
            Some(t) => t,
            None => match after_pattern(rest, " - "@) {
                Some(t) => t,
                None => match after_pattern(rest, " "@) {
                    Some(t) => t,
                    None => match after_pattern(rest, "_-_"@) {
                        Some(t) => t,
                        None => match after_pattern(rest, "-"@) {
                            Some(t) => t,
                            None => s,
                        },
                    },
                },
            },
        }
    }
}

/// What stands before and after the first `sep`, when neither is blank.
pub open spec fn around(s: Seq<char>, sep: Seq<char>) -> Option<(Seq<char>, Seq<char>)> {
    match first_of(s, sep) {
        Some(i) => {
            let artist = trim_of(s.take(i));
            let title = trim_of(s.skip(i + sep.len()));
            if artist.len() > 0 && title.len() > 0 {
                Some((artist, title))
            } else {
                None
            }
        },
        None => None,
    }
}

pub open spec fn ampersand_as_comma(c: char) -> char {
    if c == '&' {
        ','
    } else {
        c
    }
}

/// The pieces that are more than whitespace, trimmed.
pub open spec fn trimmed_pieces(pieces: Seq<Seq<char>>) -> Seq<Seq<char>>
    decreases pieces.len(),
{
    if pieces.len() == 0 {
        seq![]
    } else {
        let head = trimmed_pieces(pieces.drop_last());
        let last = trim_of(pieces.last());
        if last.len() > 0 {
            head.push(last)
        } else {
            head
        }
    }
}

/// The artists of a text, which commas and ampersands part.
pub open spec fn artists_of(s: Seq<char>) -> Seq<Seq<char>> {
    trimmed_pieces(split_of(s.map_values(|c: char| ampersand_as_comma(c)), ','))
}

/// The artists and the title of a name: whitespace is collapsed, a leading track number taken
/// off, and the first of the separators that parts two texts decides.
pub open spec fn artist_title(name: Seq<char>) -> (Seq<Seq<char>>, Seq<char>) {
    let s = without_track_number(collapsed(name));
    match around(s, " - "@) {
        Some((a, t)) => (artists_of(a), t),
        None => match around(s, " – "@) {
            Some((a, t)) => (artists_of(a), t),
            None => match around(s, "_-_"@) {
                Some((a, t)) => (artists_of(a), t),
                None => match around(s, " — "@) {
                    Some((a, t)) => (artists_of(a), t),
                    None => (seq![], s),
                },
            },
        },
    }
}

proof fn lemma_word_len(s: Seq<char>, n: int)
    requires
        0 <= n <= s.len(),
        forall|j: int| 0 <= j < n ==> !whitespace(s[j]),
        n == s.len() || whitespace(s[n]),
    ensures
        word_len(s) == n,
    decreases s.len(),
{
    if n > 0 {
        lemma_word_len(s.drop_first(), n - 1);
    }
}

fn collapse(s: &[char]) -> (r: Vec<char>)
    ensures
        r@ == collapsed(s@),
{
    let mut parts: Vec<Vec<char>> = Vec::new();
    let mut i: usize = 0;
    let n: usize = s.len();
    proof {
        assert(s@.skip(0) =~= s@);
        assert(chars_views(parts@) + words(s@) =~= words(s@));
    }
    while i < s.len()
        invariant
            i <= s@.len() == n,
            chars_views(parts@) + words(s@.skip(i as int)) == words(s@),
        decreases s@.len() - i,
    {
        let ghost rest = s@.skip(i as int);
        assert(rest[0] == s@[i as int]);
        if is_whitespace(s[i]) {
            assert(rest.drop_first() =~= s@.skip(i + 1));
            i = i + 1;
        } else {
            let mut j: usize = i + 1;
            while j < s.len() && !is_whitespace(s[j])
                invariant
                    i < j <= s@.len() == n,
                    forall|k: int| i <= k < j ==> !whitespace(s@[k]),
                decreases s@.len() - j,
            {
                j = j + 1;
            }
            let ghost before = parts@;
            parts.push(part(s, i, j));
            proof {
                let k = j - i;
                assert forall|m: int| 0 <= m < k implies !whitespace(rest[m]) by {
                    assert(rest[m] == s@[i + m]);
                }
                lemma_word_len(rest, k);
                assert(rest.take(k) =~= s@.subrange(i as int, j as int));
                assert(rest.skip(k) =~= s@.skip(j as int));
                assert(chars_views(parts@) =~= chars_views(before) + seq![rest.take(k)]);
                assert(chars_views(parts@) + words(s@.skip(j as int)) =~= chars_views(before)
                    + words(rest));
            }
            i = j;
        }
    }
    proof {
        assert(s@.skip(i as int).len() == 0);
        assert(chars_views(parts@) + words(s@.skip(i as int)) =~= chars_views(parts@));
    }
    let space = chars_of(" ");
    join(&parts, &space)
}

fn after(rest: &[char], pat: &str) -> (r: Option<Vec<char>>)
    ensures
        r is Some == after_pattern(rest@, pat@) is Some,
        r is Some ==> after_pattern(rest@, pat@) == Some(r->0@),
{
    let p = chars_of(pat);
    if !stands_at(rest, &p, 0) {
        return None;
    }
    let tail = part(rest, p.len(), rest.len());
    assert(tail@ =~= rest@.skip(pat@.len() as int));
    let t = trim_start(&tail);
    if t.len() > 0 {
        Some(t)
    } else {
        None
    }
}

proof fn lemma_digits_len(s: Seq<char>, n: int)
    requires
        0 <= n <= s.len(),
        forall|j: int| 0 <= j < n ==> ascii_digit(s[j]),
        n == s.len() || !ascii_digit(s[n]),
    ensures
        digits_len(s) == n,
    decreases s.len(),
{
    if n > 0 {
        lemma_digits_len(s.drop_first(), n - 1);
    }
}

/// Takes a leading track number off a name.
pub fn strip_leading_track_number(s: &[char]) -> (r: Vec<char>)
    ensures
        r@ == without_track_number(s@),
{
    let mut n: usize = 0;
    while n < s.len() && '0' <= s[n] && s[n] <= '9'
        invariant
            n <= s@.len(),
            forall|j: int| 0 <= j < n ==> ascii_digit(s@[j]),
        decreases s@.len() - n,
    {
        n = n + 1;
    }
    proof {
        lemma_digits_len(s@, n as int);
        assert(s@.subrange(0, s@.len() as int) =~= s@);
    }
    if n == 0 || n > 3 {
        return part(s, 0, s.len());
    }
    let rest = part(s, n, s.len());
    assert(rest@ =~= s@.skip(n as int));
    if let Some(t) = after(&rest, ". ") {
        return t;
    }
    if let Some(t) = after(&rest, " - ") {
        return t;
    }
    if let Some(t) = after(&rest, " ") {
        return t;
    }
    if let Some(t) = after(&rest, "_-_") {
        return t;
    }
    if let Some(t) = after(&rest, "-") {
        return t;
    }
    part(s, 0, s.len())
}

fn split_around(s: &[char], sep: &str) -> (r: Option<(Vec<char>, Vec<char>)>)
    ensures
        match r {
            Some((a, t)) => around(s@, sep@) == Some((a@, t@)),
            None => around(s@, sep@) is None,
        },
{
    let p = chars_of(sep);
    let n: usize = s.len();
    match find_from(s, &p, 0) {
        None => None,
        Some(i) => {
            let head = part(s, 0, i);
            let tail = part(s, i + p.len(), n);
            assert(head@ =~= s@.take(i as int));
            assert(tail@ =~= s@.skip(i + sep@.len()));
            let a = trim(&head);
            let t = trim(&tail);
            if a.len() > 0 && t.len() > 0 {
                Some((a, t))
            } else {
                None
            }
        },
    }
}

/// The pieces that are more than whitespace, trimmed, as strings.
pub fn trimmed_strings(pieces: &Vec<Vec<char>>) -> (r: Vec<String>)
    ensures
        str_views(r@) == trimmed_pieces(chars_views(pieces@)),
{
    let ghost all = chars_views(pieces@);
    let mut out: Vec<String> = Vec::new();
    let mut i: usize = 0;
    while i < pieces.len()
        invariant
            i <= pieces@.len(),
            all == chars_views(pieces@),
            str_views(out@) == trimmed_pieces(all.take(i as int)),
        decreases pieces@.len() - i,
    {
        let t = trim(&pieces[i]);
        proof {
            assert(all.take(i + 1).drop_last() =~= all.take(i as int));
            assert(all.take(i + 1).last() == pieces@[i as int]@);
        }
        if t.len() > 0 {
            let ghost before = out@;
            out.push(string_of(&t));
            assert(str_views(out@) =~= str_views(before).push(t@));
        }
        i = i + 1;
    }
    assert(all.take(i as int) =~= all);
    out
}

fn split_artists(s: &[char]) -> (r: Vec<String>)
    ensures
        str_views(r@) == artists_of(s@),
{
    let mut c: Vec<char> = Vec::new();
    let mut i: usize = 0;
    while i < s.len()
        invariant
            i <= s@.len(),
            c@.len() == i,
            forall|j: int| 0 <= j < i ==> c@[j] == ampersand_as_comma(s@[j]),
        decreases s@.len() - i,
    {
        if s[i] == '&' {
            c.push(',');
        } else {
            c.push(s[i]);
        }
        i = i + 1;
    }
    assert(c@ =~= s@.map_values(|c: char| ampersand_as_comma(c)));
    let pieces = split(&c, ',');
    trimmed_strings(&pieces)
}

/// Splits a name like "Artist - Title". Without a separator there are no artists and the whole
/// name is the title.
pub fn parse_artist_title(name: &str) -> (r: (Vec<String>, String))
    ensures
        (str_views(r.0@), r.1@) == artist_title(name@),
{
    let c = chars_of(name);
    let flat = collapse(&c);
    let s = strip_leading_track_number(&flat);
    if let Some((a, t)) = split_around(&s, " - ") {
        return (split_artists(&a), string_of(&t));
    }
    if let Some((a, t)) = split_around(&s, " – ") {
        return (split_artists(&a), string_of(&t));
    }
    if let Some((a, t)) = split_around(&s, "_-_") {
        return (split_artists(&a), string_of(&t));
    }
    if let Some((a, t)) = split_around(&s, " — ") {
        return (split_artists(&a), string_of(&t));
    }
    let none: Vec<String> = Vec::new();
    assert(str_views(none@) =~= Seq::<Seq<char>>::empty());
    (none, string_of(&s))
}

} // verus!
