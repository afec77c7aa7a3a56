//! Whether two tracks are the same recording.

use vstd::prelude::*;
use crate::text::{
    alphanumeric, ascii_lower, ascii_lower_of, ascii_text, ascii_upper, ascii_upper_of, chars_of, find_from, first_from,
    first_of, is_alphanumeric, lowercase_of, part, same_chars, same_text, string_of, to_ascii_lower, to_lowercase, trim,
    trim_end_of, trim_of, trim_start_of, whitespace,
};
use crate::types::{LinkReason, Track, TrackView};
use unicode_normalization::UnicodeNormalization;

verus! {

/// The compatibility decomposition (NFKD) of a text, as the `unicode-normalization` crate gives
/// it.
pub uninterp spec fn nfkd_of(s: Seq<char>) -> Seq<char>;

/// `UnicodeNormalization::nfkd`; the result is named `nfkd_of`. An ASCII text is left as it is.
#[verifier::external_body]
fn nfkd(s: &str) -> (r: String)
    ensures
        r@ == nfkd_of(s@),
        ascii_text(s@) ==> r@ == s@,
{
    s.nfkd().collect()
}

/// Diacritics that stand behind their letter.
pub open spec fn combining_mark(c: char) -> bool {
    let n = c as u32;
    (0x300 <= n <= 0x36f) || (0x1ab0 <= n <= 0x1aff) || (0x1dc0 <= n <= 0x1dff) || (0x20d0 <= n
        <= 0x20ff) || (0xfe20 <= n <= 0xfe2f)
}

pub fn is_combining_mark(c: char) -> (r: bool)
    ensures
        r == combining_mark(c),
{
    let n: u32 = c as u32;
    (0x300 <= n && n <= 0x36f) || (0x1ab0 <= n && n <= 0x1aff) || (0x1dc0 <= n && n <= 0x1dff) || (
    0x20d0 <= n && n <= 0x20ff) || (0xfe20 <= n && n <= 0xfe2f)
}

/// The text without diacritics.
pub open spec fn without_marks(s: Seq<char>) -> Seq<char> {
    s.filter(|c: char| !combining_mark(c))
}

/// The text without what stands in round or square brackets; `p` and `b` brackets of each kind
/// are open.
pub open spec fn without_brackets(s: Seq<char>, p: nat, b: nat) -> Seq<char>
    decreases s.len(),
{
    if s.len() == 0 {
        seq![]
    } else {
        let c = s[0];
        let rest = s.drop_first();
        if c == '(' {
            without_brackets(rest, p + 1, b)
        } else if c == ')' {
            without_brackets(rest, if p > 0 {
                (p - 1) as nat
            } else {
                0
            }, b)
        } else if c == '[' {
            without_brackets(rest, p, b + 1)
        } else if c == ']' {
            without_brackets(rest, p, if b > 0 {
                (b - 1) as nat
            } else {
                0
            })
        } else if p > 0 || b > 0 {
            without_brackets(rest, p, b)
        } else {
            seq![c] + without_brackets(rest, p, b)
        }
    }
}

/// The text up to the first `marker`.
pub open spec fn cut_at(s: Seq<char>, marker: Seq<char>) -> Seq<char> {
    match first_of(s, marker) {
        Some(i) => s.take(i),
        None => s,
    }
}

/// The text without a tail that names guests.
pub open spec fn without_guests(s: Seq<char>) -> Seq<char> {
    cut_at(cut_at(cut_at(cut_at(cut_at(s, " feat."@), " feat "@), " ft."@), " ft "@), " featuring "@)
}

/// The text with each run of other characters than letters and digits as one space; `spaced`
/// when a space was just written.
pub open spec fn spaced_out(s: Seq<char>, spaced: bool) -> Seq<char>
    decreases s.len(),
{
    if s.len() == 0 {
        seq![]
    } else if alphanumeric(s[0]) {
        seq![s[0]] + spaced_out(s.drop_first(), false)
    } else if spaced {
        spaced_out(s.drop_first(), true)
    } else {
        seq![' '] + spaced_out(s.drop_first(), true)
    }
}

/// The compared form of a text that is lower-case and decomposed.
pub open spec fn compared_of(d: Seq<char>) -> Seq<char> {
    trim_of(spaced_out(without_guests(without_brackets(without_marks(d), 0, 0)), false))
}

/// The form of a title or a name in which two are compared.
pub open spec fn norm_of(s: Seq<char>) -> Seq<char> {
    compared_of(nfkd_of(lowercase_of(s)))
}

/// Letters and digits with single spaces between words and none at either end.
pub open spec fn tidy(s: Seq<char>) -> bool {
    &&& forall|i: int| 0 <= i < s.len() ==> alphanumeric(#[trigger] s[i]) || s[i] == ' '
    &&& s.len() > 0 ==> s[0] != ' ' && s.last() != ' '
    &&& single_spaced(s)
}

pub open spec fn single_spaced(s: Seq<char>) -> bool {
    forall|i: int, j: int| 0 <= i < j < s.len() && j == i + 1 ==> !(#[trigger] s[i] == ' ' && #[trigger] s[j] == ' ')
}

fn drop_marks(s: &[char]) -> (r: Vec<char>)
    ensures
        r@ == without_marks(s@),
{
    let mut out: Vec<char> = Vec::new();
    let mut i: usize = 0;
    let ghost keep = |c: char| !combining_mark(c);
    proof {
        reveal(Seq::filter);
        assert(s@.take(0).filter(keep) =~= Seq::<char>::empty());
    }
    while i < s.len()
        invariant
            i <= s@.len(),
            keep == (|c: char| !combining_mark(c)),
            out@ == s@.take(i as int).filter(keep),
        decreases s@.len() - i,
    {
        proof {
            s@.take(i as int).lemma_filter_push(s@[i as int], keep);
            assert(s@.take(i + 1) =~= s@.take(i as int).push(s@[i as int]));
        }
        if !is_combining_mark(s[i]) {
            out.push(s[i]);
        }
        i = i + 1;
    }
    assert(s@.take(i as int) =~= s@);
    out
}

fn drop_brackets(s: &[char]) -> (r: Vec<char>)
    ensures
        r@ == without_brackets(s@, 0, 0),
{
    let mut out: Vec<char> = Vec::new();
    let mut i: usize = 0;
    let mut p: usize = 0;
    let mut b: usize = 0;
    let n: usize = s.len();
    proof {
        assert(s@.skip(0) =~= s@);
        assert(out@ + without_brackets(s@, 0, 0) =~= without_brackets(s@, 0, 0));
    }
    while i < n
        invariant
            i <= s@.len() == n,
            p <= i,
            b <= i,
            out@ + without_brackets(s@.skip(i as int), p as nat, b as nat) == without_brackets(
                s@,
                0,
                0,
            ),
        decreases n - i,
    {
        let c = s[i];
        let ghost rest = s@.skip(i as int);
        let ghost before = out@;
        let ghost p0 = p as nat;
        let ghost b0 = b as nat;
        proof {
            assert(rest[0] == c);
            assert(rest.drop_first() =~= s@.skip(i + 1));
        }
        if c == '(' {
            p = p + 1;
        } else if c == ')' {
            if p > 0 {
                p = p - 1;
            }
        } else if c == '[' {
            b = b + 1;
        } else if c == ']' {
            if b > 0 {
                b = b - 1;
            }
        } else if p > 0 || b > 0 {
        } else {
            out.push(c);
        }
        proof {
            assert(out@ + without_brackets(s@.skip(i + 1), p as nat, b as nat) =~= before
                + without_brackets(rest, p0, b0));
        }
        i = i + 1;
    }
    proof {
        assert(s@.skip(i as int).len() == 0);
        assert(out@ + without_brackets(s@.skip(i as int), p as nat, b as nat) =~= out@);
    }
    out
}

fn cut(s: &[char], marker: &str) -> (r: Vec<char>)
    ensures
        r@ == cut_at(s@, marker@),
{
    let m = chars_of(marker);
    match find_from(s, &m, 0) {
        Some(i) => {
            let t = part(s, 0, i);
            assert(t@ =~= s@.take(i as int));
            t
        },
        None => {
            let t = part(s, 0, s.len());
            assert(t@ =~= s@);
            t
        },
    }
}

fn space_out(s: &[char]) -> (r: Vec<char>)
    ensures
        r@ == spaced_out(s@, false),
        s@.contains(' ') ==> !alphanumeric(' '),
{
    let mut out: Vec<char> = Vec::new();
    let mut spaced: bool = false;
    let mut i: usize = 0;
    proof {
        assert(s@.skip(0) =~= s@);
        assert(out@ + spaced_out(s@, false) =~= spaced_out(s@, false));
    }
    while i < s.len()
        invariant
            i <= s@.len(),
            out@ + spaced_out(s@.skip(i as int), spaced) == spaced_out(s@, false),
            forall|j: int| 0 <= j < i && s@[j] == ' ' ==> !alphanumeric(' '),
        decreases s@.len() - i,
    {
        let ghost rest = s@.skip(i as int);
        let ghost before = out@;
        let ghost sp = spaced;
        proof {
            assert(rest[0] == s@[i as int]);
            assert(rest.drop_first() =~= s@.skip(i + 1));
        }
        if is_alphanumeric(s[i]) {
            out.push(s[i]);
            spaced = false;
        } else if !spaced {
            out.push(' ');
            spaced = true;
        }
        assert(out@ + spaced_out(s@.skip(i + 1), spaced) =~= before + spaced_out(rest, sp));
        i = i + 1;
    }
    proof {
        assert(s@.skip(i as int).len() == 0);
        assert(out@ + spaced_out(s@.skip(i as int), spaced) =~= out@);
    }
    out
}

/// What `norm` makes of a text that is lower-case and decomposed.
pub fn norm_decomposed(decomposed: &str) -> (r: String)
    ensures
        r@ == compared_of(decomposed@),
        tidy(r@),
{
    let d = chars_of(decomposed);
    let plain = drop_marks(&d);
    let out = drop_brackets(&plain);
    let out = cut(&out, " feat.");
    let out = cut(&out, " feat ");
    let out = cut(&out, " ft.");
    let out = cut(&out, " ft ");
    let out = cut(&out, " featuring ");
    let spaced = space_out(&out);
    proof {
        lemma_spaced_out(out@, false);
        lemma_trim_tidy(spaced@);
    }
    let t = trim(&spaced);
    string_of(&t)
}

/// How far two lengths are apart.
pub open spec fn apart(a: u32, b: u32) -> int {
    if a >= b {
        a - b
    } else {
        b - a
    }
}

/// Why a hit is the same recording as a track: the same ISRC; or, when not both have one, the
/// same title, the same first artist where both name one, and lengths within three seconds
/// where both are known.
pub open spec fn match_reason(track: TrackView, hit: TrackView) -> Option<LinkReason> {
    match (track.isrc, hit.isrc) {
        (Some(a), Some(b)) => if ascii_lower_of(a) == ascii_lower_of(b) {
            Some(LinkReason::Isrc)
        } else {
            None
        },
        _ => if norm_of(track.title) == norm_of(hit.title) && (track.artists.len() == 0
            || hit.artists.len() == 0 || norm_of(track.artists[0]) == norm_of(hit.artists[0])) && (
        track.duration_ms == 0 || hit.duration_ms == 0 || apart(
            track.duration_ms,
            hit.duration_ms,
        ) <= 3000) {
            Some(LinkReason::Fuzzy)
        } else {
            None
        },
    }
}

pub struct Matcher;

impl Matcher {
    /// The form in which titles and names are compared: lower case, without diacritics, bracketed
    /// parts and guests, with single spaces between words.
    pub fn norm(s: &str) -> (r: String)
        ensures
            r@ == norm_of(s@),
            tidy(r@),
            ascii_text(s@) ==> r@ == compared_of(ascii_lower_of(s@)),
    {
        let low = to_lowercase(s);
        proof {
            lemma_ascii_lower(s@);
        }
        let d = nfkd(&low);
        norm_decomposed(&d)
    }

    /// Whether `hit` is the same recording as `track`, and why.
    pub fn matches(track: &Track, hit: &Track) -> (r: Option<LinkReason>)
        ensures
            r == match_reason(track@, hit@),
    {
        if let (Some(a), Some(b)) = (&track.isrc, &hit.isrc) {
            let x = chars_of(a);
            let y = chars_of(b);
            let lx = to_ascii_lower(&x);
            let ly = to_ascii_lower(&y);
            if same_chars(&lx, &ly) {
                return Some(LinkReason::Isrc);
            }
            return None;
        }
        let ta = Matcher::norm(&track.title);
        let tb = Matcher::norm(&hit.title);
        if !same_text(&ta, &tb) {
            return None;
        }
        if track.artists.len() > 0 && hit.artists.len() > 0 {
            let aa = Matcher::norm(&track.artists[0]);
            let ab = Matcher::norm(&hit.artists[0]);
            proof {
                assert(track@.artists[0] == track.artists@[0]@);
                assert(hit@.artists[0] == hit.artists@[0]@);
            }
            if !same_text(&aa, &ab) {
                return None;
            }
        }
        if track.duration_ms != 0 && hit.duration_ms != 0 {
            let d: u32 = if track.duration_ms >= hit.duration_ms {
                track.duration_ms - hit.duration_ms
            } else {
                hit.duration_ms - track.duration_ms
            };
            if d > 3000 {
                return None;
            }
        }
        Some(LinkReason::Fuzzy)
    }
}

proof fn lemma_ascii_lower(s: Seq<char>)
    ensures
        ascii_text(s) ==> ascii_text(ascii_lower_of(s)),
        forall|i: int| 0 <= i < s.len() ==> !('A' <= #[trigger] ascii_lower_of(s)[i] <= 'Z'),
{
    assert forall|c: char| (c as u32) < 128 implies (#[trigger] ascii_lower(c) as u32) < 128 by {}
}

proof fn lemma_spaced_out(s: Seq<char>, spaced: bool)
    requires
        s.contains(' ') ==> !alphanumeric(' '),
    ensures
        forall|i: int|
            0 <= i < spaced_out(s, spaced).len() ==> alphanumeric(#[trigger] spaced_out(s, spaced)[i])
                || spaced_out(s, spaced)[i] == ' ',
        spaced && spaced_out(s, spaced).len() > 0 ==> spaced_out(s, spaced)[0] != ' ',
        single_spaced(spaced_out(s, spaced)),
    decreases s.len(),
{
    if s.len() > 0 {
        let rest = s.drop_first();
        assert(rest.contains(' ') ==> s.contains(' ')) by {
            if rest.contains(' ') {
                let k = choose|k: int| 0 <= k < rest.len() && rest[k] == ' ';
                assert(s[k + 1] == ' ');
            }
        }
        let out = spaced_out(s, spaced);
        if alphanumeric(s[0]) {
            lemma_spaced_out(rest, false);
            assert(s[0] != ' ');
            let t = spaced_out(rest, false);
            assert(out == seq![s[0]] + t);
            assert forall|i: int, j: int| 0 <= i < j < out.len() && j == i + 1 implies !(#[trigger] out[i] == ' '
                && #[trigger] out[j] == ' ') by {
                if i > 0 {
                    assert(out[i] == t[i - 1] && out[j] == t[j - 1]);
                }
            }
        } else if spaced {
            lemma_spaced_out(rest, true);
        } else {
            lemma_spaced_out(rest, true);
            let t = spaced_out(rest, true);
            assert(out == seq![' '] + t);
            assert forall|i: int, j: int| 0 <= i < j < out.len() && j == i + 1 implies !(#[trigger] out[i] == ' '
                && #[trigger] out[j] == ' ') by {
                if i > 0 {
                    assert(out[i] == t[i - 1] && out[j] == t[j - 1]);
                } else {
                    assert(out[j] == t[0]);
                }
            }
        }
    }
}

/// Trimming takes a middle part.
proof fn lemma_trim_start(s: Seq<char>) -> (k: int)
    ensures
        0 <= k <= s.len(),
        trim_start_of(s) == s.skip(k),
        trim_start_of(s).len() > 0 ==> !whitespace(trim_start_of(s)[0]),
    decreases s.len(),
{
    if s.len() > 0 && whitespace(s[0]) {
        let k = lemma_trim_start(s.drop_first());
        assert(s.drop_first().skip(k) =~= s.skip(k + 1));
        k + 1
    } else {
        assert(s.skip(0) =~= s);
        0
    }
}

proof fn lemma_trim_end(s: Seq<char>) -> (k: int)
    ensures
        0 <= k <= s.len(),
        trim_end_of(s) == s.take(k),
        trim_end_of(s).len() > 0 ==> !whitespace(trim_end_of(s).last()),
    decreases s.len(),
{
    if s.len() > 0 && whitespace(s.last()) {
        let k = lemma_trim_end(s.drop_last());
        assert(s.drop_last().take(k) =~= s.take(k));
        k
    } else {
        assert(s.take(s.len() as int) =~= s);
        s.len() as int
    }
}

proof fn lemma_trim_tidy(s: Seq<char>)
    requires
        forall|i: int| 0 <= i < s.len() ==> alphanumeric(#[trigger] s[i]) || s[i] == ' ',
        single_spaced(s),
    ensures
        tidy(trim_of(s)),
{
    let a = trim_start_of(s);
    let k = lemma_trim_start(s);
    let n = lemma_trim_end(a);
    let t = trim_of(s);
    assert(t == a.take(n));
    assert(whitespace(' '));
    assert forall|i: int| 0 <= i < t.len() implies alphanumeric(#[trigger] t[i]) || t[i] == ' ' by {
        assert(t[i] == s[k + i]);
    }
    assert forall|i: int, j: int| 0 <= i < j < t.len() && j == i + 1 implies !(#[trigger] t[i] == ' ' && #[trigger] t[j]
        == ' ') by {
        assert(t[i] == s[k + i] && t[j] == s[k + j]);
    }
    if t.len() > 0 {
        assert(t[0] == a[0]);
    }
}

/// The compared form of an ASCII text does not depend on the case of its letters, and has no
/// capitals.
pub proof fn case_does_not_matter(s: Seq<char>)
    requires
        ascii_text(s),
    ensures
        compared_of(ascii_lower_of(ascii_upper_of(s))) == compared_of(ascii_lower_of(s)),
        forall|i: int|
            0 <= i < compared_of(ascii_lower_of(s)).len() ==> !('A' <= #[trigger] compared_of(ascii_lower_of(s))[i] <= 'Z'),
{
    assert(ascii_lower_of(ascii_upper_of(s)) =~= ascii_lower_of(s)) by {
        assert forall|i: int| 0 <= i < s.len() implies ascii_lower_of(ascii_upper_of(s))[i] == ascii_lower_of(s)[i] by {
            let c = s[i];
            assert((c as u32) < 128);
            assert(ascii_upper_of(s)[i] == ascii_upper(c));
        }
    }
    let d = ascii_lower_of(s);
    lemma_ascii_lower(s);
    let m = without_marks(d);
    assert forall|i: int| 0 <= i < m.len() implies !capital(#[trigger] m[i]) by {
        let keep = |c: char| !combining_mark(c);
        d.lemma_filter_contains_rev(keep, m[i]);
        let k = choose|k: int| 0 <= k < d.len() && d[k] == m[i];
        assert(!('A' <= ascii_lower_of(s)[k] <= 'Z'));
    }
    lemma_brackets_from(m, 0, 0);
    let b = without_brackets(m, 0, 0);
    lemma_cut_from(b, " feat."@);
    let g1 = cut_at(b, " feat."@);
    lemma_cut_from(g1, " feat "@);
    let g2 = cut_at(g1, " feat "@);
    lemma_cut_from(g2, " ft."@);
    let g3 = cut_at(g2, " ft."@);
    lemma_cut_from(g3, " ft "@);
    let g4 = cut_at(g3, " ft "@);
    lemma_cut_from(g4, " featuring "@);
    let g = without_guests(b);
    lemma_spaced_from(g, false);
    let o = spaced_out(g, false);
    let a = trim_start_of(o);
    let k = lemma_trim_start(o);
    let n = lemma_trim_end(a);
    let t = compared_of(d);
    assert(t == a.take(n));
    assert forall|i: int| 0 <= i < t.len() implies !('A' <= #[trigger] t[i] <= 'Z') by {
        assert(t[i] == o[k + i]);
        assert(!capital(o[k + i]));
    }
}

pub open spec fn capital(c: char) -> bool {
    'A' <= c <= 'Z'
}

pub open spec fn no_capitals(s: Seq<char>) -> bool {
    forall|i: int| 0 <= i < s.len() ==> !capital(#[trigger] s[i])
}

proof fn lemma_brackets_from(s: Seq<char>, p: nat, b: nat)
    ensures
        no_capitals(s) ==> no_capitals(without_brackets(s, p, b)),
    decreases s.len(),
{
    if s.len() > 0 && no_capitals(s) {
        let rest = s.drop_first();
        assert(no_capitals(rest)) by {
            assert forall|i: int| 0 <= i < rest.len() implies !capital(#[trigger] rest[i]) by {
                assert(rest[i] == s[i + 1]);
            }
        }
        assert(!capital(s[0]));
        lemma_brackets_from(rest, p + 1, b);
        lemma_brackets_from(rest, p, b + 1);
        lemma_brackets_from(rest, p, b);
        lemma_brackets_from(rest, if p > 0 {
            (p - 1) as nat
        } else {
            0
        }, b);
        lemma_brackets_from(rest, p, if b > 0 {
            (b - 1) as nat
        } else {
            0
        });
    }
}

proof fn lemma_first_bounds(s: Seq<char>, p: Seq<char>, i: int)
    ensures
        first_from(s, p, i) matches Some(k) ==> 0 <= k <= s.len(),
    decreases s.len() + 1 - i,
{
    if 0 <= i && i + p.len() <= s.len() {
        lemma_first_bounds(s, p, i + 1);
    }
}

proof fn lemma_cut_from(s: Seq<char>, marker: Seq<char>)
    ensures
        no_capitals(s) ==> no_capitals(cut_at(s, marker)),
{
    lemma_first_bounds(s, marker, 0);
    if let Some(i) = first_of(s, marker) {
        assert forall|k: int| 0 <= k < s.take(i).len() && no_capitals(s) implies !capital(#[trigger] s.take(i)[k]) by {
            assert(s.take(i)[k] == s[k]);
        }
    }
}

proof fn lemma_spaced_from(s: Seq<char>, spaced: bool)
    ensures
        no_capitals(s) ==> no_capitals(spaced_out(s, spaced)),
    decreases s.len(),
{
    if s.len() > 0 && no_capitals(s) {
        let rest = s.drop_first();
        assert(no_capitals(rest)) by {
            assert forall|i: int| 0 <= i < rest.len() implies !capital(#[trigger] rest[i]) by {
                assert(rest[i] == s[i + 1]);
            }
        }
        assert(!capital(s[0]));
        lemma_spaced_from(rest, true);
        lemma_spaced_from(rest, false);
    }
}

/// Whether two tracks match does not depend on which one is looked at first.
pub proof fn matching_is_symmetric(a: TrackView, b: TrackView)
    ensures
        match_reason(a, b) == match_reason(b, a),
{
}

/// Tracks match by their titles only when the compared forms of the titles are equal.
pub proof fn fuzzy_match_shares_title(a: TrackView, b: TrackView)
    requires
        match_reason(a, b) == Some(LinkReason::Fuzzy),
    ensures
        norm_of(a.title) == norm_of(b.title),
{
}

} // verus!
