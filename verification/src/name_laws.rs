//! What the names of files and tracks mean, and when two of them are the same.

use vstd::prelude::*;
use crate::audio::{audio_extension, extension, is_slash, last_segment, quality_of_name, segment_start};
use crate::exchange::{stem_of, without_end_slashes};
use crate::matcher::{
    combining_mark, compared_of, cut_at, single_spaced, spaced_out, without_brackets, without_guests, without_marks,
};
use crate::names::{
    ampersand_as_comma, artist_title, artists_of, ascii_digit, collapsed, digits_len, trimmed_pieces,
    without_track_number, word_len, words,
};
use crate::text::{
    alphanumeric, ascii_lower_of, first_from, first_of, joined, last_char_below, lemma_split_single,
    lemma_trim_same, occurs_at, whitespace,
};
use crate::types::minutes_text;

verus! {

/// A text of words with one space between them and none at either end.
pub open spec fn clean(s: Seq<char>) -> bool {
    &&& forall|i: int| 0 <= i < s.len() && whitespace(#[trigger] s[i]) ==> s[i] == ' '
    &&& s.len() > 0 ==> s[0] != ' ' && s.last() != ' '
    &&& single_spaced(s)
}

proof fn lemma_word(s: Seq<char>)
    ensures
        word_len(s) <= s.len(),
        forall|i: int| 0 <= i < word_len(s) ==> !whitespace(#[trigger] s[i]),
        word_len(s) < s.len() ==> whitespace(s[word_len(s) as int]),
    decreases s.len(),
{
    if s.len() > 0 && !whitespace(s[0]) {
        let r = s.drop_first();
        lemma_word(r);
        assert forall|i: int| 0 <= i < word_len(s) implies !whitespace(#[trigger] s[i]) by {
            if i > 0 {
                assert(r[i - 1] == s[i]);
            }
        }
        if word_len(s) < s.len() {
            assert(r[word_len(r) as int] == s[word_len(s) as int]);
        }
    }
}

proof fn lemma_joined_first(x: Seq<char>, v: Seq<Seq<char>>, sep: Seq<char>)
    requires
        v.len() > 0,
    ensures
        joined(seq![x] + v, sep) == x + sep + joined(v, sep),
    decreases v.len(),
{
    let all = seq![x] + v;
    if v.len() == 1 {
        assert(all.drop_last() =~= seq![x]);
        assert(all.last() == v[0]);
        assert(joined(all.drop_last(), sep) == x);
    } else {
        assert(all.drop_last() =~= seq![x] + v.drop_last());
        lemma_joined_first(x, v.drop_last(), sep);
        assert(joined(all, sep) =~= x + sep + joined(v, sep));
    }
}

proof fn lemma_collapsed(s: Seq<char>)
    requires
        clean(s),
    ensures
        collapsed(s) == s,
        s.len() > 0 ==> words(s).len() > 0,
    decreases s.len(),
{
    reveal_strlit(" ");
    if s.len() > 0 {
        assert(!whitespace(s[0]));
        lemma_word(s);
        let n = word_len(s) as int;
        assert(n > 0);
        if n == s.len() {
            assert(s.skip(n) =~= seq![]);
            assert(words(s.skip(n)) =~= seq![]);
            assert(words(s) =~= seq![s.take(n)]);
            assert(s.take(n) =~= s);
        } else {
            let tail = s.skip(n);
            let rest = s.skip(n + 1);
            assert(s[n] == ' ');
            assert(n + 1 < s.len());
            assert(tail[0] == ' ');
            assert(tail.drop_first() =~= rest);
            assert(words(tail) == words(rest));
            assert(clean(rest)) by {
                assert(rest[0] == s[n + 1]);
                assert(rest.last() == s.last());
                assert forall|i: int| 0 <= i < rest.len() && whitespace(#[trigger] rest[i]) implies rest[i] == ' ' by {
                    assert(rest[i] == s[n + 1 + i]);
                }
                assert forall|i: int, j: int| 0 <= i < j < rest.len() && j == i + 1 implies !(#[trigger] rest[i] == ' '
                    && #[trigger] rest[j] == ' ') by {
                    assert(rest[i] == s[n + 1 + i] && rest[j] == s[n + 1 + j]);
                }
                assert(s[n] == ' ' && s[n + 1] != ' ');
            }
            lemma_collapsed(rest);
            lemma_joined_first(s.take(n), words(rest), " "@);
            assert(s =~= s.take(n) + " "@ + rest);
        }
    }
}

proof fn lemma_first_at(s: Seq<char>, p: Seq<char>, i: int, k: int)
    requires
        0 <= i <= k,
        k + p.len() <= s.len(),
        occurs_at(s, p, k),
        forall|j: int| i <= j < k ==> !#[trigger] occurs_at(s, p, j),
    ensures
        first_from(s, p, i) == Some(k),
    decreases k - i,
{
    if i < k {
        lemma_first_at(s, p, i + 1, k);
    }
}

proof fn lemma_absent(s: Seq<char>, p: Seq<char>, i: int)
    requires
        0 <= i,
        first_from(s, p, i) is None,
    ensures
        forall|j: int| i <= j && j + p.len() <= s.len() ==> !#[trigger] occurs_at(s, p, j),
    decreases s.len() + 1 - i,
{
    if i + p.len() <= s.len() {
        lemma_absent(s, p, i + 1);
    }
}

/// `Artist - Title` is one artist and a title.
pub proof fn a_dash_parts_artist_and_title(artist: Seq<char>, title: Seq<char>)
    requires
        artist.len() > 0,
        title.len() > 0,
        clean(artist),
        clean(title),
        !ascii_digit(artist[0]),
        first_of(artist, " - "@) is None,
        artist.last() != '-' || artist.len() < 2 || artist[artist.len() - 2] != ' ',
        forall|i: int| 0 <= i < artist.len() ==> artist[i] != ',' && artist[i] != '&',
    ensures
        artist_title(artist + " - "@ + title) == (seq![artist], title),
{
    reveal_strlit(" - ");
    let sep = " - "@;
    let s = artist + sep + title;
    let n = artist.len() as int;
    assert(clean(s)) by {
        assert forall|i: int| 0 <= i < s.len() && whitespace(#[trigger] s[i]) implies s[i] == ' ' by {
            if i < n {
                assert(s[i] == artist[i]);
            } else if i >= n + 3 {
                assert(s[i] == title[i - n - 3]);
            }
        }
        assert(s[0] == artist[0]);
        assert(s.last() == title.last());
        assert forall|i: int, j: int| 0 <= i < j < s.len() && j == i + 1 implies !(#[trigger] s[i] == ' ' && #[trigger] s[j]
            == ' ') by {
            if j < n {
                assert(s[i] == artist[i] && s[j] == artist[j]);
            } else if i == n - 1 {
                assert(s[i] == artist.last());
            } else if i >= n + 3 {
                assert(s[i] == title[i - n - 3] && s[j] == title[j - n - 3]);
            } else if i == n + 2 {
                assert(s[j] == title[0]);
            }
        }
    }
    lemma_collapsed(s);
    assert(s[0] == artist[0]);
    assert(digits_len(s) == 0);
    assert(without_track_number(s) == s);
    assert(s.subrange(n, n + 3) =~= sep);
    lemma_absent(artist, sep, 0);
    assert forall|j: int| 0 <= j < n implies !#[trigger] occurs_at(s, sep, j) by {
        if occurs_at(s, sep, j) {
            let sub = s.subrange(j, j + 3);
            assert(sub[0] == sep[0] && sub[1] == sep[1] && sub[2] == sep[2]);
            assert(s[j] == ' ' && s[j + 1] == '-' && s[j + 2] == ' ');
            if j + 3 <= n {
                assert(artist.subrange(j, j + 3) =~= sep);
                assert(occurs_at(artist, sep, j));
            } else if j + 2 == n {
                assert(artist[j] == ' ' && artist[j + 1] == '-');
            } else {
                assert(j + 1 == n);
                assert(s[n] == ' ');
            }
        }
    }
    lemma_first_at(s, sep, 0, n);
    assert(s.take(n) =~= artist);
    assert(s.skip(n + 3) =~= title);
    assert(whitespace(' '));
    assert(!whitespace(artist[0]) && !whitespace(artist.last()));
    assert(!whitespace(title[0]) && !whitespace(title.last()));
    lemma_trim_same(artist);
    lemma_trim_same(title);
    let mapped = artist.map_values(|c: char| ampersand_as_comma(c));
    assert(mapped =~= artist);
    lemma_split_single(artist, ',');
    assert(seq![artist].drop_last() =~= seq![]);
    assert(trimmed_pieces(seq![artist].drop_last()) =~= seq![]);
    assert(artists_of(artist) =~= seq![artist]);
}

/// Number and separator in front of a name are not part of it.
pub proof fn track_numbers_are_dropped(number: Seq<char>, rest: Seq<char>)
    requires
        1 <= number.len() <= 3,
        forall|i: int| 0 <= i < number.len() ==> ascii_digit(#[trigger] number[i]),
        rest.len() > 0,
        !whitespace(rest[0]),
    ensures
        without_track_number(number + ". "@ + rest) == rest,
{
    reveal_strlit(". ");
    let s = number + ". "@ + rest;
    lemma_digits(s, number.len());
    assert(s.skip(number.len() as int) =~= ". "@ + rest);
    let t = ". "@ + rest;
    assert(t.subrange(0, 2) =~= ". "@);
    assert(t.skip(2) =~= rest);
}

proof fn lemma_digits(s: Seq<char>, n: nat)
    requires
        n < s.len(),
        forall|i: int| 0 <= i < n ==> ascii_digit(#[trigger] s[i]),
        !ascii_digit(s[n as int]),
    ensures
        digits_len(s) == n,
    decreases n,
{
    if n > 0 {
        let r = s.drop_first();
        assert forall|i: int| 0 <= i < n - 1 implies ascii_digit(#[trigger] r[i]) by {
            assert(r[i] == s[i + 1]);
        }
        assert(r[n - 1] == s[n as int]);
        lemma_digits(r, (n - 1) as nat);
    }
}

/// A name that no digit starts has no track number, and neither has one with more than three
/// digits in front.
pub proof fn other_names_stay(s: Seq<char>)
    requires
        s.len() == 0 || !ascii_digit(s[0]) || digits_len(s) > 3,
    ensures
        without_track_number(s) == s,
{
}

proof fn lemma_no_segment(s: Seq<char>, k: int, n: int)
    requires
        0 <= k <= n <= s.len(),
        k == 0 || is_slash(s[k - 1]),
        forall|i: int| k <= i < n ==> !is_slash(#[trigger] s[i]),
    ensures
        segment_start(s, n) == k,
    decreases n,
{
    if n > k {
        lemma_no_segment(s, k, n - 1);
    }
}

proof fn lemma_last_dot(s: Seq<char>, c: char, k: int, n: int)
    requires
        0 <= k < n <= s.len(),
        s[k] == c,
        forall|i: int| k < i < n ==> s[i] != c,
    ensures
        last_char_below(s, c, n) == Some(k),
    decreases n,
{
    if n > k + 1 {
        lemma_last_dot(s, c, k, n - 1);
    }
}

/// The extension of a file is what follows the last dot of its name, whatever its case; directories
/// do not count.
pub proof fn extensions_follow_the_last_dot(dir: Seq<char>, stem: Seq<char>, ext: Seq<char>)
    requires
        dir.len() == 0 || dir.last() == '/',
        ext.len() > 0,
        forall|i: int| 0 <= i < stem.len() ==> !is_slash(#[trigger] stem[i]),
        forall|i: int| 0 <= i < ext.len() ==> !is_slash(#[trigger] ext[i]) && ext[i] != '.',
    ensures
        extension(dir + stem + "."@ + ext) == Some(ascii_lower_of(ext)),
        stem.len() > 0 ==> stem_of(dir + stem + "."@ + ext) == stem,
{
    reveal_strlit(".");
    let s = dir + stem + "."@ + ext;
    let k = dir.len() as int;
    let m = stem.len() as int;
    assert forall|i: int| k <= i < s.len() implies !is_slash(#[trigger] s[i]) by {
        if i < k + m {
            assert(s[i] == stem[i - k]);
        } else if i > k + m {
            assert(s[i] == ext[i - k - m - 1]);
        }
    }
    if k > 0 {
        assert(s[k - 1] == dir.last());
    }
    lemma_no_segment(s, k, s.len() as int);
    let seg = last_segment(s);
    assert(seg =~= stem + "."@ + ext);
    assert forall|i: int| m < i < seg.len() implies seg[i] != '.' by {
        assert(seg[i] == ext[i - m - 1]);
    }
    lemma_last_dot(seg, '.', m, seg.len() as int);
    assert(seg.skip(m + 1) =~= ext);
    assert(s.last() == ext.last());
    assert(without_end_slashes(s) == s);
    assert(seg.take(m) =~= stem);
}

/// Files of the formats that lose nothing are lossless, every other one is lossy, and only audio
/// formats are lossless.
pub proof fn formats_tell_the_quality(name: Seq<char>, ext: Seq<char>)
    requires
        extension(name) == Some(ext),
    ensures
        ext == "flac"@ || ext == "wav"@ || ext == "aiff"@ || ext == "wv"@ ==> quality_of_name(name) is Lossless,
        ext == "mp3"@ || ext == "ogg"@ || ext == "opus"@ || ext == "m4a"@ || ext == "aac"@ || ext == "webm"@
            ==> quality_of_name(name) is Lossy && audio_extension(ext),
        ext == "txt"@ || ext == "jpg"@ || ext == "m3u8"@ ==> !audio_extension(ext),
{
    reveal_strlit("flac");
    reveal_strlit("wav");
    reveal_strlit("aiff");
    reveal_strlit("wv");
    reveal_strlit("mp3");
    reveal_strlit("ogg");
    reveal_strlit("opus");
    reveal_strlit("m4a");
    reveal_strlit("aac");
    reveal_strlit("webm");
    reveal_strlit("txt");
    reveal_strlit("jpg");
    reveal_strlit("m3u8");
    assert("mp3"@[0] == 'm' && "ogg"@[0] == 'o' && "opus"@[0] == 'o' && "m4a"@[0] == 'm' && "aac"@[1] == 'a' && "webm"@[1] == 'e');
    assert("flac"@[0] == 'f' && "wav"@[1] == 'a' && "aiff"@[1] == 'i' && "wv"@[1] == 'v' && "wav"@[0] == 'w' && "wv"@[0] == 'w' && "aiff"@[0] == 'a');
    assert("txt"@[0] == 't' && "jpg"@[0] == 'j' && "m3u8"@[1] == '3' && "mp3"@[1] == 'p' && "m4a"@[1] == '4');
}

/// No diacritics and no brackets.
pub open spec fn bare(s: Seq<char>) -> bool {
    forall|i: int| 0 <= i < s.len() ==> !combining_mark(#[trigger] s[i]) && s[i] != '(' && s[i] != ')' && s[i] != '['
        && s[i] != ']'
}

/// Nothing in a text names guests.
pub open spec fn alone(s: Seq<char>) -> bool {
    &&& first_of(s, " feat."@) is None
    &&& first_of(s, " feat "@) is None
    &&& first_of(s, " ft."@) is None
    &&& first_of(s, " ft "@) is None
    &&& first_of(s, " featuring "@) is None
}

/// No diacritics.
pub open spec fn unmarked(s: Seq<char>) -> bool {
    forall|i: int| 0 <= i < s.len() ==> !combining_mark(#[trigger] s[i])
}

proof fn lemma_unmarked(a: Seq<char>, b: Seq<char>)
    requires
        unmarked(a),
        unmarked(b),
    ensures
        unmarked(a + b),
{
}

proof fn lemma_bare(a: Seq<char>, b: Seq<char>)
    requires
        bare(a),
        bare(b),
    ensures
        bare(a + b),
        unmarked(a),
        unmarked(b),
{
}

proof fn lemma_marks(s: Seq<char>)
    requires
        unmarked(s),
    ensures
        without_marks(s) == s,
    decreases s.len(),
{
    reveal(Seq::filter);
    if s.len() > 0 {
        let h = s.drop_last();
        assert forall|i: int| 0 <= i < h.len() implies !combining_mark(#[trigger] h[i]) by {
            assert(h[i] == s[i]);
        }
        lemma_marks(h);
        assert(!combining_mark(s[s.len() - 1]));
        assert(s =~= h.push(s.last()));
    }
}

proof fn lemma_bracket_free(s: Seq<char>)
    requires
        bare(s),
    ensures
        without_brackets(s, 0, 0) == s,
    decreases s.len(),
{
    if s.len() > 0 {
        let r = s.drop_first();
        assert(bare(r)) by {
            assert forall|i: int| 0 <= i < r.len() implies !combining_mark(#[trigger] r[i]) && r[i] != '(' && r[i] != ')' && r[i]
                != '[' && r[i] != ']' by {
                assert(r[i] == s[i + 1]);
            }
        }
        lemma_bracket_free(r);
        assert(s[0] != '(' && s[0] != ')' && s[0] != '[' && s[0] != ']') by {
            assert(!combining_mark(s[0]));
        }
        assert(seq![s[0]] + r =~= s);
    }
}

proof fn lemma_skipped(x: Seq<char>, rest: Seq<char>)
    requires
        bare(x),
    ensures
        without_brackets(x + seq![')'] + rest, 1, 0) == without_brackets(rest, 0, 0),
    decreases x.len(),
{
    let s = x + seq![')'] + rest;
    if x.len() == 0 {
        assert(s[0] == ')');
        assert(s.drop_first() =~= rest);
    } else {
        let y = x.drop_first();
        assert(bare(y)) by {
            assert forall|i: int| 0 <= i < y.len() implies !combining_mark(#[trigger] y[i]) && y[i] != '(' && y[i] != ')' && y[i]
                != '[' && y[i] != ']' by {
                assert(y[i] == x[i + 1]);
            }
        }
        lemma_skipped(y, rest);
        assert(s[0] == x[0]);
        assert(!combining_mark(x[0]));
        assert(s.drop_first() =~= y + seq![')'] + rest);
    }
}

proof fn lemma_bracketed(a: Seq<char>, x: Seq<char>, b: Seq<char>)
    requires
        bare(a),
        bare(x),
        bare(b),
    ensures
        without_brackets(a + seq!['('] + x + seq![')'] + b, 0, 0) == a + b,
    decreases a.len(),
{
    let s = a + seq!['('] + x + seq![')'] + b;
    if a.len() == 0 {
        assert(s[0] == '(');
        assert(s.drop_first() =~= x + seq![')'] + b);
        lemma_skipped(x, b);
        lemma_bracket_free(b);
        assert(a + b =~= b);
    } else {
        let r = a.drop_first();
        assert(bare(r)) by {
            assert forall|i: int| 0 <= i < r.len() implies !combining_mark(#[trigger] r[i]) && r[i] != '(' && r[i] != ')' && r[i]
                != '[' && r[i] != ']' by {
                assert(r[i] == a[i + 1]);
            }
        }
        lemma_bracketed(r, x, b);
        assert(s[0] == a[0]);
        assert(!combining_mark(a[0]));
        assert(s.drop_first() =~= r + seq!['('] + x + seq![')'] + b);
        assert(seq![a[0]] + (r + b) =~= a + b);
    }
}

/// What stands in brackets does not count when titles and names are compared.
pub proof fn bracketed_parts_do_not_count(a: Seq<char>, x: Seq<char>, b: Seq<char>)
    requires
        bare(a),
        bare(x),
        bare(b),
    ensures
        compared_of(a + seq!['('] + x + seq![')'] + b) == compared_of(a + b),
{
    let s = a + seq!['('] + x + seq![')'] + b;
    let t = a + b;
    lemma_bare(a, x);
    lemma_bare(a, b);
    lemma_unmarked(a, seq!['(']);
    lemma_unmarked(a + seq!['('], x);
    lemma_unmarked(a + seq!['('] + x, seq![')']);
    lemma_unmarked(a + seq!['('] + x + seq![')'], b);
    lemma_marks(s);
    lemma_bracketed(a, x, b);
    lemma_marks(t);
    lemma_bracket_free(t);
}

/// A diacritic does not count either.
pub proof fn diacritics_do_not_count(a: Seq<char>, mark: char, b: Seq<char>)
    requires
        combining_mark(mark),
    ensures
        compared_of(a + seq![mark] + b) == compared_of(a + b),
    decreases b.len(),
{
    lemma_mark_dropped(a, mark, b);
}

proof fn lemma_mark_dropped(a: Seq<char>, mark: char, b: Seq<char>)
    requires
        combining_mark(mark),
    ensures
        without_marks(a + seq![mark] + b) == without_marks(a + b),
    decreases b.len(),
{
    reveal(Seq::filter);
    let s = a + seq![mark] + b;
    let t = a + b;
    if b.len() == 0 {
        assert(s.drop_last() =~= a);
        assert(t =~= a);
        assert(s.last() == mark);
    } else {
        let c = b.drop_last();
        lemma_mark_dropped(a, mark, c);
        assert(s.drop_last() =~= a + seq![mark] + c);
        assert(t.drop_last() =~= a + c);
        assert(s.last() == b.last() && t.last() == b.last());
    }
}

/// A tail that names a guest does not count.
pub proof fn guests_do_not_count(a: Seq<char>, guest: Seq<char>)
    requires
        bare(a),
        bare(guest),
        alone(a),
    ensures
        compared_of(a + " feat."@ + guest) == compared_of(a),
{
    let m = " feat."@;
    reveal_strlit(" feat.");
    let s = a + m + guest;
    let n = a.len() as int;
    assert(bare(m));
    lemma_bare(a, m);
    lemma_bare(a + m, guest);
    lemma_bare(s, s);
    lemma_marks(s);
    lemma_bracket_free(s);
    lemma_marks(a);
    lemma_bracket_free(a);
    lemma_guest_at(a, guest);
    assert(s.take(n) =~= a);
    assert(cut_at(s, m) == a);
    assert(without_guests(s) == without_guests(a));
}

/// The guest is named where the name ends, and not before.
proof fn lemma_guest_at(a: Seq<char>, guest: Seq<char>)
    requires
        first_of(a, " feat."@) is None,
    ensures
        first_of(a + " feat."@ + guest, " feat."@) == Some(a.len() as int),
{
    let m = " feat."@;
    reveal_strlit(" feat.");
    let s = a + m + guest;
    let n = a.len() as int;
    assert(s.subrange(n, n + 6) =~= m);
    lemma_absent(a, m, 0);
    assert forall|j: int| 0 <= j < n implies !#[trigger] occurs_at(s, m, j) by {
        if occurs_at(s, m, j) {
            let sub = s.subrange(j, j + 6);
            assert(sub == m);
            if j + 6 <= n {
                assert(a.subrange(j, j + 6) =~= m);
                assert(occurs_at(a, m, j));
            } else {
                assert(sub[n - j] == s[n]);
                assert(s[n] == ' ');
                assert(m[n - j] != ' ');
            }
        }
    }
    lemma_first_at(s, m, 0, n);
}

proof fn lemma_spaced_same(s: Seq<char>, spaced: bool)
    requires
        forall|i: int| 0 <= i < s.len() ==> alphanumeric(#[trigger] s[i]) || s[i] == ' ',
        single_spaced(s),
        spaced && s.len() > 0 ==> s[0] != ' ',
    ensures
        spaced_out(s, spaced) == s,
    decreases s.len(),
{
    if s.len() > 0 {
        let r = s.drop_first();
        assert forall|i: int| 0 <= i < r.len() implies alphanumeric(#[trigger] r[i]) || r[i] == ' ' by {
            assert(r[i] == s[i + 1]);
        }
        assert(single_spaced(r)) by {
            assert forall|i: int, j: int| 0 <= i < j < r.len() && j == i + 1 implies !(#[trigger] r[i] == ' ' && #[trigger] r[j]
                == ' ') by {
                assert(r[i] == s[i + 1] && r[j] == s[j + 1]);
            }
        }
        assert(alphanumeric(s[0]) || s[0] == ' ');
        if s[0] == ' ' && r.len() > 0 {
            assert(r[0] == s[1]);
            assert(!(s[0] == ' ' && s[1] == ' '));
        }
        lemma_spaced_same(r, false);
        if s[0] == ' ' {
            lemma_spaced_same(r, true);
        }
        assert(seq![s[0]] + r =~= s);
    }
}

/// A plain name is compared as it is: two that differ in a letter, a digit or a space are two.
pub proof fn plain_names_are_told_apart(a: Seq<char>, b: Seq<char>)
    requires
        bare(a) && alone(a) && clean(a),
        bare(b) && alone(b) && clean(b),
        forall|i: int| 0 <= i < a.len() ==> alphanumeric(#[trigger] a[i]) || a[i] == ' ',
        forall|i: int| 0 <= i < b.len() ==> alphanumeric(#[trigger] b[i]) || b[i] == ' ',
    ensures
        compared_of(a) == a,
        compared_of(a) == compared_of(b) <==> a == b,
{
    lemma_plain(a);
    lemma_plain(b);
}

proof fn lemma_plain(a: Seq<char>)
    requires
        bare(a) && alone(a) && clean(a),
        forall|i: int| 0 <= i < a.len() ==> alphanumeric(#[trigger] a[i]) || a[i] == ' ',
    ensures
        compared_of(a) == a,
{
    lemma_marks(a);
    lemma_bracket_free(a);
    assert(without_guests(a) == a);
    lemma_spaced_same(a, false);
    if a.len() > 0 {
        assert(!whitespace(a[0]) && !whitespace(a[a.len() - 1]));
    }
    lemma_trim_same(a);
}

/// A length is shown as minutes and seconds, and one that is not known as such.
pub proof fn lengths_are_shown(minutes: u32, seconds: u32, rest: u32)
    requires
        seconds < 60,
        rest < 1000,
        minutes < 10_000,
        minutes + seconds + rest > 0,
    ensures
        ({
            let ms = (minutes * 60_000 + seconds * 1000 + rest) as u32;
            minutes_text(ms) == crate::text::decimal(minutes as nat) + ":"@ + crate::text::decimal((seconds / 10) as nat)
                + crate::text::decimal((seconds % 10) as nat)
        }),
        minutes_text(0) == "?:??"@,
{
    let ms = (minutes * 60_000 + seconds * 1000 + rest) as u32;
    assert(ms / 1000 == minutes * 60 + seconds);
    assert((ms / 1000) / 60 == minutes);
    assert((ms / 1000) % 60 == seconds);
    reveal_strlit("0");
    let tens = crate::text::decimal((seconds / 10) as nat);
    let ones = crate::text::decimal((seconds % 10) as nat);
    assert(crate::types::two_digits(seconds as nat) =~= tens + ones);
    assert(minutes_text(ms) =~= crate::text::decimal(minutes as nat) + ":"@ + crate::text::decimal((seconds / 10) as nat)
        + crate::text::decimal((seconds % 10) as nat));
}

} // verus!
