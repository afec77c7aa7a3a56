//! Reading a playlist file gives back what was written.

use vstd::prelude::*;
use crate::ids::{hex_or_hyphen, uuid_round_trip, uuid_text};
use crate::moment::Moment;
use crate::names::trimmed_pieces;
use crate::pct::{pct_encoded, pct_encoded_is_one_field, pct_encoded_plain, pct_round_trip};
use crate::playlist_m3u::{
    after_directive, after_line, after_lines, blank_entry, current, doc_lines, doc_of_lines, entries_lines, entry_head, entry_lines,
    entry_readable, header_lines, m3u_parsed, meta_fold, meta_of, meta_parts, meta_text, meta_with, moment_text,
    no_meta, no_reading, opt_decimal, opt_u32, opt_u8, quality_of, quality_text, readable, reading, rendition_lines,
    rendition_of, rendition_text, unlines, DocView, EntryView, MetaView, ParsedView, Reading, SoftMetaView,
};
use crate::text::{
    all_digits, ascii_lower, ascii_lower_of, char_from, decimal, float_syntax, joined, lemma_char_from_bounds, lemma_decimal_nonempty,
    lemma_signed_decimal, lemma_split_cons, lemma_split_once, lemma_split_single, lemma_strip_other, lemma_strip_own,
    lemma_trim_same, lemma_unsigned_decimal, mantissa_syntax, signed_decimal, split_of, split_once_of, trim_of,
    trim_start_of, unsigned_of, whitespace,
};
use crate::types::Quality;

verus! {

/// The text holds no line end.
pub open spec fn one_line(s: Seq<char>) -> bool {
    forall|i: int| 0 <= i < s.len() ==> s[i] != '\n'
}

/// The text does not end in whitespace.
pub open spec fn clean_end(s: Seq<char>) -> bool {
    s.len() > 0 ==> !whitespace(s.last())
}

/// A playlist header that a file can hold: the name is one line, and neither the name nor the
/// notes end in whitespace that would be trimmed.
pub open spec fn storable_header(p: MetaView) -> bool {
    one_line(p.name) && clean_end(p.name) && clean_end(pct_encoded(p.notes))
}

/// Metadata that a file can hold: the tempo is a number, and a tag is not blank, not padded and
/// holds no comma.
pub open spec fn storable_soft(m: SoftMetaView) -> bool {
    (m.bpm matches Some(v) ==> float_syntax(v)) && (forall|i: int|
        0 <= i < m.tags.len() ==> storable_tag(#[trigger] m.tags[i])) && clean_end(meta_text(m))
}

pub open spec fn storable_tag(t: Seq<char>) -> bool {
    t.len() > 0 && trim_of(t) == t && forall|j: int| 0 <= j < t.len() ==> t[j] != ','
}

/// An entry that a file can hold: dates are whole seconds of the years 0 to 9999, the name and
/// the address are single lines without padding, and the address does not look like a directive.
pub open spec fn storable_entry(e: EntryView) -> bool {
    &&& e.extinf matches Some((n, t)) ==> one_line(t) && clean_end(t)
    &&& e.played_at matches Some(t) ==> t.four_digit_second()
    &&& storable_soft(e.meta)
    &&& forall|i: int|
        0 <= i < e.renditions.len() ==> (#[trigger] e.renditions[i]).added_at.four_digit_second()
            && clean_end(pct_encoded(e.renditions[i].uri))
    &&& e.primary_uri.len() > 0 && one_line(e.primary_uri) && e.primary_uri[0] != '#'
        && !whitespace(e.primary_uri[0]) && !whitespace(e.primary_uri.last())
}

pub open spec fn storable(d: DocView) -> bool {
    storable_header(d.playlist) && forall|i: int|
        0 <= i < d.entries.len() ==> storable_entry(#[trigger] d.entries[i])
}

/// A line that is written and read as it is.
pub open spec fn tidy(l: Seq<char>) -> bool {
    one_line(l) && trim_of(l) == l
}

proof fn lemma_lines_split(ls: Seq<Seq<char>>)
    requires
        forall|i: int| 0 <= i < ls.len() ==> one_line(#[trigger] ls[i]),
    ensures
        split_of(unlines(ls), '\n') == ls.push(Seq::<char>::empty()),
    decreases ls.len(),
{
    if ls.len() == 0 {
        lemma_split_single(Seq::<char>::empty(), '\n');
        assert(unlines(ls) =~= Seq::<char>::empty());
        assert(ls.push(Seq::<char>::empty()) =~= seq![Seq::<char>::empty()]);
    } else {
        assert(one_line(ls[0]));
        assert forall|i: int| 0 <= i < ls.drop_first().len() implies one_line(
            #[trigger] ls.drop_first()[i],
        ) by {
            assert(one_line(ls[i + 1]));
        }
        lemma_lines_split(ls.drop_first());
        lemma_split_cons(ls[0], '\n', unlines(ls.drop_first()));
        assert(seq![ls[0]] + ls.drop_first().push(Seq::<char>::empty()) =~= ls.push(
            Seq::<char>::empty(),
        ));
    }
}

proof fn lemma_after_lines_concat(st: Reading, a: Seq<Seq<char>>, b: Seq<Seq<char>>, now: Moment)
    ensures
        after_lines(st, a + b, now) == after_lines(after_lines(st, a, now), b, now),
    decreases a.len(),
{
    if a.len() == 0 {
        assert(a + b =~= b);
    } else {
        assert((a + b).drop_first() =~= a.drop_first() + b);
        lemma_after_lines_concat(after_line(st, a[0], now), a.drop_first(), b, now);
    }
}

proof fn lemma_one_line(st: Reading, l: Seq<char>, now: Moment)
    ensures
        after_lines(st, seq![l], now) == after_line(st, l, now),
{
    assert(seq![l].drop_first() =~= Seq::<Seq<char>>::empty());
    assert(seq![l][0] == l);
    assert(after_lines(after_line(st, l, now), Seq::<Seq<char>>::empty(), now) == after_line(st, l, now));
}

/// A `#` line that is tidy does what its directive does.
proof fn lemma_directive_line(st: Reading, hash: Seq<char>, dir: Seq<char>, v: Seq<char>, now: Moment)
    requires
        hash == seq!['#'] + dir,
        dir.len() > 0,
        !whitespace(dir.last()),
        one_line(dir),
        one_line(v),
        clean_end(v),
    ensures
        tidy(hash + v),
        after_line(st, hash + v, now) == after_directive(st, dir + v, now),
{
    let l = hash + v;
    assert(l[0] == '#');
    assert(l.last() == if v.len() > 0 {
        v.last()
    } else {
        dir.last()
    });
    lemma_trim_same(l);
    assert(l.drop_first() =~= dir + v);
    assert forall|i: int| 0 <= i < l.len() implies l[i] != '\n' by {
        if i < hash.len() {
            if i > 0 {
                assert(hash[i] == dir[i - 1]);
            }
        } else {
            assert(l[i] == v[i - hash.len()]);
        }
    }
}

#[verifier::rlimit(60)]
proof fn lemma_header(p: MetaView, now: Moment)
    requires
        storable_header(p),
    ensures
        after_lines(no_reading(), header_lines(p).drop_first(), now) == reading(p, seq![], None),
        header_lines(p)[0] == "#EXTM3U"@,
        forall|i: int| 0 <= i < header_lines(p).len() ==> one_line(#[trigger] header_lines(p)[i]),
{
    reveal_strlit("#EXTM3U");
    reveal_strlit("#PLAYLIST:");
    reveal_strlit("PLAYLIST:");
    reveal_strlit("#MEDLEY-PLAYLIST-ID:");
    reveal_strlit("MEDLEY-PLAYLIST-ID:");
    reveal_strlit("#MEDLEY-NOTES:");
    reveal_strlit("MEDLEY-NOTES:");
    let l1 = "#PLAYLIST:"@ + p.name;
    let s0 = no_reading();
    assert("#PLAYLIST:"@ =~= seq!['#'] + "PLAYLIST:"@);
    assert("#MEDLEY-PLAYLIST-ID:"@ =~= seq!['#'] + "MEDLEY-PLAYLIST-ID:"@);
    assert("#MEDLEY-NOTES:"@ =~= seq!['#'] + "MEDLEY-NOTES:"@);
    lemma_directive_line(s0, "#PLAYLIST:"@, "PLAYLIST:"@, p.name, now);
    lemma_strip_own("PLAYLIST:"@, p.name);
    let s1 = reading(MetaView { id: None, name: p.name, notes: seq![] }, seq![], None);
    assert(after_line(s0, l1, now) == s1);
    let ids = match p.id {
        Some(id) => seq!["#MEDLEY-PLAYLIST-ID:"@ + uuid_text(id)],
        None => seq![],
    };
    let s2 = reading(MetaView { id: p.id, name: p.name, notes: seq![] }, seq![], None);
    assert(after_lines(s1, ids, now) == s2 && forall|i: int|
        0 <= i < ids.len() ==> one_line(#[trigger] ids[i])) by {
        if let Some(id) = p.id {
            let v = uuid_text(id);
            uuid_round_trip(id);
            assert(hex_or_hyphen(v[0]) && hex_or_hyphen(v[35]));
            lemma_trim_same(v);
            assert forall|i: int| 0 <= i < v.len() implies v[i] != '\n' by {
                assert(hex_or_hyphen(v[i]));
            }
            lemma_directive_line(s1, "#MEDLEY-PLAYLIST-ID:"@, "MEDLEY-PLAYLIST-ID:"@, v, now);
            lemma_strip_other("MEDLEY-PLAYLIST-ID:"@, v, "PLAYLIST:"@, 0);
            lemma_strip_own("MEDLEY-PLAYLIST-ID:"@, v);
            lemma_one_line(s1, "#MEDLEY-PLAYLIST-ID:"@ + v, now);
        }
    }
    let notes = if p.notes.len() > 0 {
        seq!["#MEDLEY-NOTES:"@ + pct_encoded(p.notes)]
    } else {
        seq![]
    };
    let s3 = reading(p, seq![], None);
    assert(after_lines(s2, notes, now) == s3 && forall|i: int|
        0 <= i < notes.len() ==> one_line(#[trigger] notes[i])) by {
        if p.notes.len() > 0 {
            let v = pct_encoded(p.notes);
            pct_encoded_is_one_field(p.notes);
            pct_round_trip(p.notes);
            lemma_directive_line(s2, "#MEDLEY-NOTES:"@, "MEDLEY-NOTES:"@, v, now);
            lemma_strip_other("MEDLEY-NOTES:"@, v, "PLAYLIST:"@, 0);
            lemma_strip_other("MEDLEY-NOTES:"@, v, "MEDLEY-PLAYLIST-ID:"@, 7);
            lemma_strip_own("MEDLEY-NOTES:"@, v);
            lemma_one_line(s2, "#MEDLEY-NOTES:"@ + v, now);
        } else {
            assert(p.notes =~= Seq::<char>::empty());
        }
    }
    let tail = seq![l1] + ids + notes;
    assert(header_lines(p).drop_first() =~= tail);
    lemma_after_lines_concat(s0, seq![l1] + ids, notes, now);
    lemma_after_lines_concat(s0, seq![l1], ids, now);
    lemma_one_line(s0, l1, now);
    assert forall|i: int| 0 <= i < header_lines(p).len() implies one_line(
        #[trigger] header_lines(p)[i],
    ) by {
        if i == 0 {
        } else if i == 1 {
            assert(header_lines(p)[1] == l1);
        } else if i < 2 + ids.len() {
            assert(header_lines(p)[i] == ids[i - 2]);
        } else {
            assert(header_lines(p)[i] == notes[i - 2 - ids.len()]);
        }
    }
}


/// What the text of a quality promises to the line that holds it.
pub open spec fn plain_field(s: Seq<char>) -> bool {
    s.len() > 0 && trim_of(s) == s && forall|i: int|
        0 <= i < s.len() ==> (#[trigger] s[i]) != '|' && s[i] != '\n'
}

proof fn lemma_quality_lossy(k: u32)
    ensures
        quality_of(quality_text(Quality::Lossy { kbps: Some(k) })) == (Quality::Lossy { kbps: Some(k) }),
        plain_field(quality_text(Quality::Lossy { kbps: Some(k) })),
{
    reveal_strlit("unknown");
    reveal_strlit("lossy");
    reveal_strlit("lossy:");
    reveal_strlit("lossless");
    reveal_strlit(":");
    let d = decimal(k as nat);
    let s = "lossy:"@ + d;
    lemma_decimal_nonempty(k as nat);
    lemma_unsigned_decimal(k as nat, 0xffff_ffff);
    assert(s =~= "lossy"@ + (":"@ + d));
    lemma_strip_other("lossy:"@, d, "lossless"@, 4);
    lemma_strip_own("lossy"@, ":"@ + d);
    lemma_strip_own(":"@, d);
    assert(s[0] == 'l');
    assert(s.last() == d.last());
    assert('0' <= d[d.len() - 1] <= '9');
    lemma_trim_same(s);
    assert forall|i: int| 0 <= i < s.len() implies (#[trigger] s[i]) != '|' && s[i] != '\n' by {
        if i >= 6 {
            assert(s[i] == d[i - 6]);
        }
    }
    assert(s != "unknown"@) by {
        assert("unknown"@[0] != s[0]);
    }
}

proof fn lemma_quality_lossless(b: Seq<char>, h: Seq<char>)
    requires
        all_digits(b),
        all_digits(h),
    ensures
        ({
            let s = "lossless:"@ + b + seq![':'] + h;
            &&& plain_field(s)
            &&& quality_of(s) == (Quality::Lossless {
                bits: opt_u8(unsigned_of(b, 255)),
                hz: opt_u32(unsigned_of(h, 0xffff_ffff)),
            })
        }),
{
    reveal_strlit("unknown");
    reveal_strlit("lossless");
    reveal_strlit("lossless:");
    reveal_strlit(":");
    let s = "lossless:"@ + b + seq![':'] + h;
    let rest = b + seq![':'] + h;
    assert(s =~= "lossless"@ + (":"@ + rest));
    lemma_strip_own("lossless"@, ":"@ + rest);
    lemma_strip_own(":"@, rest);
    lemma_split_cons(b, ':', h);
    lemma_split_single(h, ':');
    let f = split_of(rest, ':');
    assert(f =~= seq![b, h]);
    assert(s[0] == 'l');
    assert(s.last() == if h.len() > 0 {
        h.last()
    } else {
        ':'
    });
    if h.len() > 0 {
        assert('0' <= h[h.len() - 1] <= '9');
    }
    lemma_trim_same(s);
    assert forall|i: int| 0 <= i < s.len() implies (#[trigger] s[i]) != '|' && s[i] != '\n' by {
        if i >= 9 {
            if i - 9 < b.len() {
                assert(s[i] == b[i - 9]);
            } else if i - 9 > b.len() {
                assert(s[i] == h[i - 10 - b.len()]);
            }
        }
    }
    assert(s != "unknown"@) by {
        assert("unknown"@[0] != s[0]);
    }
}

/// The text of a quality reads back as the quality.
pub proof fn quality_round_trip(q: Quality)
    ensures
        quality_of(quality_text(q)) == q,
        plain_field(quality_text(q)),
{
    let s = quality_text(q);
    match q {
        Quality::Unknown => {
            reveal_strlit("unknown");
            lemma_trim_same(s);
        },
        Quality::Lossy { kbps: None } => {
            reveal_strlit("unknown");
            reveal_strlit("lossy");
            reveal_strlit("lossless");
            reveal_strlit(":");
            assert(s =~= "lossy"@ + Seq::<char>::empty());
            lemma_strip_other("lossy"@, seq![], "lossless"@, 4);
            lemma_strip_own("lossy"@, seq![]);
            lemma_trim_same(s);
        },
        Quality::Lossy { kbps: Some(k) } => {
            lemma_quality_lossy(k);
        },
        Quality::Lossless { bits: None, hz: None } => {
            reveal_strlit("unknown");
            reveal_strlit("lossless");
            reveal_strlit(":");
            assert(s =~= "lossless"@ + Seq::<char>::empty());
            lemma_strip_own("lossless"@, seq![]);
            lemma_trim_same(s);
        },
        Quality::Lossless { bits, hz } => {
            let b = match bits {
                Some(b) => decimal(b as nat),
                None => Seq::<char>::empty(),
            };
            let h = opt_decimal(hz);
            if let Some(n) = bits {
                lemma_decimal_nonempty(n as nat);
                lemma_unsigned_decimal(n as nat, 255);
            }
            if let Some(n) = hz {
                lemma_decimal_nonempty(n as nat);
                lemma_unsigned_decimal(n as nat, 0xffff_ffff);
            }
            lemma_quality_lossless(b, h);
        },
    }
}

proof fn lemma_joined_cons(parts: Seq<Seq<char>>, sep: Seq<char>)
    requires
        parts.len() > 1,
    ensures
        joined(parts, sep) == parts[0] + sep + joined(parts.drop_first(), sep),
    decreases parts.len(),
{
    if parts.len() > 2 {
        lemma_joined_cons(parts.drop_last(), sep);
        assert(parts.drop_last().drop_first() =~= parts.drop_first().drop_last());
        assert(joined(parts, sep) =~= parts[0] + sep + joined(parts.drop_first(), sep));
    } else {
        assert(parts.drop_last() =~= seq![parts[0]]);
        assert(parts.drop_first() =~= seq![parts[1]]);
        assert(joined(seq![parts[0]], sep) == parts[0]);
        assert(joined(seq![parts[1]], sep) == parts[1]);
        assert(joined(parts, sep) =~= parts[0] + sep + joined(parts.drop_first(), sep));
    }
}

/// Parting a joined row at the separator gives the row back.
pub proof fn split_undoes_join(parts: Seq<Seq<char>>, c: char)
    requires
        parts.len() > 0,
        forall|i: int, j: int|
            0 <= i < parts.len() && 0 <= j < parts[i].len() ==> (#[trigger] parts[i][j]) != c,
    ensures
        split_of(joined(parts, seq![c]), c) == parts,
    decreases parts.len(),
{
    if parts.len() == 1 {
        assert forall|j: int| 0 <= j < parts[0].len() implies parts[0][j] != c by {}
        lemma_split_single(parts[0], c);
        assert(parts =~= seq![parts[0]]);
    } else {
        lemma_joined_cons(parts, seq![c]);
        let rest = parts.drop_first();
        assert forall|i: int, j: int|
            0 <= i < rest.len() && 0 <= j < rest[i].len() implies (#[trigger] rest[i][j]) != c by {
            assert(rest[i] == parts[i + 1]);
            assert(parts[i + 1][j] != c);
        }
        split_undoes_join(rest, c);
        assert forall|j: int| 0 <= j < parts[0].len() implies parts[0][j] != c by {}
        lemma_split_cons(parts[0], c, joined(rest, seq![c]));
        assert(seq![parts[0]] + rest =~= parts);
    }
}

proof fn lemma_trimmed_tags(tags: Seq<Seq<char>>)
    requires
        forall|i: int| 0 <= i < tags.len() ==> storable_tag(#[trigger] tags[i]),
    ensures
        trimmed_pieces(tags) == tags,
    decreases tags.len(),
{
    if tags.len() > 0 {
        assert forall|i: int| 0 <= i < tags.drop_last().len() implies storable_tag(
            #[trigger] tags.drop_last()[i],
        ) by {
            assert(storable_tag(tags[i]));
        }
        lemma_trimmed_tags(tags.drop_last());
        assert(storable_tag(tags[tags.len() - 1]));
        assert(tags.drop_last().push(tags.last()) =~= tags);
    }
}

proof fn lemma_meta_fold_concat(m: SoftMetaView, a: Seq<Seq<char>>, b: Seq<Seq<char>>)
    ensures
        meta_fold(m, a + b) == meta_fold(meta_fold(m, a), b),
    decreases a.len(),
{
    if a.len() == 0 {
        assert(a + b =~= b);
    } else {
        assert((a + b).drop_first() =~= a.drop_first() + b);
        lemma_meta_fold_concat(meta_with(m, a[0]), a.drop_first(), b);
    }
}

proof fn lemma_meta_one(m: SoftMetaView, f: Seq<char>)
    ensures
        meta_fold(m, seq![f]) == meta_with(m, f),
        meta_fold(m, seq![]) == m,
{
    assert(seq![f].drop_first() =~= Seq::<Seq<char>>::empty());
    assert(meta_fold(meta_with(m, f), Seq::<Seq<char>>::empty()) == meta_with(m, f));
}

pub open spec fn number_char(c: char) -> bool {
    ('0' <= c <= '9') || ('a' <= c <= 'z') || ('A' <= c <= 'Z') || c == '.' || c == '+' || c == '-'
}

proof fn lemma_mantissa_chars(s: Seq<char>)
    requires
        mantissa_syntax(s),
    ensures
        forall|i: int| 0 <= i < s.len() ==> number_char(#[trigger] s[i]),
{
    match char_from(s, '.', 0) {
        None => {},
        Some(k) => {
            crate::text::lemma_char_from_bounds(s, '.', 0);
            assert forall|i: int| 0 <= i < s.len() implies number_char(#[trigger] s[i]) by {
                if i < k {
                    assert(s.take(k)[i] == s[i]);
                } else if i > k {
                    assert(s.skip(k + 1)[i - k - 1] == s[i]);
                }
            }
        },
    }
}

/// A number is written with digits, letters, points and signs only.
proof fn lemma_float_chars(s: Seq<char>)
    requires
        float_syntax(s),
    ensures
        forall|i: int| 0 <= i < s.len() ==> number_char(#[trigger] s[i]),
{
    let signed = s.len() > 0 && (s[0] == '+' || s[0] == '-');
    let t = if signed {
        s.drop_first()
    } else {
        s
    };
    let low = ascii_lower_of(t);
    assert forall|i: int| 0 <= i < t.len() implies number_char(#[trigger] t[i]) by {
        assert(low[i] == ascii_lower(t[i]));
        if low == "inf"@ || low == "infinity"@ || low == "nan"@ {
            reveal_strlit("inf");
            reveal_strlit("infinity");
            reveal_strlit("nan");
        } else {
            match char_from(low, 'e', 0) {
                None => {
                    lemma_mantissa_chars(t);
                },
                Some(k) => {
                    crate::text::lemma_char_from_bounds(low, 'e', 0);
                    lemma_mantissa_chars(t.take(k));
                    let e = t.skip(k + 1);
                    if i < k {
                        assert(t.take(k)[i] == t[i]);
                    } else if i > k {
                        assert(e[i - k - 1] == t[i]);
                        if e[0] == '+' || e[0] == '-' {
                            if i - k - 1 > 0 {
                                assert(e.drop_first()[i - k - 2] == t[i]);
                            }
                        }
                    }
                },
            }
        }
    }
    assert forall|i: int| 0 <= i < s.len() implies number_char(#[trigger] s[i]) by {
        if signed {
            if i > 0 {
                assert(t[i - 1] == s[i]);
            }
        }
    }
}


/// The metadata keys are short words without padding.
pub open spec fn meta_key(k: Seq<char>) -> bool {
    k == "isrc"@ || k == "album"@ || k == "year"@ || k == "bpm"@ || k == "key"@ || k == "tags"@
}

proof fn lemma_meta_key(k: Seq<char>)
    requires
        meta_key(k),
    ensures
        k.len() > 0,
        trim_of(k) == k,
        !whitespace(k[0]),
        forall|i: int| 0 <= i < k.len() ==> k[i] != '=' && k[i] != ';' && k[i] != '\n',
        "isrc"@ != "album"@ && "isrc"@ != "year"@ && "isrc"@ != "bpm"@ && "isrc"@ != "key"@ && "isrc"@ != "tags"@,
        "album"@ != "year"@ && "album"@ != "bpm"@ && "album"@ != "key"@ && "album"@ != "tags"@,
        "year"@ != "bpm"@ && "year"@ != "key"@ && "year"@ != "tags"@,
        "bpm"@ != "key"@ && "bpm"@ != "tags"@ && "key"@ != "tags"@,
{
    reveal_strlit("isrc");
    reveal_strlit("album");
    reveal_strlit("year");
    reveal_strlit("bpm");
    reveal_strlit("key");
    reveal_strlit("tags");
    lemma_trim_same(k);
    assert("isrc"@[0] == 'i' && "album"@[0] == 'a' && "year"@[0] == 'y' && "bpm"@[0] == 'b'
        && "key"@[0] == 'k' && "tags"@[0] == 't');
}

/// One metadata field reads back as its key and its value.
proof fn lemma_meta_field(k: Seq<char>, v: Seq<char>)
    requires
        meta_key(k),
        forall|i: int| 0 <= i < v.len() ==> v[i] != ';' && v[i] != '\n',
    ensures
        split_once_of(k + seq!['='] + v, '=') == Some((k, v)),
        trim_of(k) == k,
        (k + seq!['='] + v).len() > 0,
        forall|i: int|
            0 <= i < (k + seq!['='] + v).len() ==> (#[trigger] (k + seq!['='] + v)[i]) != ';' && (k
                + seq!['='] + v)[i] != '\n',
{
    lemma_meta_key(k);
    lemma_split_once(k, '=', v);
    let f = k + seq!['='] + v;
    assert forall|i: int| 0 <= i < f.len() implies (#[trigger] f[i]) != ';' && f[i] != '\n' by {
        if i < k.len() {
            assert(f[i] == k[i]);
        } else if i > k.len() {
            assert(f[i] == v[i - k.len() - 1]);
        }
    }
}

pub open spec fn field_ok(f: Seq<char>) -> bool {
    f.len() > 0 && forall|i: int| 0 <= i < f.len() ==> (#[trigger] f[i]) != ';' && f[i] != '\n'
}

pub open spec fn fields_ok(fs: Seq<Seq<char>>) -> bool {
    forall|i: int| 0 <= i < fs.len() ==> field_ok(#[trigger] fs[i])
}

proof fn lemma_fields_ok_concat(a: Seq<Seq<char>>, b: Seq<Seq<char>>)
    requires
        fields_ok(a),
        fields_ok(b),
    ensures
        fields_ok(a + b),
{
    assert forall|i: int| 0 <= i < (a + b).len() implies field_ok(#[trigger] (a + b)[i]) by {
        if i < a.len() {
            assert((a + b)[i] == a[i]);
        } else {
            assert((a + b)[i] == b[i - a.len()]);
        }
    }
}

spec fn text_part(k: Seq<char>, v: Option<Seq<char>>) -> Seq<Seq<char>> {
    match v {
        Some(x) => seq![k + seq!['='] + pct_encoded(x)],
        None => seq![],
    }
}

spec fn year_part(v: Option<u16>) -> Seq<Seq<char>> {
    match v {
        Some(x) => seq!["year"@ + seq!['='] + decimal(x as nat)],
        None => seq![],
    }
}

spec fn bpm_part(v: Option<Seq<char>>) -> Seq<Seq<char>> {
    match v {
        Some(x) => seq!["bpm"@ + seq!['='] + x],
        None => seq![],
    }
}

spec fn tags_part(v: Seq<Seq<char>>) -> Seq<Seq<char>> {
    if v.len() > 0 {
        seq!["tags"@ + seq!['='] + pct_encoded(joined(v, ","@))]
    } else {
        seq![]
    }
}

proof fn lemma_text_part(m: SoftMetaView, k: Seq<char>, v: Option<Seq<char>>)
    requires
        k == "isrc"@ || k == "album"@ || k == "key"@,
    ensures
        fields_ok(text_part(k, v)),
        v is Some ==> k == "isrc"@ ==> meta_fold(m, text_part(k, v)) == (SoftMetaView { isrc: v, ..m }),
        v is Some ==> k == "album"@ ==> meta_fold(m, text_part(k, v)) == (SoftMetaView { album: v, ..m }),
        v is Some ==> k == "key"@ ==> meta_fold(m, text_part(k, v)) == (SoftMetaView { key: v, ..m }),
        v is None ==> meta_fold(m, text_part(k, v)) == m,
{
    lemma_meta_one(m, k);
    if let Some(x) = v {
        lemma_meta_key(k);
        pct_encoded_is_one_field(x);
        pct_round_trip(x);
        lemma_meta_field(k, pct_encoded(x));
        lemma_meta_one(m, k + seq!['='] + pct_encoded(x));
    }
}

proof fn lemma_year_part(m: SoftMetaView, v: Option<u16>)
    ensures
        fields_ok(year_part(v)),
        v is Some ==> meta_fold(m, year_part(v)) == (SoftMetaView { year: v, ..m }),
        v is None ==> meta_fold(m, year_part(v)) == m,
{
    lemma_meta_one(m, seq![]);
    if let Some(x) = v {
        let d = decimal(x as nat);
        lemma_meta_key("year"@);
        lemma_decimal_nonempty(x as nat);
        lemma_unsigned_decimal(x as nat, 0xffff);
        assert forall|i: int| 0 <= i < d.len() implies d[i] != ';' && d[i] != '\n' && !crate::pct::must_escape(d[i], true) by {
            assert('0' <= d[i] <= '9');
        }
        pct_encoded_plain(d);
        lemma_meta_field("year"@, d);
        lemma_meta_one(m, "year"@ + seq!['='] + d);
    }
}

proof fn lemma_bpm_part(m: SoftMetaView, v: Option<Seq<char>>)
    requires
        v matches Some(x) ==> float_syntax(x),
    ensures
        fields_ok(bpm_part(v)),
        v is Some ==> meta_fold(m, bpm_part(v)) == (SoftMetaView { bpm: v, ..m }),
        v is None ==> meta_fold(m, bpm_part(v)) == m,
{
    lemma_meta_one(m, seq![]);
    if let Some(x) = v {
        lemma_meta_key("bpm"@);
        lemma_float_chars(x);
        assert forall|i: int| 0 <= i < x.len() implies x[i] != ';' && x[i] != '\n' && !crate::pct::must_escape(x[i], true) by {
            assert(number_char(x[i]));
        }
        pct_encoded_plain(x);
        lemma_meta_field("bpm"@, x);
        lemma_meta_one(m, "bpm"@ + seq!['='] + x);
    }
}

proof fn lemma_tags_part(m: SoftMetaView, v: Seq<Seq<char>>)
    requires
        forall|i: int| 0 <= i < v.len() ==> storable_tag(#[trigger] v[i]),
    ensures
        fields_ok(tags_part(v)),
        v.len() > 0 ==> meta_fold(m, tags_part(v)) == (SoftMetaView { tags: v, ..m }),
        v.len() == 0 ==> meta_fold(m, tags_part(v)) == m,
{
    lemma_meta_one(m, seq![]);
    if v.len() > 0 {
        let x = joined(v, ","@);
        lemma_meta_key("tags"@);
        pct_encoded_is_one_field(x);
        pct_round_trip(x);
        reveal_strlit(",");
        assert(","@ =~= seq![',']);
        assert forall|i: int, j: int|
            0 <= i < v.len() && 0 <= j < v[i].len() implies (#[trigger] v[i][j]) != ',' by {
            assert(storable_tag(v[i]));
        }
        split_undoes_join(v, ',');
        lemma_trimmed_tags(v);
        lemma_meta_field("tags"@, pct_encoded(x));
        lemma_meta_one(m, "tags"@ + seq!['='] + pct_encoded(x));
    }
}

/// The text of metadata reads back as the metadata.
pub proof fn meta_round_trip(m: SoftMetaView)
    requires
        storable_soft(m),
        m != no_meta(),
    ensures
        meta_of(meta_text(m)) == m,
        one_line(meta_text(m)),
        meta_text(m).len() > 0,
{
    let p1 = text_part("isrc"@, m.isrc);
    let p2 = text_part("album"@, m.album);
    let p3 = year_part(m.year);
    let p4 = bpm_part(m.bpm);
    let p5 = text_part("key"@, m.key);
    let p6 = tags_part(m.tags);
    let m0 = no_meta();
    let m1 = SoftMetaView { isrc: m.isrc, ..m0 };
    let m2 = SoftMetaView { album: m.album, ..m1 };
    let m3 = SoftMetaView { year: m.year, ..m2 };
    let m4 = SoftMetaView { bpm: m.bpm, ..m3 };
    let m5 = SoftMetaView { key: m.key, ..m4 };
    lemma_text_part(m0, "isrc"@, m.isrc);
    lemma_text_part(m1, "album"@, m.album);
    lemma_year_part(m2, m.year);
    lemma_bpm_part(m3, m.bpm);
    lemma_text_part(m4, "key"@, m.key);
    lemma_tags_part(m5, m.tags);
    if m.tags.len() == 0 {
        assert(m.tags =~= Seq::<Seq<char>>::empty());
    }
    let all = meta_parts(m);
    assert(all == p1 + p2 + p3 + p4 + p5 + p6);
    lemma_meta_fold_concat(m0, p1 + p2 + p3 + p4 + p5, p6);
    lemma_meta_fold_concat(m0, p1 + p2 + p3 + p4, p5);
    lemma_meta_fold_concat(m0, p1 + p2 + p3, p4);
    lemma_meta_fold_concat(m0, p1 + p2, p3);
    lemma_meta_fold_concat(m0, p1, p2);
    assert(meta_fold(m0, all) == m);
    lemma_fields_ok_concat(p1, p2);
    lemma_fields_ok_concat(p1 + p2, p3);
    lemma_fields_ok_concat(p1 + p2 + p3, p4);
    lemma_fields_ok_concat(p1 + p2 + p3 + p4, p5);
    lemma_fields_ok_concat(p1 + p2 + p3 + p4 + p5, p6);
    if all.len() == 0 {
        assert(meta_fold(m0, all) == m0);
    }
    reveal_strlit(";");
    assert(";"@ =~= seq![';']);
    assert forall|i: int, j: int|
        0 <= i < all.len() && 0 <= j < all[i].len() implies (#[trigger] all[i][j]) != ';' by {
        assert(field_ok(all[i]));
    }
    split_undoes_join(all, ';');
    lemma_joined_one_line(all);
}

proof fn lemma_joined_one_line(parts: Seq<Seq<char>>)
    requires
        fields_ok(parts),
        parts.len() > 0,
    ensures
        one_line(joined(parts, ";"@)),
        joined(parts, ";"@).len() > 0,
    decreases parts.len(),
{
    reveal_strlit(";");
    if parts.len() == 1 {
        assert(field_ok(parts[0]));
    } else {
        let rest = parts.drop_last();
        assert forall|i: int| 0 <= i < rest.len() implies field_ok(#[trigger] rest[i]) by {
            assert(field_ok(parts[i]));
        }
        lemma_joined_one_line(rest);
        let a = joined(rest, ";"@);
        let b = parts.last();
        assert(field_ok(parts[parts.len() - 1]));
        let s = a + ";"@ + b;
        assert forall|i: int| 0 <= i < s.len() implies s[i] != '\n' by {
            if i < a.len() {
                assert(s[i] == a[i]);
            } else if i > a.len() {
                assert(s[i] == b[i - a.len() - 1]);
            }
        }
    }
}

/// The text of a rendition reads back as the rendition.
pub proof fn rendition_round_trip(r: ParsedView, now: Moment)
    requires
        r.added_at.four_digit_second(),
        readable(r.added_at),
    ensures
        rendition_of(rendition_text(r), now) == Some(r),
        one_line(rendition_text(r)),
        clean_end(pct_encoded(r.uri)) ==> clean_end(rendition_text(r)),
{
    let a = pct_encoded(r.source);
    let q = quality_text(r.quality);
    let d = moment_text(r.added_at);
    let u = pct_encoded(r.uri);
    pct_encoded_is_one_field(r.source);
    pct_encoded_is_one_field(r.uri);
    pct_round_trip(r.source);
    pct_round_trip(r.uri);
    quality_round_trip(r.quality);
    r.added_at.at_own();
    let s = rendition_text(r);
    let r2 = d + seq!['|'] + u;
    let r1 = q + seq!['|'] + r2;
    assert(s =~= a + seq!['|'] + r1);
    assert forall|j: int| 0 <= j < a.len() implies a[j] != '|' by {}
    assert forall|j: int| 0 <= j < d.len() implies d[j] != '|' && d[j] != '\n' by {}
    lemma_split_once(a, '|', r1);
    lemma_split_once(q, '|', r2);
    lemma_split_once(d, '|', u);
    assert('0' <= d[0] <= '9' || d[0] == '-' || d[0] == ':' || d[0] == 'T' || d[0] == 'Z');
    assert('0' <= d[19] <= '9' || d[19] == '-' || d[19] == ':' || d[19] == 'T' || d[19] == 'Z');
    lemma_trim_same(d);
    assert forall|i: int| 0 <= i < s.len() implies s[i] != '\n' by {
        let x = a.len() as int;
        let y = x + 1 + q.len();
        let z = y + 1 + d.len();
        if i < x {
            assert(s[i] == a[i]);
        } else if x < i < y {
            assert(s[i] == q[i - x - 1]);
        } else if y < i < z {
            assert(s[i] == d[i - y - 1]);
        } else if i > z {
            assert(s[i] == u[i - z - 1]);
        }
    }
    assert(s.last() == if u.len() > 0 {
        u.last()
    } else {
        '|'
    });
}


pub open spec fn lines_ok(ls: Seq<Seq<char>>) -> bool {
    forall|i: int| 0 <= i < ls.len() ==> one_line(#[trigger] ls[i])
}

proof fn lemma_lines_ok_concat(a: Seq<Seq<char>>, b: Seq<Seq<char>>)
    requires
        lines_ok(a),
        lines_ok(b),
    ensures
        lines_ok(a + b),
{
    assert forall|i: int| 0 <= i < (a + b).len() implies one_line(#[trigger] (a + b)[i]) by {
        if i < a.len() {
            assert((a + b)[i] == a[i]);
        } else {
            assert((a + b)[i] == b[i - a.len()]);
        }
    }
}

proof fn lemma_extinf(st: Reading, n: i64, t: Seq<char>, now: Moment)
    requires
        one_line(t),
        clean_end(t),
    ensures
        ({
            let l = "#EXTINF:"@ + signed_decimal(n as int) + seq![','] + t;
            &&& one_line(l)
            &&& after_lines(st, seq![l], now) == (Reading {
                cur: Some(EntryView { extinf: Some((n, t)), ..current(st) }),
                ..st
            })
        }),
{
    reveal_strlit("#EXTINF:");
    reveal_strlit("EXTINF:");
    reveal_strlit("PLAYLIST:");
    reveal_strlit("MEDLEY-PLAYLIST-ID:");
    reveal_strlit("MEDLEY-NOTES:");
    let d = signed_decimal(n as int);
    lemma_signed_decimal(n as int);
    let v = d + seq![','] + t;
    let l = "#EXTINF:"@ + d + seq![','] + t;
    assert(l =~= "#EXTINF:"@ + v);
    assert("#EXTINF:"@ =~= seq!['#'] + "EXTINF:"@);
    assert forall|i: int| 0 <= i < v.len() implies v[i] != '\n' by {
        if i < d.len() {
            assert(v[i] == d[i]);
        } else if i > d.len() {
            assert(v[i] == t[i - d.len() - 1]);
        }
    }
    assert(v.last() == if t.len() > 0 {
        t.last()
    } else {
        ','
    });
    lemma_directive_line(st, "#EXTINF:"@, "EXTINF:"@, v, now);
    lemma_strip_other("EXTINF:"@, v, "PLAYLIST:"@, 0);
    lemma_strip_other("EXTINF:"@, v, "MEDLEY-PLAYLIST-ID:"@, 0);
    lemma_strip_other("EXTINF:"@, v, "MEDLEY-NOTES:"@, 0);
    lemma_strip_own("EXTINF:"@, v);
    assert forall|j: int| 0 <= j < d.len() implies d[j] != ',' by {}
    lemma_split_once(d, ',', t);
    assert(('0' <= d[0] <= '9') || d[0] == '-');
    assert(('0' <= d[d.len() - 1] <= '9') || d[d.len() - 1] == '-');
    lemma_trim_same(d);
    lemma_one_line(st, l, now);
}

proof fn lemma_track_id(st: Reading, id: u128, now: Moment)
    ensures
        ({
            let l = "#MEDLEY-TRACK-ID:"@ + uuid_text(id);
            &&& one_line(l)
            &&& after_lines(st, seq![l], now) == (Reading {
                cur: Some(EntryView { track_id: Some(id), ..current(st) }),
                ..st
            })
        }),
{
    reveal_strlit("#MEDLEY-TRACK-ID:");
    reveal_strlit("MEDLEY-TRACK-ID:");
    reveal_strlit("PLAYLIST:");
    reveal_strlit("MEDLEY-PLAYLIST-ID:");
    reveal_strlit("MEDLEY-NOTES:");
    reveal_strlit("EXTINF:");
    let v = uuid_text(id);
    let d = "MEDLEY-TRACK-ID:"@;
    uuid_round_trip(id);
    assert(hex_or_hyphen(v[0]) && hex_or_hyphen(v[35]));
    lemma_trim_same(v);
    assert forall|i: int| 0 <= i < v.len() implies v[i] != '\n' by {
        assert(hex_or_hyphen(v[i]));
    }
    assert("#MEDLEY-TRACK-ID:"@ =~= seq!['#'] + d);
    lemma_directive_line(st, "#MEDLEY-TRACK-ID:"@, d, v, now);
    lemma_strip_other(d, v, "PLAYLIST:"@, 0);
    lemma_strip_other(d, v, "MEDLEY-PLAYLIST-ID:"@, 7);
    lemma_strip_other(d, v, "MEDLEY-NOTES:"@, 7);
    lemma_strip_other(d, v, "EXTINF:"@, 0);
    lemma_strip_own(d, v);
    lemma_one_line(st, "#MEDLEY-TRACK-ID:"@ + v, now);
}

proof fn lemma_played_at(st: Reading, t: Moment, now: Moment)
    requires
        t.four_digit_second(),
        readable(t),
    ensures
        ({
            let l = "#MEDLEY-PLAYED-AT:"@ + moment_text(t);
            &&& one_line(l)
            &&& after_lines(st, seq![l], now) == (Reading {
                cur: Some(EntryView { played_at: Some(t), ..current(st) }),
                ..st
            })
        }),
{
    reveal_strlit("#MEDLEY-PLAYED-AT:");
    reveal_strlit("MEDLEY-PLAYED-AT:");
    reveal_strlit("PLAYLIST:");
    reveal_strlit("MEDLEY-PLAYLIST-ID:");
    reveal_strlit("MEDLEY-NOTES:");
    reveal_strlit("EXTINF:");
    reveal_strlit("MEDLEY-TRACK-ID:");
    let v = moment_text(t);
    let d = "MEDLEY-PLAYED-AT:"@;
    t.at_own();
    assert('0' <= v[0] <= '9' || v[0] == '-' || v[0] == ':' || v[0] == 'T' || v[0] == 'Z');
    assert('0' <= v[19] <= '9' || v[19] == '-' || v[19] == ':' || v[19] == 'T' || v[19] == 'Z');
    lemma_trim_same(v);
    assert forall|i: int| 0 <= i < v.len() implies v[i] != '\n' by {}
    assert("#MEDLEY-PLAYED-AT:"@ =~= seq!['#'] + d);
    lemma_directive_line(st, "#MEDLEY-PLAYED-AT:"@, d, v, now);
    lemma_strip_other(d, v, "PLAYLIST:"@, 0);
    lemma_strip_other(d, v, "MEDLEY-PLAYLIST-ID:"@, 11);
    lemma_strip_other(d, v, "MEDLEY-NOTES:"@, 7);
    lemma_strip_other(d, v, "EXTINF:"@, 0);
    lemma_strip_other(d, v, "MEDLEY-TRACK-ID:"@, 7);
    lemma_strip_own(d, v);
    lemma_one_line(st, "#MEDLEY-PLAYED-AT:"@ + v, now);
}

proof fn lemma_meta_line(st: Reading, m: SoftMetaView, now: Moment)
    requires
        storable_soft(m),
        m != no_meta(),
    ensures
        ({
            let l = "#MEDLEY-META:"@ + meta_text(m);
            &&& one_line(l)
            &&& after_lines(st, seq![l], now) == (Reading {
                cur: Some(EntryView { meta: m, ..current(st) }),
                ..st
            })
        }),
{
    reveal_strlit("#MEDLEY-META:");
    reveal_strlit("MEDLEY-META:");
    reveal_strlit("PLAYLIST:");
    reveal_strlit("MEDLEY-PLAYLIST-ID:");
    reveal_strlit("MEDLEY-NOTES:");
    reveal_strlit("EXTINF:");
    reveal_strlit("MEDLEY-TRACK-ID:");
    reveal_strlit("MEDLEY-PLAYED-AT:");
    let v = meta_text(m);
    let d = "MEDLEY-META:"@;
    meta_round_trip(m);
    assert("#MEDLEY-META:"@ =~= seq!['#'] + d);
    lemma_directive_line(st, "#MEDLEY-META:"@, d, v, now);
    lemma_strip_other(d, v, "PLAYLIST:"@, 0);
    lemma_strip_other(d, v, "MEDLEY-PLAYLIST-ID:"@, 7);
    lemma_strip_other(d, v, "MEDLEY-NOTES:"@, 7);
    lemma_strip_other(d, v, "EXTINF:"@, 0);
    lemma_strip_other(d, v, "MEDLEY-TRACK-ID:"@, 7);
    lemma_strip_other(d, v, "MEDLEY-PLAYED-AT:"@, 7);
    lemma_strip_own(d, v);
    lemma_one_line(st, "#MEDLEY-META:"@ + v, now);
}

proof fn lemma_rendition_line(st: Reading, r: ParsedView, now: Moment)
    requires
        r.added_at.four_digit_second(),
        readable(r.added_at),
        clean_end(pct_encoded(r.uri)),
    ensures
        ({
            let l = "#MEDLEY-RENDITION:"@ + rendition_text(r);
            &&& one_line(l)
            &&& after_lines(st, seq![l], now) == (Reading {
                cur: Some(
                    EntryView { renditions: current(st).renditions.push(r), ..current(st) },
                ),
                ..st
            })
        }),
{
    reveal_strlit("#MEDLEY-RENDITION:");
    reveal_strlit("MEDLEY-RENDITION:");
    reveal_strlit("PLAYLIST:");
    reveal_strlit("MEDLEY-PLAYLIST-ID:");
    reveal_strlit("MEDLEY-NOTES:");
    reveal_strlit("EXTINF:");
    reveal_strlit("MEDLEY-TRACK-ID:");
    reveal_strlit("MEDLEY-PLAYED-AT:");
    reveal_strlit("MEDLEY-META:");
    let v = rendition_text(r);
    let d = "MEDLEY-RENDITION:"@;
    rendition_round_trip(r, now);
    assert("#MEDLEY-RENDITION:"@ =~= seq!['#'] + d);
    lemma_directive_line(st, "#MEDLEY-RENDITION:"@, d, v, now);
    lemma_strip_other(d, v, "PLAYLIST:"@, 0);
    lemma_strip_other(d, v, "MEDLEY-PLAYLIST-ID:"@, 7);
    lemma_strip_other(d, v, "MEDLEY-NOTES:"@, 7);
    lemma_strip_other(d, v, "EXTINF:"@, 0);
    lemma_strip_other(d, v, "MEDLEY-TRACK-ID:"@, 7);
    lemma_strip_other(d, v, "MEDLEY-PLAYED-AT:"@, 7);
    lemma_strip_other(d, v, "MEDLEY-META:"@, 7);
    lemma_strip_own(d, v);
    lemma_one_line(st, "#MEDLEY-RENDITION:"@ + v, now);
}

proof fn lemma_rendition_lines(st: Reading, v: Seq<ParsedView>, now: Moment)
    requires
        forall|i: int|
            0 <= i < v.len() ==> readable((#[trigger] v[i]).added_at)
                && v[i].added_at.four_digit_second() && clean_end(pct_encoded(v[i].uri)),
    ensures
        lines_ok(rendition_lines(v)),
        ({
            let after = after_lines(st, rendition_lines(v), now);
            &&& after.meta == st.meta
            &&& after.entries == st.entries
            &&& current(after) == (EntryView {
                renditions: current(st).renditions + v,
                ..current(st)
            })
        }),
    decreases v.len(),
{
    if v.len() == 0 {
        assert(rendition_lines(v).len() == 0);
        assert(current(st).renditions + v =~= current(st).renditions);
    } else {
        let head = v.drop_last();
        assert forall|i: int| 0 <= i < head.len() implies readable((#[trigger] head[i]).added_at)
            && head[i].added_at.four_digit_second() && clean_end(pct_encoded(head[i].uri)) by {
            assert(head[i] == v[i]);
        }
        lemma_rendition_lines(st, head, now);
        let mid = after_lines(st, rendition_lines(head), now);
        let r = v[v.len() - 1];
        lemma_rendition_line(mid, r, now);
        let l = "#MEDLEY-RENDITION:"@ + rendition_text(r);
        assert(rendition_lines(v) =~= rendition_lines(head) + seq![l]);
        lemma_after_lines_concat(st, rendition_lines(head), seq![l], now);
        assert((current(st).renditions + head).push(r) =~= current(st).renditions + v);
        assert(lines_ok(seq![l]));
        lemma_lines_ok_concat(rendition_lines(head), seq![l]);
    }
}

/// Reading the lines of an entry adds the entry.
proof fn lemma_entry(meta: MetaView, entries: Seq<EntryView>, e: EntryView, now: Moment)
    requires
        storable_entry(e),
        entry_readable(e),
    ensures
        after_lines(reading(meta, entries, None), entry_lines(e), now) == reading(
            meta,
            entries.push(e),
            None,
        ),
        lines_ok(entry_lines(e)),
{
    let b = blank_entry();
    let s0 = reading(meta, entries, None);
    let p0 = seq![Seq::<char>::empty()];
    let p1 = match e.extinf {
        Some((n, t)) => seq!["#EXTINF:"@ + signed_decimal(n as int) + seq![','] + t],
        None => seq![],
    };
    let p2 = match e.track_id {
        Some(id) => seq!["#MEDLEY-TRACK-ID:"@ + uuid_text(id)],
        None => seq![],
    };
    let p3 = match e.played_at {
        Some(t) => seq!["#MEDLEY-PLAYED-AT:"@ + moment_text(t)],
        None => seq![],
    };
    let p4 = if e.meta != no_meta() {
        seq!["#MEDLEY-META:"@ + meta_text(e.meta)]
    } else {
        seq![]
    };
    let p5 = rendition_lines(e.renditions);
    let p6 = seq![e.primary_uri];
    lemma_one_line(s0, Seq::<char>::empty(), now);
    assert(after_lines(s0, p0, now) == s0);
    let s1 = after_lines(s0, p1, now);
    assert(lines_ok(p1) && s1.meta == meta && s1.entries == entries && current(s1) == (EntryView {
        extinf: e.extinf,
        ..b
    })) by {
        if let Some((n, t)) = e.extinf {
            lemma_extinf(s0, n, t, now);
        }
    }
    let s2 = after_lines(s1, p2, now);
    assert(lines_ok(p2) && s2.meta == meta && s2.entries == entries && current(s2) == (EntryView {
        extinf: e.extinf,
        track_id: e.track_id,
        ..b
    })) by {
        if let Some(id) = e.track_id {
            lemma_track_id(s1, id, now);
        }
    }
    let s3 = after_lines(s2, p3, now);
    assert(lines_ok(p3) && s3.meta == meta && s3.entries == entries && current(s3) == (EntryView {
        extinf: e.extinf,
        track_id: e.track_id,
        played_at: e.played_at,
        ..b
    })) by {
        if let Some(t) = e.played_at {
            lemma_played_at(s2, t, now);
        }
    }
    let s4 = after_lines(s3, p4, now);
    assert(lines_ok(p4) && s4.meta == meta && s4.entries == entries && current(s4) == (EntryView {
        extinf: e.extinf,
        track_id: e.track_id,
        played_at: e.played_at,
        meta: e.meta,
        ..b
    })) by {
        if e.meta != no_meta() {
            lemma_meta_line(s3, e.meta, now);
        }
    }
    lemma_rendition_lines(s4, e.renditions, now);
    let s5 = after_lines(s4, p5, now);
    assert(b.renditions + e.renditions =~= e.renditions);
    lemma_trim_same(e.primary_uri);
    lemma_one_line(s5, e.primary_uri, now);
    assert(after_lines(s5, p6, now) == reading(meta, entries.push(e), None));
    assert(entry_head(e) == p0 + p1 + p2 + p3 + p4);
    assert(entry_lines(e) == p0 + p1 + p2 + p3 + p4 + p5 + p6);
    lemma_after_lines_concat(s0, p0 + p1 + p2 + p3 + p4 + p5, p6, now);
    lemma_after_lines_concat(s0, p0 + p1 + p2 + p3 + p4, p5, now);
    lemma_after_lines_concat(s0, p0 + p1 + p2 + p3, p4, now);
    lemma_after_lines_concat(s0, p0 + p1 + p2, p3, now);
    lemma_after_lines_concat(s0, p0 + p1, p2, now);
    lemma_after_lines_concat(s0, p0, p1, now);
    assert(lines_ok(p0));
    assert(lines_ok(p6));
    lemma_lines_ok_concat(p0, p1);
    lemma_lines_ok_concat(p0 + p1, p2);
    lemma_lines_ok_concat(p0 + p1 + p2, p3);
    lemma_lines_ok_concat(p0 + p1 + p2 + p3, p4);
    lemma_lines_ok_concat(p0 + p1 + p2 + p3 + p4, p5);
    lemma_lines_ok_concat(p0 + p1 + p2 + p3 + p4 + p5, p6);
}

proof fn lemma_entries(meta: MetaView, v: Seq<EntryView>, now: Moment)
    requires
        forall|i: int|
            0 <= i < v.len() ==> storable_entry(#[trigger] v[i]) && entry_readable(v[i]),
    ensures
        after_lines(reading(meta, seq![], None), entries_lines(v), now) == reading(meta, v, None),
        lines_ok(entries_lines(v)),
    decreases v.len(),
{
    if v.len() == 0 {
        assert(v =~= Seq::<EntryView>::empty());
    } else {
        let head = v.drop_last();
        assert forall|i: int| 0 <= i < head.len() implies storable_entry(#[trigger] head[i])
            && entry_readable(head[i]) by {
            assert(head[i] == v[i]);
        }
        lemma_entries(meta, head, now);
        let e = v[v.len() - 1];
        lemma_entry(meta, head, e, now);
        lemma_after_lines_concat(
            reading(meta, seq![], None),
            entries_lines(head),
            entry_lines(e),
            now,
        );
        assert(head.push(e) =~= v);
        lemma_lines_ok_concat(entries_lines(head), entry_lines(e));
    }
}

/// Reading the lines of a storable playlist file gives the file back, provided the dates in it
/// read back.
pub proof fn m3u_round_trip(d: DocView, now: Moment)
    requires
        storable(d),
        forall|i: int| 0 <= i < d.entries.len() ==> entry_readable(#[trigger] d.entries[i]),
    ensures
        m3u_parsed(unlines(doc_lines(d)), now) == Some(d),
{
    let h = header_lines(d.playlist);
    let b = entries_lines(d.entries);
    lemma_header(d.playlist, now);
    lemma_entries(d.playlist, d.entries, now);
    lemma_lines_ok_concat(h, b);
    let ls = doc_lines(d);
    lemma_lines_split(ls);
    let all = ls.push(Seq::<char>::empty());
    reveal_strlit("#EXTM3U");
    lemma_trim_same("#EXTM3U"@);
    assert(all[0] == "#EXTM3U"@);
    let rest = h.drop_first() + b;
    assert(all.drop_first() =~= rest + seq![Seq::<char>::empty()]);
    lemma_after_lines_concat(no_reading(), rest, seq![Seq::<char>::empty()], now);
    lemma_after_lines_concat(no_reading(), h.drop_first(), b, now);
    lemma_one_line(reading(d.playlist, d.entries, None), Seq::<char>::empty(), now);
}

/// A text with a carriage return before each line end.
pub open spec fn with_crlf(s: Seq<char>) -> Seq<char>
    decreases s.len(),
{
    if s.len() == 0 {
        seq![]
    } else if s[0] == '\n' {
        seq!['\r', '\n'] + with_crlf(s.drop_first())
    } else {
        seq![s[0]] + with_crlf(s.drop_first())
    }
}

/// Rows of lines that are the same but for what is around them.
pub open spec fn same_lines(a: Seq<Seq<char>>, b: Seq<Seq<char>>) -> bool {
    a.len() == b.len() && forall|i: int| 0 <= i < a.len() ==> trim_of(#[trigger] a[i]) == trim_of(b[i])
}

proof fn lemma_trim_return(a: Seq<char>)
    ensures
        trim_of(a.push('\r')) == trim_of(a),
    decreases a.len(),
{
    let x = a.push('\r');
    assert(whitespace('\r'));
    if a.len() == 0 {
        assert(x.drop_first() =~= a);
        assert(trim_start_of(x) == trim_start_of(a));
    } else if whitespace(a[0]) {
        assert(x.drop_first() =~= a.drop_first().push('\r'));
        lemma_trim_return(a.drop_first());
    } else {
        assert(x.drop_last() =~= a);
    }
}

proof fn lemma_crlf_head(a: Seq<char>, b: Seq<char>)
    requires
        forall|j: int| 0 <= j < a.len() ==> a[j] != '\n',
    ensures
        with_crlf(a + b) == a + with_crlf(b),
    decreases a.len(),
{
    if a.len() == 0 {
        assert(a + b =~= b);
        assert(a + with_crlf(b) =~= with_crlf(b));
    } else {
        let s = a + b;
        assert(s[0] == a[0]);
        assert(s.drop_first() =~= a.drop_first() + b);
        lemma_crlf_head(a.drop_first(), b);
        assert(seq![a[0]] + (a.drop_first() + with_crlf(b)) =~= a + with_crlf(b));
    }
}

proof fn lemma_crlf_split(s: Seq<char>)
    ensures
        same_lines(split_of(s, '\n'), split_of(with_crlf(s), '\n')),
    decreases s.len(),
{
    lemma_char_from_bounds(s, '\n', 0);
    match char_from(s, '\n', 0) {
        None => {
            assert forall|j: int| 0 <= j < s.len() implies s[j] != '\n' by {
                if s[j] == '\n' {
                    lemma_some_char(s, '\n', 0, j);
                }
            }
            lemma_crlf_head(s, seq![]);
            assert(s + Seq::<char>::empty() =~= s);
            assert(s + with_crlf(seq![]) =~= s);
        },
        Some(k) => {
            let a = s.subrange(0, k);
            let b = s.subrange(k + 1, s.len() as int);
            assert(s =~= a + (seq!['\n'] + b));
            lemma_crlf_head(a, seq!['\n'] + b);
            let tail = seq!['\n'] + b;
            assert(tail[0] == '\n');
            assert(tail.drop_first() =~= b);
            let w = with_crlf(s);
            assert(w =~= a.push('\r') + seq!['\n'] + with_crlf(b));
            lemma_split_cons(a.push('\r'), '\n', with_crlf(b));
            assert(s =~= a + seq!['\n'] + b);
            lemma_split_cons(a, '\n', b);
            lemma_crlf_split(b);
            lemma_trim_return(a);
            let x = split_of(s, '\n');
            let y = split_of(w, '\n');
            assert forall|i: int| 0 <= i < x.len() implies trim_of(#[trigger] x[i]) == trim_of(y[i]) by {
                if i > 0 {
                    assert(x[i] == split_of(b, '\n')[i - 1]);
                    assert(y[i] == split_of(with_crlf(b), '\n')[i - 1]);
                }
            }
        },
    }
}

/// A character that is there is found.
proof fn lemma_some_char(s: Seq<char>, c: char, i: int, j: int)
    requires
        0 <= i <= j < s.len(),
        s[j] == c,
    ensures
        char_from(s, c, i) is Some,
    decreases j - i,
{
    if s[i] != c {
        lemma_some_char(s, c, i + 1, j);
    }
}

proof fn lemma_same_tail(a: Seq<Seq<char>>, b: Seq<Seq<char>>)
    requires
        same_lines(a, b),
        a.len() > 0,
    ensures
        same_lines(a.drop_first(), b.drop_first()),
        trim_of(a[0]) == trim_of(b[0]),
{
    assert forall|i: int| 0 <= i < a.drop_first().len() implies trim_of(#[trigger] a.drop_first()[i]) == trim_of(
        b.drop_first()[i],
    ) by {
        assert(a.drop_first()[i] == a[i + 1]);
    }
}

proof fn lemma_same_after(st: Reading, a: Seq<Seq<char>>, b: Seq<Seq<char>>, now: Moment)
    requires
        same_lines(a, b),
    ensures
        after_lines(st, a, now) == after_lines(st, b, now),
    decreases a.len(),
{
    if a.len() > 0 {
        lemma_same_tail(a, b);
        lemma_same_after(after_line(st, a[0], now), a.drop_first(), b.drop_first(), now);
    }
}

proof fn lemma_same_doc(a: Seq<Seq<char>>, b: Seq<Seq<char>>, now: Moment)
    requires
        same_lines(a, b),
    ensures
        doc_of_lines(a, now) == doc_of_lines(b, now),
    decreases a.len(),
{
    if a.len() > 0 {
        lemma_same_tail(a, b);
        lemma_same_doc(a.drop_first(), b.drop_first(), now);
        lemma_same_after(no_reading(), a.drop_first(), b.drop_first(), now);
    }
}

/// A playlist file reads the same with a carriage return before each line end.
pub proof fn line_ends_do_not_matter(text: Seq<char>, now: Moment)
    ensures
        m3u_parsed(with_crlf(text), now) == m3u_parsed(text, now),
{
    lemma_crlf_split(text);
    lemma_same_doc(split_of(text, '\n'), split_of(with_crlf(text), '\n'), now);
}

/// A playlist file is one that any player reads: it starts with the marks of the format and the
/// name of the playlist, and each entry ends with the line that is played, after one that gives
/// the length in seconds and the name to show.
pub proof fn files_are_read_by_any_player(d: crate::playlist_m3u::DocView, e: crate::playlist_m3u::EntryView)
    ensures
        ({
            let ls = crate::playlist_m3u::doc_lines(d);
            ls.len() >= 2 && ls[0] == "#EXTM3U"@ && ls[1] == "#PLAYLIST:"@ + d.playlist.name
        }),
        ({
            let ls = crate::playlist_m3u::entry_lines(e);
            &&& ls.len() >= 2 && ls.last() == e.primary_uri
            &&& e.extinf matches Some(x) ==> x.0 >= 0 ==> ls[1] == "#EXTINF:"@ + crate::text::decimal(x.0 as nat) + ","@ + x.1
            &&& e.extinf matches Some(x) ==> x.0 == -1 ==> ls[1] == "#EXTINF:-1,"@ + x.1
        }),
{
    reveal_strlit(",");
    assert(","@ =~= seq![',']);
    if let Some(x) = e.extinf {
        if x.0 == -1 {
            reveal_strlit("#EXTINF:-1,");
            reveal_strlit("#EXTINF:");
            let ls = crate::playlist_m3u::entry_lines(e);
            assert(crate::text::signed_decimal(-1) =~= seq!['-', '1']);
            assert(ls[1] =~= "#EXTINF:-1,"@ + x.1);
        }
    }
}

/// The entries of a file stand in it in their order, one behind the other.
pub proof fn entries_stand_in_order(v: Seq<crate::playlist_m3u::EntryView>, e: crate::playlist_m3u::EntryView)
    ensures
        crate::playlist_m3u::entries_lines(v.push(e)) == crate::playlist_m3u::entries_lines(v) + crate::playlist_m3u::entry_lines(e),
        crate::playlist_m3u::entries_lines(seq![]).len() == 0,
{
    assert(v.push(e).drop_last() =~= v);
}

} // verus!
