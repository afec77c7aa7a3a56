//! The enriched M3U playlist format: what is written, what is read, and that reading gives
//! back what was written.

use vstd::prelude::*;
use crate::ids::{uuid_from_text, uuid_text, uuid_to_text, uuid_value};
use crate::m3u_laws::{line_ends_do_not_matter, m3u_round_trip, storable, with_crlf};
use crate::moment::{rfc3339_instant, rfc3339_plain, rfc3339_text, Moment};
use crate::names::{trimmed_pieces, trimmed_strings};
use crate::pct::{pct_decode, pct_decoded, pct_encode, pct_encoded};
use crate::text::{
    append_chars, append_decimal, append_signed, append_str, chars_of, chars_views, decimal, float_syntax, is_float,
    join, joined, parse_signed, parse_unsigned, part, same_chars, signed_decimal, signed_of, split, split_of,
    split_once, split_once_of, str_views, string_of, strip_prefix, stripped, trim, trim_of, unsigned_of,
};
use crate::traits::Error;
use crate::types::{opt_text, Quality, Rendition};

verus! {

/// A whole playlist file.
#[derive(Debug)]
pub struct M3uDoc {
    pub playlist: PlaylistMeta,
    pub entries: Vec<M3uEntry>,
}

/// The header of a playlist file.
#[derive(Debug)]
pub struct PlaylistMeta {
    /// Without one the importer makes a new identifier.
    pub id: Option<u128>,
    /// When empty the importer takes the name of the file.
    pub name: String,
    pub notes: String,
}

/// One entry: the line that any player plays, and what this player knows beside it.
#[derive(Debug)]
pub struct M3uEntry {
    /// The length in seconds, or -1, and the display name.
    pub extinf: Option<(i64, String)>,
    pub track_id: Option<u128>,
    /// When this play started, in a history file.
    pub played_at: Option<Moment>,
    pub meta: SoftMeta,
    pub renditions: Vec<ParsedRendition>,
    pub primary_uri: String,
}

/// Metadata of an entry. The tempo is the text of a number.
#[derive(Debug)]
pub struct SoftMeta {
    pub isrc: Option<String>,
    pub album: Option<String>,
    pub year: Option<u16>,
    pub bpm: Option<String>,
    pub key: Option<String>,
    pub tags: Vec<String>,
}

/// One rendition of an entry.
#[derive(Debug)]
pub struct ParsedRendition {
    pub source: String,
    pub quality: Quality,
    pub added_at: Moment,
    pub uri: String,
}

pub struct MetaView {
    pub id: Option<u128>,
    pub name: Seq<char>,
    pub notes: Seq<char>,
}

pub struct SoftMetaView {
    pub isrc: Option<Seq<char>>,
    pub album: Option<Seq<char>>,
    pub year: Option<u16>,
    pub bpm: Option<Seq<char>>,
    pub key: Option<Seq<char>>,
    pub tags: Seq<Seq<char>>,
}

pub struct ParsedView {
    pub source: Seq<char>,
    pub quality: Quality,
    pub added_at: Moment,
    pub uri: Seq<char>,
}

pub struct EntryView {
    pub extinf: Option<(i64, Seq<char>)>,
    pub track_id: Option<u128>,
    pub played_at: Option<Moment>,
    pub meta: SoftMetaView,
    pub renditions: Seq<ParsedView>,
    pub primary_uri: Seq<char>,
}

pub struct DocView {
    pub playlist: MetaView,
    pub entries: Seq<EntryView>,
}

impl View for PlaylistMeta {
    type V = MetaView;

    open spec fn view(&self) -> MetaView {
        MetaView { id: self.id, name: self.name@, notes: self.notes@ }
    }
}

impl View for SoftMeta {
    type V = SoftMetaView;

    open spec fn view(&self) -> SoftMetaView {
        SoftMetaView {
            isrc: opt_text(self.isrc),
            album: opt_text(self.album),
            year: self.year,
            bpm: opt_text(self.bpm),
            key: opt_text(self.key),
            tags: str_views(self.tags@),
        }
    }
}

impl View for ParsedRendition {
    type V = ParsedView;

    open spec fn view(&self) -> ParsedView {
        ParsedView {
            source: self.source@,
            quality: self.quality,
            added_at: self.added_at,
            uri: self.uri@,
        }
    }
}

pub open spec fn extinf_view(x: Option<(i64, String)>) -> Option<(i64, Seq<char>)> {
    match x {
        Some((n, t)) => Some((n, t@)),
        None => None,
    }
}

pub open spec fn parsed_views(v: Seq<ParsedRendition>) -> Seq<ParsedView> {
    v.map_values(|r: ParsedRendition| r@)
}

pub open spec fn entry_views(v: Seq<M3uEntry>) -> Seq<EntryView> {
    v.map_values(|e: M3uEntry| e@)
}

impl View for M3uEntry {
    type V = EntryView;

    open spec fn view(&self) -> EntryView {
        EntryView {
            extinf: extinf_view(self.extinf),
            track_id: self.track_id,
            played_at: self.played_at,
            meta: self.meta@,
            renditions: parsed_views(self.renditions@),
            primary_uri: self.primary_uri@,
        }
    }
}

impl View for M3uDoc {
    type V = DocView;

    open spec fn view(&self) -> DocView {
        DocView { playlist: self.playlist@, entries: entry_views(self.entries@) }
    }
}

pub open spec fn no_meta() -> SoftMetaView {
    SoftMetaView { isrc: None, album: None, year: None, bpm: None, key: None, tags: seq![] }
}

impl SoftMeta {
    /// Metadata that says nothing.
    pub fn empty() -> (r: SoftMeta)
        ensures
            r@ == no_meta(),
    {
        let r = SoftMeta {
            isrc: None,
            album: None,
            year: None,
            bpm: None,
            key: None,
            tags: Vec::new(),
        };
        assert(r@.tags =~= Seq::<Seq<char>>::empty());
        r
    }

    pub fn is_empty(&self) -> (r: bool)
        ensures
            r == (self@ == no_meta()),
    {
        proof {
            assert(self@.tags.len() == self.tags@.len());
            if self.tags@.len() == 0 {
                assert(self@.tags =~= Seq::<Seq<char>>::empty());
            }
        }
        self.isrc.is_none() && self.album.is_none() && self.year.is_none() && self.bpm.is_none()
            && self.key.is_none() && self.tags.len() == 0
    }
}

impl ParsedRendition {
    /// What a playlist file holds of a rendition.
    pub fn from_rendition(r: &Rendition) -> (p: ParsedRendition)
        ensures
            p@ == (ParsedView {
                source: r@.source,
                quality: r@.quality,
                added_at: r@.added_at,
                uri: r@.uri,
            }),
    {
        ParsedRendition {
            source: r.source.as_str().to_owned(),
            quality: r.quality,
            added_at: r.added_at,
            uri: r.uri.clone(),
        }
    }
}

// ---- what is written ----

pub open spec fn opt_decimal(n: Option<u32>) -> Seq<char> {
    match n {
        Some(n) => decimal(n as nat),
        None => seq![],
    }
}

pub open spec fn quality_text(q: Quality) -> Seq<char> {
    match q {
        Quality::Unknown => "unknown"@,
        Quality::Lossy { kbps: None } => "lossy"@,
        Quality::Lossy { kbps: Some(k) } => "lossy:"@ + decimal(k as nat),
        Quality::Lossless { bits: None, hz: None } => "lossless"@,
        Quality::Lossless { bits, hz } => "lossless:"@ + (match bits {
            Some(b) => decimal(b as nat),
            None => seq![],
        }) + seq![':'] + opt_decimal(hz),
    }
}

/// The fields of a metadata line, in their order.
pub open spec fn meta_parts(m: SoftMetaView) -> Seq<Seq<char>> {
    (match m.isrc {
        Some(v) => seq!["isrc"@ + seq!['='] + pct_encoded(v)],
        None => seq![],
    }) + (match m.album {
        Some(v) => seq!["album"@ + seq!['='] + pct_encoded(v)],
        None => seq![],
    }) + (match m.year {
        Some(v) => seq!["year"@ + seq!['='] + decimal(v as nat)],
        None => seq![],
    }) + (match m.bpm {
        Some(v) => seq!["bpm"@ + seq!['='] + v],
        None => seq![],
    }) + (match m.key {
        Some(v) => seq!["key"@ + seq!['='] + pct_encoded(v)],
        None => seq![],
    }) + (if m.tags.len() > 0 {
        seq!["tags"@ + seq!['='] + pct_encoded(joined(m.tags, ","@))]
    } else {
        seq![]
    })
}

pub open spec fn meta_text(m: SoftMetaView) -> Seq<char> {
    joined(meta_parts(m), ";"@)
}

pub open spec fn moment_text(t: Moment) -> Seq<char> {
    rfc3339_text(t.seconds(), t.nanoseconds())
}

pub open spec fn rendition_text(r: ParsedView) -> Seq<char> {
    pct_encoded(r.source) + seq!['|'] + quality_text(r.quality) + seq!['|'] + moment_text(
        r.added_at,
    ) + seq!['|'] + pct_encoded(r.uri)
}

/// Lines one after the other, each with a line end.
pub open spec fn unlines(ls: Seq<Seq<char>>) -> Seq<char>
    decreases ls.len(),
{
    if ls.len() == 0 {
        seq![]
    } else {
        ls[0] + seq!['\n'] + unlines(ls.drop_first())
    }
}

pub open spec fn header_lines(p: MetaView) -> Seq<Seq<char>> {
    seq!["#EXTM3U"@, "#PLAYLIST:"@ + p.name] + (match p.id {
        Some(id) => seq!["#MEDLEY-PLAYLIST-ID:"@ + uuid_text(id)],
        None => seq![],
    }) + (if p.notes.len() > 0 {
        seq!["#MEDLEY-NOTES:"@ + pct_encoded(p.notes)]
    } else {
        seq![]
    })
}

pub open spec fn rendition_lines(v: Seq<ParsedView>) -> Seq<Seq<char>> {
    v.map_values(|r: ParsedView| "#MEDLEY-RENDITION:"@ + rendition_text(r))
}

/// The lines of an entry that stand before its renditions.
pub open spec fn entry_head(e: EntryView) -> Seq<Seq<char>> {
    seq![Seq::<char>::empty()] + (match e.extinf {
        Some((n, t)) => seq!["#EXTINF:"@ + signed_decimal(n as int) + seq![','] + t],
        None => seq![],
    }) + (match e.track_id {
        Some(id) => seq!["#MEDLEY-TRACK-ID:"@ + uuid_text(id)],
        None => seq![],
    }) + (match e.played_at {
        Some(t) => seq!["#MEDLEY-PLAYED-AT:"@ + moment_text(t)],
        None => seq![],
    }) + (if e.meta != no_meta() {
        seq!["#MEDLEY-META:"@ + meta_text(e.meta)]
    } else {
        seq![]
    })
}

pub open spec fn entry_lines(e: EntryView) -> Seq<Seq<char>> {
    entry_head(e) + rendition_lines(e.renditions) + seq![e.primary_uri]
}

pub open spec fn entries_lines(v: Seq<EntryView>) -> Seq<Seq<char>>
    decreases v.len(),
{
    if v.len() == 0 {
        seq![]
    } else {
        entries_lines(v.drop_last()) + entry_lines(v.last())
    }
}

/// The lines of a playlist file.
pub open spec fn doc_lines(d: DocView) -> Seq<Seq<char>> {
    header_lines(d.playlist) + entries_lines(d.entries)
}


pub(crate) proof fn lemma_unlines_concat(a: Seq<Seq<char>>, b: Seq<Seq<char>>)
    ensures
        unlines(a + b) == unlines(a) + unlines(b),
    decreases a.len(),
{
    if a.len() == 0 {
        assert(a + b =~= b);
        assert(unlines(a) + unlines(b) =~= unlines(b));
    } else {
        lemma_unlines_concat(a.drop_first(), b);
        assert((a + b).drop_first() =~= a.drop_first() + b);
        assert(unlines(a + b) =~= unlines(a) + unlines(b));
    }
}

proof fn lemma_unlines_one(l: Seq<char>)
    ensures
        unlines(seq![l]) == l + seq!['\n'],
{
    assert(seq![l].drop_first() =~= Seq::<Seq<char>>::empty());
    assert(unlines(Seq::<Seq<char>>::empty()) =~= Seq::<char>::empty());
    assert(unlines(seq![l]) =~= l + seq!['\n']);
}

/// Adds a line to the text.
fn add_line(out: &mut Vec<char>, a: &str, b: &[char], Ghost(ls): Ghost<Seq<Seq<char>>>)
    requires
        old(out)@ == unlines(ls),
    ensures
        final(out)@ == unlines(ls + seq![a@ + b@]),
{
    append_str(out, a);
    append_chars(out, b);
    out.push('\n');
    proof {
        lemma_unlines_concat(ls, seq![a@ + b@]);
        lemma_unlines_one(a@ + b@);
        assert(out@ =~= unlines(ls) + (a@ + b@ + seq!['\n']));
    }
}

/// The text of a quality.
pub fn write_quality(q: &Quality) -> (r: String)
    ensures
        r@ == quality_text(*q),
{
    match q {
        Quality::Unknown => "unknown".to_owned(),
        Quality::Lossy { kbps: None } => "lossy".to_owned(),
        Quality::Lossy { kbps: Some(k) } => {
            let mut out = chars_of("lossy:");
            append_decimal(&mut out, *k as u64);
            string_of(&out)
        },
        Quality::Lossless { bits: None, hz: None } => "lossless".to_owned(),
        Quality::Lossless { bits, hz } => {
            let mut out = chars_of("lossless:");
            if let Some(b) = bits {
                append_decimal(&mut out, *b as u64);
            }
            let ghost so_far = out@;
            out.push(':');
            if let Some(h) = hz {
                append_decimal(&mut out, *h as u64);
            }
            assert(out@ =~= quality_text(*q));
            string_of(&out)
        },
    }
}

fn field(key: &str, value: &[char]) -> (r: Vec<char>)
    ensures
        r@ == key@ + seq!['='] + value@,
{
    let mut out = chars_of(key);
    out.push('=');
    append_chars(&mut out, value);
    assert(out@ =~= key@ + seq!['='] + value@);
    out
}

/// The metadata fields, parted by semicolons.
pub fn write_meta(m: &SoftMeta) -> (r: String)
    ensures
        r@ == meta_text(m@),
{
    let ghost v = m@;
    let mut parts: Vec<Vec<char>> = Vec::new();
    let ghost p0 = Seq::<Seq<char>>::empty();
    assert(chars_views(parts@) =~= p0);
    if let Some(x) = &m.isrc {
        let e = pct_encode(x);
        let c = chars_of(&e);
        parts.push(field("isrc", &c));
    }
    let ghost p1 = match v.isrc {
        Some(x) => seq!["isrc"@ + seq!['='] + pct_encoded(x)],
        None => seq![],
    };
    assert(chars_views(parts@) =~= p1);
    if let Some(x) = &m.album {
        let e = pct_encode(x);
        let c = chars_of(&e);
        parts.push(field("album", &c));
    }
    let ghost p2 = p1 + match v.album {
        Some(x) => seq!["album"@ + seq!['='] + pct_encoded(x)],
        None => seq![],
    };
    assert(chars_views(parts@) =~= p2);
    if let Some(x) = m.year {
        let mut c: Vec<char> = Vec::new();
        append_decimal(&mut c, x as u64);
        assert(c@ =~= decimal(x as nat));
        parts.push(field("year", &c));
    }
    let ghost p3 = p2 + match v.year {
        Some(x) => seq!["year"@ + seq!['='] + decimal(x as nat)],
        None => seq![],
    };
    assert(chars_views(parts@) =~= p3);
    if let Some(x) = &m.bpm {
        let c = chars_of(x);
        parts.push(field("bpm", &c));
    }
    let ghost p4 = p3 + match v.bpm {
        Some(x) => seq!["bpm"@ + seq!['='] + x],
        None => seq![],
    };
    assert(chars_views(parts@) =~= p4);
    if let Some(x) = &m.key {
        let e = pct_encode(x);
        let c = chars_of(&e);
        parts.push(field("key", &c));
    }
    let ghost p5 = p4 + match v.key {
        Some(x) => seq!["key"@ + seq!['='] + pct_encoded(x)],
        None => seq![],
    };
    assert(chars_views(parts@) =~= p5);
    assert(v.tags.len() == m.tags@.len());
    if m.tags.len() > 0 {
        let t = crate::text::join_strings(&m.tags, ",");
        let e = pct_encode(&t);
        let c = chars_of(&e);
        parts.push(field("tags", &c));
    }
    assert(chars_views(parts@) =~= meta_parts(v));
    let semi = chars_of(";");
    let out = join(&parts, &semi);
    string_of(&out)
}

/// Whether the text of an instant, if it is a four-digit whole second, reads back as it.
pub open spec fn readable(t: Moment) -> bool {
    t.four_digit_second() ==> rfc3339_plain(moment_text(t)) && rfc3339_instant(moment_text(t))
        == Some((t.seconds(), t.nanoseconds()))
}

pub open spec fn entry_readable(e: EntryView) -> bool {
    (match e.played_at {
        Some(t) => readable(t),
        None => true,
    }) && forall|i: int| 0 <= i < e.renditions.len() ==> readable((#[trigger] e.renditions[i]).added_at)
}

/// The text of a rendition: its fields parted by bars.
pub fn write_rendition(r: &ParsedRendition) -> (s: String)
    ensures
        s@ == rendition_text(r@),
        readable(r@.added_at),
{
    let source = pct_encode(&r.source);
    let mut out = chars_of(&source);
    out.push('|');
    let q = write_quality(&r.quality);
    append_str(&mut out, &q);
    out.push('|');
    let t = r.added_at.to_rfc3339();
    append_str(&mut out, &t);
    out.push('|');
    let uri = pct_encode(&r.uri);
    append_str(&mut out, &uri);
    assert(out@ =~= rendition_text(r@));
    string_of(&out)
}

/// The header of a playlist file.
pub fn write_header(playlist: &PlaylistMeta) -> (r: String)
    ensures
        r@ == unlines(header_lines(playlist@)),
{
    let mut out: Vec<char> = Vec::new();
    let ghost mut ls = Seq::<Seq<char>>::empty();
    assert(out@ =~= unlines(ls));
    let none: Vec<char> = Vec::new();
    add_line(&mut out, "#EXTM3U", &none, Ghost(ls));
    proof {
        assert("#EXTM3U"@ + none@ =~= "#EXTM3U"@);
        ls = ls + seq!["#EXTM3U"@];
    }
    let name = chars_of(&playlist.name);
    add_line(&mut out, "#PLAYLIST:", &name, Ghost(ls));
    proof {
        ls = ls + seq!["#PLAYLIST:"@ + playlist.name@];
        assert(ls =~= seq!["#EXTM3U"@, "#PLAYLIST:"@ + playlist.name@]);
    }
    let ghost l2 = ls;
    if let Some(id) = playlist.id {
        let t = uuid_to_text(id);
        let c = chars_of(&t);
        add_line(&mut out, "#MEDLEY-PLAYLIST-ID:", &c, Ghost(ls));
        proof {
            ls = ls + seq!["#MEDLEY-PLAYLIST-ID:"@ + uuid_text(id)];
        }
    }
    let ghost l3 = l2 + match playlist.id {
        Some(id) => seq!["#MEDLEY-PLAYLIST-ID:"@ + uuid_text(id)],
        None => seq![],
    };
    assert(ls =~= l3);
    let notes = chars_of(&playlist.notes);
    if notes.len() > 0 {
        let e = pct_encode(&playlist.notes);
        let c = chars_of(&e);
        add_line(&mut out, "#MEDLEY-NOTES:", &c, Ghost(ls));
        proof {
            ls = ls + seq!["#MEDLEY-NOTES:"@ + pct_encoded(playlist.notes@)];
        }
    }
    assert(ls =~= header_lines(playlist@));
    string_of(&out)
}

/// One entry, with a blank line before it.
pub fn write_entry(e: &M3uEntry) -> (r: String)
    ensures
        r@ == unlines(entry_lines(e@)),
        entry_readable(e@),
{
    let ghost v = e@;
    let mut out: Vec<char> = Vec::new();
    let ghost mut ls = Seq::<Seq<char>>::empty();
    assert(out@ =~= unlines(ls));
    let none: Vec<char> = Vec::new();
    add_line(&mut out, "", &none, Ghost(ls));
    proof {
        reveal_strlit("");
        assert(""@ + none@ =~= Seq::<char>::empty());
        ls = ls + seq![Seq::<char>::empty()];
        assert(ls =~= seq![Seq::<char>::empty()]);
    }
    if let Some((n, t)) = &e.extinf {
        let mut c: Vec<char> = Vec::new();
        append_signed(&mut c, *n);
        c.push(',');
        append_str(&mut c, t);
        add_line(&mut out, "#EXTINF:", &c, Ghost(ls));
        proof {
            assert("#EXTINF:"@ + c@ =~= "#EXTINF:"@ + signed_decimal(*n as int) + seq![','] + t@);
            ls = ls + seq!["#EXTINF:"@ + signed_decimal(*n as int) + seq![','] + t@];
        }
    }
    let ghost l1 = seq![Seq::<char>::empty()] + match v.extinf {
        Some((n, t)) => seq!["#EXTINF:"@ + signed_decimal(n as int) + seq![','] + t],
        None => seq![],
    };
    assert(ls =~= l1);
    if let Some(id) = e.track_id {
        let t = uuid_to_text(id);
        let c = chars_of(&t);
        add_line(&mut out, "#MEDLEY-TRACK-ID:", &c, Ghost(ls));
        proof {
            ls = ls + seq!["#MEDLEY-TRACK-ID:"@ + uuid_text(id)];
        }
    }
    let ghost l2 = l1 + match v.track_id {
        Some(id) => seq!["#MEDLEY-TRACK-ID:"@ + uuid_text(id)],
        None => seq![],
    };
    assert(ls =~= l2);
    if let Some(t) = &e.played_at {
        let s = t.to_rfc3339();
        let c = chars_of(&s);
        add_line(&mut out, "#MEDLEY-PLAYED-AT:", &c, Ghost(ls));
        proof {
            ls = ls + seq!["#MEDLEY-PLAYED-AT:"@ + moment_text(*t)];
        }
    }
    let ghost l3 = l2 + match v.played_at {
        Some(t) => seq!["#MEDLEY-PLAYED-AT:"@ + moment_text(t)],
        None => seq![],
    };
    assert(ls =~= l3);
    if !e.meta.is_empty() {
        let s = write_meta(&e.meta);
        let c = chars_of(&s);
        add_line(&mut out, "#MEDLEY-META:", &c, Ghost(ls));
        proof {
            ls = ls + seq!["#MEDLEY-META:"@ + meta_text(v.meta)];
        }
    }
    assert(ls =~= entry_head(v));
    assert(v.renditions.len() == e.renditions@.len());
    let mut i: usize = 0;
    let ghost all = rendition_lines(v.renditions);
    assert(ls =~= entry_head(v) + all.take(0));
    while i < e.renditions.len()
        invariant
            i <= e.renditions@.len(),
            v == e@,
            all == rendition_lines(v.renditions),
            ls == entry_head(v) + all.take(i as int),
            out@ == unlines(ls),
            forall|j: int| 0 <= j < i ==> readable((#[trigger] v.renditions[j]).added_at),
        decreases e.renditions@.len() - i,
    {
        let s = write_rendition(&e.renditions[i]);
        let c = chars_of(&s);
        add_line(&mut out, "#MEDLEY-RENDITION:", &c, Ghost(ls));
        proof {
            let l = "#MEDLEY-RENDITION:"@ + rendition_text(v.renditions[i as int]);
            assert(v.renditions[i as int] == e.renditions@[i as int]@);
            ls = ls + seq![l];
            assert(all.take(i + 1) =~= all.take(i as int) + seq![l]);
            assert(ls =~= entry_head(v) + all.take(i + 1));
        }
        i = i + 1;
    }
    assert(all.take(i as int) =~= all);
    let u = chars_of(&e.primary_uri);
    add_line(&mut out, "", &u, Ghost(ls));
    proof {
        reveal_strlit("");
        assert(""@ + u@ =~= e.primary_uri@);
        assert(ls + seq![e.primary_uri@] =~= entry_lines(v));
    }
    string_of(&out)
}


// ---- what is read ----

pub open spec fn opt_u8(n: Option<nat>) -> Option<u8> {
    match n {
        Some(n) => Some(n as u8),
        None => None,
    }
}

pub open spec fn opt_u32(n: Option<nat>) -> Option<u32> {
    match n {
        Some(n) => Some(n as u32),
        None => None,
    }
}

/// The text without one leading colon.
pub open spec fn after_colon(s: Seq<char>) -> Seq<char> {
    match stripped(s, ":"@) {
        Some(t) => t,
        None => s,
    }
}

/// The quality that a text names; `Unknown` when it names none.
pub open spec fn quality_of(s: Seq<char>) -> Quality {
    if s == "unknown"@ || s.len() == 0 {
        Quality::Unknown
    } else {
        match stripped(s, "lossless"@) {
            Some(t) => {
                let rest = after_colon(t);
                if rest.len() == 0 {
                    Quality::Lossless { bits: None, hz: None }
                } else {
                    let f = split_of(rest, ':');
                    Quality::Lossless {
                        bits: opt_u8(unsigned_of(f[0], 255)),
                        hz: if f.len() > 1 {
                            opt_u32(unsigned_of(f[1], 0xffff_ffff))
                        } else {
                            None
                        },
                    }
                }
            },
            None => match stripped(s, "lossy"@) {
                Some(t) => Quality::Lossy {
                    kbps: opt_u32(unsigned_of(after_colon(t), 0xffff_ffff)),
                },
                None => Quality::Unknown,
            },
        }
    }
}

/// The metadata after one more `key=value` field.
pub open spec fn meta_with(m: SoftMetaView, kv: Seq<char>) -> SoftMetaView {
    match split_once_of(kv, '=') {
        None => m,
        Some((k, raw)) => {
            let v = pct_decoded(raw);
            let key = trim_of(k);
            if key == "isrc"@ {
                SoftMetaView { isrc: Some(v), ..m }
            } else if key == "album"@ {
                SoftMetaView { album: Some(v), ..m }
            } else if key == "year"@ {
                SoftMetaView {
                    year: match unsigned_of(v, 0xffff) {
                        Some(n) => Some(n as u16),
                        None => None,
                    },
                    ..m
                }
            } else if key == "bpm"@ {
                SoftMetaView {
                    bpm: if float_syntax(v) {
                        Some(v)
                    } else {
                        None
                    },
                    ..m
                }
            } else if key == "key"@ {
                SoftMetaView { key: Some(v), ..m }
            } else if key == "tags"@ {
                SoftMetaView { tags: trimmed_pieces(split_of(v, ',')), ..m }
            } else {
                m
            }
        },
    }
}

pub open spec fn meta_fold(m: SoftMetaView, parts: Seq<Seq<char>>) -> SoftMetaView
    decreases parts.len(),
{
    if parts.len() == 0 {
        m
    } else {
        meta_fold(meta_with(m, parts[0]), parts.drop_first())
    }
}

/// The metadata of a metadata line.
pub open spec fn meta_of(s: Seq<char>) -> SoftMetaView {
    meta_fold(no_meta(), split_of(s, ';'))
}

/// The rendition of a rendition line: four fields parted by bars. A date that cannot be read
/// counts as `now`.
pub open spec fn rendition_of(s: Seq<char>, now: Moment) -> Option<ParsedView> {
    match split_once_of(s, '|') {
        None => None,
        Some((source, r1)) => match split_once_of(r1, '|') {
            None => None,
            Some((quality, r2)) => match split_once_of(r2, '|') {
                None => None,
                Some((date, uri)) => Some(
                    ParsedView {
                        source: pct_decoded(source),
                        quality: quality_of(trim_of(quality)),
                        added_at: match rfc3339_instant(trim_of(date)) {
                            Some(t) => Moment::at(t),
                            None => now,
                        },
                        uri: pct_decoded(uri),
                    },
                ),
            },
        },
    }
}

/// The length and the name of an `EXTINF` line.
pub open spec fn extinf_of(v: Seq<char>) -> (i64, Seq<char>) {
    match split_once_of(v, ',') {
        Some((n, t)) => (secs_of(n), t),
        None => (secs_of(v), seq![]),
    }
}

pub open spec fn secs_of(s: Seq<char>) -> i64 {
    match signed_of(trim_of(s)) {
        Some(n) => n as i64,
        None => -1i64,
    }
}

/// How far a file has been read.
pub struct Reading {
    pub meta: MetaView,
    pub entries: Seq<EntryView>,
    pub cur: Option<EntryView>,
}

pub open spec fn reading(meta: MetaView, entries: Seq<EntryView>, cur: Option<EntryView>) -> Reading {
    Reading { meta, entries, cur }
}

pub open spec fn blank_entry() -> EntryView {
    EntryView {
        extinf: None,
        track_id: None,
        played_at: None,
        meta: no_meta(),
        renditions: seq![],
        primary_uri: seq![],
    }
}

pub open spec fn current(st: Reading) -> EntryView {
    match st.cur {
        Some(e) => e,
        None => blank_entry(),
    }
}

/// What a `#` line does; `rest` is what follows the `#`.
pub open spec fn after_directive(st: Reading, rest: Seq<char>, now: Moment) -> Reading {
    match stripped(rest, "PLAYLIST:"@) {
        Some(v) => Reading { meta: MetaView { name: v, ..st.meta }, ..st },
        None => match stripped(rest, "MEDLEY-PLAYLIST-ID:"@) {
            Some(v) => Reading { meta: MetaView { id: uuid_value(trim_of(v)), ..st.meta }, ..st },
            None => match stripped(rest, "MEDLEY-NOTES:"@) {
                Some(v) => Reading { meta: MetaView { notes: pct_decoded(v), ..st.meta }, ..st },
                None => after_entry_directive(st, rest, now),
            },
        },
    }
}

pub open spec fn after_entry_directive(st: Reading, rest: Seq<char>, now: Moment) -> Reading {
    let e = current(st);
    match stripped(rest, "EXTINF:"@) {
        Some(v) => Reading { cur: Some(EntryView { extinf: Some(extinf_of(v)), ..e }), ..st },
        None => match stripped(rest, "MEDLEY-TRACK-ID:"@) {
            Some(v) => Reading {
                cur: Some(EntryView { track_id: uuid_value(trim_of(v)), ..e }),
                ..st
            },
            None => match stripped(rest, "MEDLEY-PLAYED-AT:"@) {
                Some(v) => Reading {
                    cur: Some(
                        EntryView {
                            played_at: match rfc3339_instant(trim_of(v)) {
                                Some(t) => Some(Moment::at(t)),
                                None => None,
                            },
                            ..e
                        },
                    ),
                    ..st
                },
                None => match stripped(rest, "MEDLEY-META:"@) {
                    Some(v) => Reading { cur: Some(EntryView { meta: meta_of(v), ..e }), ..st },
                    None => match stripped(rest, "MEDLEY-RENDITION:"@) {
                        Some(v) => match rendition_of(v, now) {
                            Some(r) => Reading {
                                cur: Some(EntryView { renditions: e.renditions.push(r), ..e }),
                                ..st
                            },
                            None => st,
                        },
                        None => st,
                    },
                },
            },
        },
    }
}

/// What a line does.
pub open spec fn after_line(st: Reading, raw: Seq<char>, now: Moment) -> Reading {
    let line = trim_of(raw);
    if line.len() == 0 {
        st
    } else if line[0] == '#' {
        after_directive(st, line.drop_first(), now)
    } else {
        Reading {
            meta: st.meta,
            entries: st.entries.push(EntryView { primary_uri: line, ..current(st) }),
            cur: None,
        }
    }
}

pub open spec fn after_lines(st: Reading, ls: Seq<Seq<char>>, now: Moment) -> Reading
    decreases ls.len(),
{
    if ls.len() == 0 {
        st
    } else {
        after_lines(after_line(st, ls[0], now), ls.drop_first(), now)
    }
}

pub open spec fn no_reading() -> Reading {
    Reading {
        meta: MetaView { id: None, name: seq![], notes: seq![] },
        entries: seq![],
        cur: None,
    }
}

/// The file that lines make: the first line that is not blank must be the M3U mark.
pub open spec fn doc_of_lines(ls: Seq<Seq<char>>, now: Moment) -> Option<DocView>
    decreases ls.len(),
{
    if ls.len() == 0 {
        None
    } else if trim_of(ls[0]).len() == 0 {
        doc_of_lines(ls.drop_first(), now)
    } else if trim_of(ls[0]) == "#EXTM3U"@ {
        let st = after_lines(no_reading(), ls.drop_first(), now);
        Some(DocView { playlist: st.meta, entries: st.entries })
    } else {
        None
    }
}

/// The playlist file that a text is, read at the time `now`.
pub open spec fn m3u_parsed(text: Seq<char>, now: Moment) -> Option<DocView> {
    doc_of_lines(split_of(text, '\n'), now)
}

fn strip_colon(s: &[char]) -> (r: Vec<char>)
    ensures
        r@ == after_colon(s@),
{
    match strip_prefix(s, ":") {
        Some(t) => t,
        None => {
            let t = part(s, 0, s.len());
            assert(t@ =~= s@);
            t
        },
    }
}

fn read_u32(s: &[char]) -> (r: Option<u32>)
    ensures
        r == opt_u32(unsigned_of(s@, 0xffff_ffff)),
{
    match parse_unsigned(s, 0xffff_ffff) {
        Some(n) => Some(n as u32),
        None => None,
    }
}

/// Reads a quality.
pub fn parse_quality(s: &[char]) -> (r: Quality)
    ensures
        r == quality_of(s@),
{
    let unknown = chars_of("unknown");
    if s.len() == 0 || same_chars(s, &unknown) {
        return Quality::Unknown;
    }
    if let Some(t) = strip_prefix(s, "lossless") {
        let rest = strip_colon(&t);
        if rest.len() == 0 {
            return Quality::Lossless { bits: None, hz: None };
        }
        let f = split(&rest, ':');
        assert(chars_views(f@)[0] == f@[0]@);
        let bits: Option<u8> = match parse_unsigned(&f[0], 255) {
            Some(n) => Some(n as u8),
            None => None,
        };
        let hz: Option<u32> = if f.len() > 1 {
            assert(chars_views(f@)[1] == f@[1]@);
            read_u32(&f[1])
        } else {
            None
        };
        return Quality::Lossless { bits, hz };
    }
    if let Some(t) = strip_prefix(s, "lossy") {
        let rest = strip_colon(&t);
        return Quality::Lossy { kbps: read_u32(&rest) };
    }
    Quality::Unknown
}

fn is_key(k: &[char], name: &str) -> (r: bool)
    ensures
        r == (k@ == name@),
{
    let n = chars_of(name);
    same_chars(k, &n)
}

fn add_meta_field(m: &mut SoftMeta, kv: &[char])
    ensures
        final(m)@ == meta_with(old(m)@, kv@),
{
    if let Some((k, raw)) = split_once(kv, '=') {
        let raw_text = string_of(&raw);
        let v = pct_decode(&raw_text);
        let key = trim(&k);
        if is_key(&key, "isrc") {
            m.isrc = Some(v);
        } else if is_key(&key, "album") {
            m.album = Some(v);
        } else if is_key(&key, "year") {
            let c = chars_of(&v);
            m.year = match parse_unsigned(&c, 0xffff) {
                Some(n) => Some(n as u16),
                None => None,
            };
        } else if is_key(&key, "bpm") {
            let c = chars_of(&v);
            if is_float(&c) {
                m.bpm = Some(v);
            } else {
                m.bpm = None;
            }
        } else if is_key(&key, "key") {
            m.key = Some(v);
        } else if is_key(&key, "tags") {
            let c = chars_of(&v);
            let pieces = split(&c, ',');
            m.tags = trimmed_strings(&pieces);
        }
    }
}

/// Reads a metadata line.
pub fn parse_meta(s: &[char]) -> (r: SoftMeta)
    ensures
        r@ == meta_of(s@),
{
    let mut m = SoftMeta::empty();
    let parts = split(s, ';');
    let ghost all = chars_views(parts@);
    let mut i: usize = 0;
    assert(all.skip(0) =~= all);
    while i < parts.len()
        invariant
            i <= parts@.len(),
            all == chars_views(parts@),
            meta_fold(m@, all.skip(i as int)) == meta_fold(no_meta(), all),
        decreases parts@.len() - i,
    {
        add_meta_field(&mut m, &parts[i]);
        proof {
            assert(all.skip(i as int)[0] == parts@[i as int]@);
            assert(all.skip(i as int).drop_first() =~= all.skip(i + 1));
        }
        i = i + 1;
    }
    assert(all.skip(i as int).len() == 0);
    m
}

/// Reads a rendition line.
pub fn parse_rendition(s: &[char], now: Moment) -> (r: Option<ParsedRendition>)
    ensures
        r is Some == rendition_of(s@, now) is Some,
        r is Some ==> rendition_of(s@, now) == Some(r->0@),
{
    match split_once(s, '|') {
        None => None,
        Some((source, r1)) => match split_once(&r1, '|') {
            None => None,
            Some((quality, r2)) => match split_once(&r2, '|') {
                None => None,
                Some((date, uri)) => {
                    let d = trim(&date);
                    let d_text = string_of(&d);
                    let added_at = match Moment::from_rfc3339(&d_text) {
                        Some(t) => t,
                        None => now,
                    };
                    let q = trim(&quality);
                    let source_text = string_of(&source);
                    let uri_text = string_of(&uri);
                    Some(
                        ParsedRendition {
                            source: pct_decode(&source_text),
                            quality: parse_quality(&q),
                            added_at,
                            uri: pct_decode(&uri_text),
                        },
                    )
                },
            },
        },
    }
}

fn new_entry() -> (r: M3uEntry)
    ensures
        r@ == blank_entry(),
{
    let r = M3uEntry {
        extinf: None,
        track_id: None,
        played_at: None,
        meta: SoftMeta::empty(),
        renditions: Vec::new(),
        primary_uri: String::new(),
    };
    assert(r@.renditions =~= Seq::<ParsedView>::empty());
    r
}

pub open spec fn opt_entry(e: Option<M3uEntry>) -> Option<EntryView> {
    match e {
        Some(e) => Some(e@),
        None => None,
    }
}

fn take_entry(cur: &mut Option<M3uEntry>) -> (r: M3uEntry)
    ensures
        r@ == (match opt_entry(*old(cur)) {
            Some(e) => e,
            None => blank_entry(),
        }),
        *final(cur) is None,
{
    match cur.take() {
        Some(e) => e,
        None => new_entry(),
    }
}

fn parse_secs(s: &[char]) -> (r: i64)
    ensures
        r == secs_of(s@),
{
    let t = trim(s);
    match parse_signed(&t) {
        Some(n) => n,
        None => -1,
    }
}

fn trimmed_text(v: &[char]) -> (r: String)
    ensures
        r@ == trim_of(v@),
{
    let t = trim(v);
    string_of(&t)
}

/// Takes in a `#` line.
pub fn handle_directive(rest: &[char], meta: &mut PlaylistMeta, cur: &mut Option<M3uEntry>, now: Moment)
    ensures
        forall|entries: Seq<EntryView>|
            after_directive(
                #[trigger] reading(old(meta)@, entries, opt_entry(*old(cur))),
                rest@,
                now,
            ) == reading(final(meta)@, entries, opt_entry(*final(cur))),
{
    if let Some(v) = strip_prefix(rest, "PLAYLIST:") {
        meta.name = string_of(&v);
    } else if let Some(v) = strip_prefix(rest, "MEDLEY-PLAYLIST-ID:") {
        let t = trimmed_text(&v);
        meta.id = uuid_from_text(&t);
    } else if let Some(v) = strip_prefix(rest, "MEDLEY-NOTES:") {
        let t = string_of(&v);
        meta.notes = pct_decode(&t);
    } else if let Some(v) = strip_prefix(rest, "EXTINF:") {
        let mut e = take_entry(cur);
        e.extinf = match split_once(&v, ',') {
            Some((n, t)) => Some((parse_secs(&n), string_of(&t))),
            None => Some((parse_secs(&v), String::new())),
        };
        *cur = Some(e);
    } else if let Some(v) = strip_prefix(rest, "MEDLEY-TRACK-ID:") {
        let mut e = take_entry(cur);
        let t = trimmed_text(&v);
        e.track_id = uuid_from_text(&t);
        *cur = Some(e);
    } else if let Some(v) = strip_prefix(rest, "MEDLEY-PLAYED-AT:") {
        let mut e = take_entry(cur);
        let t = trimmed_text(&v);
        e.played_at = Moment::from_rfc3339(&t);
        *cur = Some(e);
    } else if let Some(v) = strip_prefix(rest, "MEDLEY-META:") {
        let mut e = take_entry(cur);
        e.meta = parse_meta(&v);
        *cur = Some(e);
    } else if let Some(v) = strip_prefix(rest, "MEDLEY-RENDITION:") {
        if let Some(r) = parse_rendition(&v, now) {
            let mut e = take_entry(cur);
            let ghost before = e.renditions@;
            e.renditions.push(r);
            assert(parsed_views(e.renditions@) =~= parsed_views(before).push(r@));
            *cur = Some(e);
        }
    }
}

/// Reads the text of a playlist file; a date that cannot be read counts as `now`.
pub fn parse_m3u_at(text: &str, now: Moment) -> (r: Result<M3uDoc, Error>)
    ensures
        match r {
            Ok(d) => m3u_parsed(text@, now) == Some(d@),
            Err(e) => m3u_parsed(text@, now) is None && (e matches Error::Other(m) && m@
                == "not an m3u"@),
        },
{
    let c = chars_of(text);
    let ls = split(&c, '\n');
    let ghost all = chars_views(ls@);
    let mut i: usize = 0;
    assert(all.skip(0) =~= all);
    let mark = chars_of("#EXTM3U");
    while i < ls.len()
        invariant
            i <= ls@.len(),
            all == chars_views(ls@),
            all == split_of(text@, '\n'),
            mark@ == "#EXTM3U"@,
            doc_of_lines(all.skip(i as int), now) == m3u_parsed(text@, now),
        decreases ls@.len() - i,
    {
        let line = trim(&ls[i]);
        proof {
            assert(all.skip(i as int)[0] == ls@[i as int]@);
            assert(all.skip(i as int).drop_first() =~= all.skip(i + 1));
        }
        i = i + 1;
        if line.len() == 0 {
            continue;
        }
        if !same_chars(&line, &mark) {
            return Err(Error::Other("not an m3u".to_owned()));
        }
        return Ok(read_lines(&ls, i, now));
    }
    assert(all.skip(i as int).len() == 0);
    Err(Error::Other("not an m3u".to_owned()))
}

/// Reads the lines from a position on.
fn read_lines(ls: &Vec<Vec<char>>, from: usize, now: Moment) -> (r: M3uDoc)
    requires
        from <= ls@.len(),
    ensures
        ({
            let st = after_lines(no_reading(), chars_views(ls@).skip(from as int), now);
            r@ == (DocView { playlist: st.meta, entries: st.entries })
        }),
{
    let ghost all = chars_views(ls@);
    let ghost goal = after_lines(no_reading(), all.skip(from as int), now);
    let mut meta = PlaylistMeta { id: None, name: String::new(), notes: String::new() };
    let mut entries: Vec<M3uEntry> = Vec::new();
    let mut cur: Option<M3uEntry> = None;
    let mut i: usize = from;
    assert(entry_views(entries@) =~= Seq::<EntryView>::empty());
    while i < ls.len()
        invariant
            from <= i <= ls@.len(),
            all == chars_views(ls@),
            after_lines(
                reading(meta@, entry_views(entries@), opt_entry(cur)),
                all.skip(i as int),
                now,
            ) == goal,
        decreases ls@.len() - i,
    {
        let ghost st = reading(meta@, entry_views(entries@), opt_entry(cur));
        let line = trim(&ls[i]);
        proof {
            assert(all.skip(i as int)[0] == ls@[i as int]@);
            assert(all.skip(i as int).drop_first() =~= all.skip(i + 1));
        }
        i = i + 1;
        if line.len() == 0 {
            continue;
        }
        if line[0] == '#' {
            let rest = part(&line, 1, line.len());
            assert(rest@ =~= line@.drop_first());
            handle_directive(&rest, &mut meta, &mut cur, now);
        } else {
            let mut e = take_entry(&mut cur);
            e.primary_uri = string_of(&line);
            let ghost before = entries@;
            entries.push(e);
            assert(entry_views(entries@) =~= entry_views(before).push(e@));
        }
        proof {
            assert(after_line(st, ls@[i - 1]@, now) == reading(
                meta@,
                entry_views(entries@),
                opt_entry(cur),
            ));
        }
    }
    assert(all.skip(i as int).len() == 0);
    M3uDoc { playlist: meta, entries }
}

/// Reads the text of a playlist file.
pub fn parse_m3u(text: &str) -> (r: Result<M3uDoc, Error>)
    ensures
        exists|now: Moment|
            match r {
                Ok(d) => #[trigger] m3u_parsed(text@, now) == Some(d@),
                Err(e) => m3u_parsed(text@, now) is None && (e matches Error::Other(m) && m@
                    == "not an m3u"@),
            },
{
    let now = Moment::now();
    parse_m3u_at(text, now)
}


/// Writes a playlist file. What is written reads back as the file that was given, at any time,
/// if a file can hold it, with carriage returns before the line ends as well as without.
pub fn write_m3u(doc: &M3uDoc) -> (r: String)
    ensures
        r@ == unlines(doc_lines(doc@)),
        storable(doc@) ==> forall|now: Moment| #[trigger] m3u_parsed(r@, now) == Some(doc@),
        storable(doc@) ==> forall|now: Moment| #[trigger] m3u_parsed(with_crlf(r@), now) == Some(doc@),
{
    let ghost v = doc@;
    let head = write_header(&doc.playlist);
    let mut out = chars_of(&head);
    let mut i: usize = 0;
    proof {
        assert(v.entries.take(0) =~= Seq::<EntryView>::empty());
        assert(header_lines(v.playlist) + Seq::<Seq<char>>::empty() =~= header_lines(v.playlist));
    }
    while i < doc.entries.len()
        invariant
            i <= doc.entries@.len(),
            v == doc@,
            out@ == unlines(header_lines(v.playlist) + entries_lines(v.entries.take(i as int))),
            forall|j: int| 0 <= j < i ==> entry_readable(#[trigger] v.entries[j]),
        decreases doc.entries@.len() - i,
    {
        let s = write_entry(&doc.entries[i]);
        append_str(&mut out, &s);
        proof {
            let e = v.entries[i as int];
            assert(e == doc.entries@[i as int]@);
            let so_far = v.entries.take(i as int);
            let now_on = v.entries.take(i + 1);
            assert(now_on.drop_last() =~= so_far);
            assert(now_on.last() == e);
            lemma_unlines_concat(
                header_lines(v.playlist) + entries_lines(so_far),
                entry_lines(e),
            );
            assert(header_lines(v.playlist) + entries_lines(so_far) + entry_lines(e)
                =~= header_lines(v.playlist) + entries_lines(now_on));
        }
        i = i + 1;
    }
    proof {
        assert(v.entries.take(i as int) =~= v.entries);
        if storable(v) {
            assert forall|now: Moment| #[trigger] m3u_parsed(out@, now) == Some(v) by {
                m3u_round_trip(v, now);
            }
            assert forall|now: Moment| #[trigger] m3u_parsed(with_crlf(out@), now) == Some(v) by {
                line_ends_do_not_matter(out@, now);
            }
        }
    }
    string_of(&out)
}

} // verus!
