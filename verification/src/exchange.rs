//! Playlists to and from files, and local files into the library.

use vstd::prelude::*;
use crate::audio::{audio_ext, audio_extension, audio_quality, extension, quality_of_name, segment_start};
use crate::env::{Env, EnvView};
use crate::ids::{uuid_text, uuid_to_text};
use crate::playback::{export_uri, Playback};
use crate::playlist_m3u::{DocView, EntryView, M3uDoc, M3uEntry, MetaView, ParsedRendition, ParsedView, PlaylistMeta, SoftMeta, SoftMetaView};
use crate::resolver::{find_track, local_path, local_path_from_uri, track_at};
use crate::store::{tracks_of, MemStore};
use crate::strmap::StrMap;
use crate::text::{
    append_decimal, append_str, chars_of, decimal, find_from, first_of, join_strings, joined, last_char, part,
    rfind_char, same_text, string_of, str_views, strip_prefix, stripped,
};
use crate::types::{
    clone_opt, clone_strings, opt_text, track_name, Playlist, Quality, RenditionView, Track, TrackId, TrackView,
    track_views,
};

verus! {

/// Seconds from milliseconds, to the nearest.
pub open spec fn seconds_of(ms: u32) -> i64 {
    ((ms + 500) / 1000) as i64
}

/// The first length of a rendition that is known, from `i` on.
pub open spec fn first_length(v: Seq<RenditionView>, i: int) -> Option<u32>
    decreases v.len() - i,
{
    if i < 0 || i >= v.len() {
        None
    } else if v[i].duration_ms > 0 {
        Some(v[i].duration_ms)
    } else {
        first_length(v, i + 1)
    }
}

/// The length that an entry gives, or -1.
pub open spec fn entry_seconds(t: TrackView) -> i64 {
    if t.duration_ms > 0 {
        seconds_of(t.duration_ms)
    } else {
        match first_length(t.renditions, 0) {
            Some(ms) => seconds_of(ms),
            None => -1i64,
        }
    }
}

/// An attribute of a track.
pub open spec fn attr_of(t: TrackView, name: Seq<char>) -> Option<Seq<char>> {
    if t.attrs.dom().contains(name) {
        Some(t.attrs[name]@)
    } else {
        None
    }
}

/// The tempo of a track as it is written, by the table of how each tempo is written.
pub open spec fn tempo_of(tempos: Map<Seq<char>, String>, t: TrackView) -> Option<Seq<char>> {
    match attr_of(t, "bpm"@) {
        Some(b) => if tempos.dom().contains(b) {
            Some(tempos[b]@)
        } else {
            None
        },
        None => None,
    }
}

pub open spec fn parsed_views(v: Seq<RenditionView>) -> Seq<ParsedView> {
    v.map_values(
        |r: RenditionView|
            ParsedView { source: r.source, quality: r.quality, added_at: r.added_at, uri: r.uri },
    )
}

/// The entry of a track, with the line that any player plays.
pub open spec fn entry_of(t: TrackView, primary: Seq<char>, tempo: Option<Seq<char>>) -> EntryView {
    EntryView {
        extinf: Some((entry_seconds(t), track_name(t))),
        track_id: Some(t.id.0),
        played_at: None,
        meta: SoftMetaView {
            isrc: t.isrc,
            album: t.album,
            year: t.year,
            bpm: tempo,
            key: attr_of(t, "key"@),
            tags: t.tags,
        },
        renditions: parsed_views(t.renditions),
        primary_uri: primary,
    }
}

fn seconds(ms: u32) -> (r: i64)
    ensures
        r == seconds_of(ms),
{
    ((ms as i64) + 500) / 1000
}

fn length_of(t: &Track) -> (r: i64)
    ensures
        r == entry_seconds(t@),
{
    if t.duration_ms > 0 {
        return seconds(t.duration_ms);
    }
    let ghost v = t@.renditions;
    let mut i: usize = 0;
    while i < t.renditions.len()
        invariant
            i <= t.renditions@.len(),
            v == t@.renditions,
            t.duration_ms == 0,
            first_length(v, i as int) == first_length(v, 0),
        decreases t.renditions@.len() - i,
    {
        assert(v[i as int] == t.renditions@[i as int]@);
        if t.renditions[i].duration_ms > 0 {
            return seconds(t.renditions[i].duration_ms);
        }
        i = i + 1;
    }
    -1
}

fn attr(t: &Track, name: &str) -> (r: Option<String>)
    ensures
        opt_text(r) == attr_of(t@, name@),
{
    match t.attrs.get(name) {
        Some(v) => Some(v.clone()),
        None => None,
    }
}

/// The tempo of a track as it is written.
pub fn tempo(tempos: &StrMap<String>, t: &Track) -> (r: Option<String>)
    ensures
        opt_text(r) == tempo_of(tempos@, t@),
{
    match t.attrs.get("bpm") {
        Some(b) => match tempos.get(b) {
            Some(v) => Some(v.clone()),
            None => None,
        },
        None => None,
    }
}

/// The entry of a track, with the line that any player plays. `tempo` is its tempo as it is
/// written.
pub fn build_entry(t: &Track, primary: String, tempo: Option<String>) -> (r: M3uEntry)
    ensures
        r@ == entry_of(t@, primary@, opt_text(tempo)),
{
    let mut renditions: Vec<ParsedRendition> = Vec::new();
    let ghost want = parsed_views(t@.renditions);
    let mut i: usize = 0;
    while i < t.renditions.len()
        invariant
            i <= t.renditions@.len(),
            want == parsed_views(t@.renditions),
            renditions@.len() == i,
            forall|j: int| 0 <= j < i ==> (#[trigger] renditions@[j])@ == want[j],
        decreases t.renditions@.len() - i,
    {
        assert(t@.renditions[i as int] == t.renditions@[i as int]@);
        renditions.push(ParsedRendition::from_rendition(&t.renditions[i]));
        i = i + 1;
    }
    let r = M3uEntry {
        extinf: Some((length_of(t), t.display_name())),
        track_id: Some(t.id.0),
        played_at: None,
        meta: SoftMeta {
            isrc: clone_opt(&t.isrc),
            album: clone_opt(&t.album),
            year: t.year,
            bpm: tempo,
            key: attr(t, "key"),
            tags: clone_strings(&t.tags),
        },
        renditions,
        primary_uri: primary,
    };
    assert(r@.renditions =~= want);
    r
}

/// What an export comes to: the entries, and what had to be left out.
pub struct Exported {
    pub entries: Seq<EntryView>,
    pub gaps: Seq<Seq<char>>,
}

/// The gap of a track that is not in the library.
pub open spec fn missing_text(id: TrackId) -> Seq<char> {
    "track "@ + uuid_text(id.0) + " not in catalog"@
}

/// The gap of a track that nothing can be written for.
pub open spec fn unexportable_text(title: Seq<char>) -> Seq<char> {
    "nothing exportable for \""@ + title + "\""@
}

pub open spec fn exported(items: Seq<TrackId>, tracks: Seq<TrackView>, e: EnvView, tempos: Map<Seq<char>, String>) -> Exported
    decreases items.len(),
{
    if items.len() == 0 {
        Exported { entries: seq![], gaps: seq![] }
    } else {
        let x = exported(items.drop_last(), tracks, e, tempos);
        match track_at(tracks, items.last(), 0) {
            None => Exported { gaps: x.gaps.push(missing_text(items.last())), ..x },
            Some(k) => match export_uri(e, tracks[k]) {
                Some(uri) => Exported {
                    entries: x.entries.push(entry_of(tracks[k], uri, tempo_of(tempos, tracks[k]))),
                    ..x
                },
                None => Exported { gaps: x.gaps.push(unexportable_text(tracks[k].title)), ..x },
            },
        }
    }
}

pub open spec fn entry_views(v: Seq<M3uEntry>) -> Seq<EntryView> {
    v.map_values(|e: M3uEntry| e@)
}

/// The file of a playlist, and what had to be left out of it.
pub fn export_doc(p: &Playlist, store: &MemStore, env: &Env, tempos: &StrMap<String>) -> (r: (M3uDoc, Vec<String>))
    ensures
        ({
            let x = exported(p@.items, tracks_of(store@, p@.items), env@, tempos@);
            &&& r.0@ == (DocView {
                playlist: MetaView { id: Some(p@.id.0), name: p@.name, notes: p@.notes },
                entries: x.entries,
            })
            &&& str_views(r.1@) == x.gaps
        }),
{
    let tracks = store.get_tracks(&p.items);
    let ghost tv = track_views(tracks@);
    let ghost items = p@.items;
    let mut entries: Vec<M3uEntry> = Vec::new();
    let mut gaps: Vec<String> = Vec::new();
    let mut i: usize = 0;
    proof {
        assert(items.take(0) =~= seq![]);
        assert(entry_views(entries@) =~= seq![]);
        assert(str_views(gaps@) =~= seq![]);
    }
    while i < p.items.len()
        invariant
            i <= p.items@.len(),
            items == p.items@,
            tv == track_views(tracks@),
            entry_views(entries@) == exported(items.take(i as int), tv, env@, tempos@).entries,
            str_views(gaps@) == exported(items.take(i as int), tv, env@, tempos@).gaps,
        decreases p.items@.len() - i,
    {
        assert(items.take(i + 1).drop_last() =~= items.take(i as int));
        let id = p.items[i];
        let ghost was = entries@;
        let ghost old_gaps = gaps@;
        match find_track(&tracks, id) {
            None => {
                let mut m = "track ".to_owned();
                m.append(&uuid_to_text(id.0));
                m.append(" not in catalog");
                gaps.push(m);
                assert(str_views(gaps@) =~= str_views(old_gaps).push(missing_text(id)));
            },
            Some(k) => {
                let t = &tracks[k];
                assert(tv[k as int] == t@);
                match Playback::export_primary_uri(t, env) {
                    Some(uri) => {
                        let e = build_entry(t, uri, tempo(tempos, t));
                        entries.push(e);
                        assert(entry_views(entries@) =~= entry_views(was).push(e@));
                    },
                    None => {
                        let mut m = "nothing exportable for \"".to_owned();
                        m.append(&t.title);
                        m.append("\"");
                        gaps.push(m);
                        assert(str_views(gaps@) =~= str_views(old_gaps).push(unexportable_text(t@.title)));
                    },
                }
            },
        }
        i = i + 1;
    }
    assert(items.take(i as int) =~= items);
    let doc = M3uDoc {
        playlist: PlaylistMeta { id: Some(p.id.0), name: p.name.clone(), notes: p.notes.clone() },
        entries,
    };
    assert(doc@.entries =~= entry_views(entries@));
    (doc, gaps)
}

/// What is said of an export.
pub open spec fn exported_text(path: Seq<char>, n: nat, gaps: Seq<Seq<char>>) -> Seq<char> {
    if gaps.len() == 0 {
        "exported "@ + path + " ("@ + decimal(n) + " tracks)"@
    } else {
        "exported "@ + path + " ("@ + decimal(n) + " tracks, "@ + decimal(gaps.len()) + " skipped): "@ + joined(
            gaps,
            "; "@,
        )
    }
}

pub fn export_message(path: &str, n: usize, gaps: &Vec<String>) -> (r: String)
    ensures
        r@ == exported_text(path@, n as nat, str_views(gaps@)),
{
    assert(str_views(gaps@).len() == gaps@.len());
    let mut v: Vec<char> = Vec::new();
    append_str(&mut v, "exported ");
    append_str(&mut v, path);
    append_str(&mut v, " (");
    append_decimal(&mut v, n as u64);
    if gaps.len() == 0 {
        append_str(&mut v, " tracks)");
    } else {
        append_str(&mut v, " tracks, ");
        append_decimal(&mut v, gaps.len() as u64);
        append_str(&mut v, " skipped): ");
        append_str(&mut v, &join_strings(gaps, "; "));
    }
    assert(v@ =~= exported_text(path@, n as nat, str_views(gaps@)));
    string_of(&v)
}

/// Every item of a playlist is exported or named as a gap.
pub proof fn export_leaves_nothing_unsaid(items: Seq<TrackId>, tracks: Seq<TrackView>, e: EnvView, tempos: Map<Seq<char>, String>)
    ensures
        ({
            let x = exported(items, tracks, e, tempos);
            x.entries.len() + x.gaps.len() == items.len()
        }),
    decreases items.len(),
{
    if items.len() > 0 {
        export_leaves_nothing_unsaid(items.drop_last(), tracks, e, tempos);
    }
}

/// How many slashes a text ends with is of no matter.
pub open spec fn without_end_slashes(s: Seq<char>) -> Seq<char>
    decreases s.len(),
{
    if s.len() > 0 && s.last() == '/' {
        without_end_slashes(s.drop_last())
    } else {
        s
    }
}

/// The name of the file that an address ends with, without its extension.
pub open spec fn stem_of(uri: Seq<char>) -> Seq<char> {
    let t = without_end_slashes(uri);
    let last = t.skip(segment_start(t, t.len() as int));
    match last_char(last, '.') {
        Some(i) => if i > 0 {
            last.take(i)
        } else {
            last
        },
        None => last,
    }
}

pub fn uri_stem(uri: &str) -> (r: String)
    ensures
        r@ == stem_of(uri@),
{
    let v = chars_of(uri);
    let mut n: usize = v.len();
    assert(v@.take(n as int) =~= v@);
    while n > 0 && v[n - 1] == '/'
        invariant
            n <= v@.len(),
            without_end_slashes(v@.take(n as int)) == without_end_slashes(v@),
        decreases n,
    {
        assert(v@.take(n as int).drop_last() =~= v@.take(n - 1));
        n = n - 1;
    }
    let t = part(&v, 0, n);
    assert(t@ =~= v@.take(n as int));
    assert(t@ == without_end_slashes(v@));
    let mut k: usize = n;
    while k > 0 && t[k - 1] != '/' && t[k - 1] != '\\'
        invariant
            k <= n == t@.len(),
            segment_start(t@, k as int) == segment_start(t@, n as int),
        decreases k,
    {
        k = k - 1;
    }
    assert(segment_start(t@, k as int) == k);
    let last = part(&t, k, n);
    assert(last@ =~= t@.skip(segment_start(t@, t@.len() as int)));
    match rfind_char(&last, '.') {
        Some(i) => if i > 0 {
            let name = part(&last, 0, i);
            assert(name@ =~= last@.take(i as int));
            string_of(&name)
        } else {
            string_of(&last)
        },
        None => string_of(&last),
    }
}

/// A path below a directory; an absolute path stands for itself.
pub open spec fn joined_path(base: Seq<char>, rest: Seq<char>) -> Seq<char> {
    if rest.len() > 0 && rest[0] == '/' {
        rest
    } else if base.len() == 0 || base.last() == '/' {
        base + rest
    } else {
        base + seq!['/'] + rest
    }
}

pub fn join_path(base: &str, rest: &str) -> (r: String)
    ensures
        r@ == joined_path(base@, rest@),
{
    let b = chars_of(base);
    let c = chars_of(rest);
    if c.len() > 0 && c[0] == '/' {
        return rest.to_owned();
    }
    let mut s = base.to_owned();
    if b.len() > 0 && b[b.len() - 1] != '/' {
        s.push('/');
    }
    s.append(rest);
    assert(s@ =~= joined_path(base@, rest@));
    s
}

/// The local path that a line of a playlist means, if it means one.
pub open spec fn line_path(s: Seq<char>, base: Seq<char>) -> Option<Seq<char>> {
    match stripped(s, "file://"@) {
        Some(rest) => Some(rest),
        None => if first_of(s, "://"@) is Some {
            None
        } else {
            Some(joined_path(base, s))
        },
    }
}

fn local_path_of(s: &str, base: &str) -> (r: Option<String>)
    ensures
        opt_text(r) == line_path(s@, base@),
{
    let v = chars_of(s);
    if let Some(rest) = strip_prefix(&v, "file://") {
        return Some(string_of(&rest));
    }
    if find_from(&v, &chars_of("://"), 0).is_some() {
        return None;
    }
    Some(join_path(base, s))
}

/// A rendition that a file names.
pub struct RenditionSpec {
    pub source: String,
    pub uri: String,
    pub quality: Quality,
}

pub struct SpecView {
    pub source: Seq<char>,
    pub uri: Seq<char>,
    pub quality: Quality,
}

impl View for RenditionSpec {
    type V = SpecView;

    open spec fn view(&self) -> SpecView {
        SpecView { source: self.source@, uri: self.uri@, quality: self.quality }
    }
}

pub open spec fn spec_views(v: Seq<RenditionSpec>) -> Seq<SpecView> {
    v.map_values(|s: RenditionSpec| s@)
}

/// A rendition that is written out; a local one is a path, also where it is written as a URL.
pub open spec fn spec_of(p: ParsedView) -> SpecView {
    SpecView {
        source: p.source,
        uri: if p.source == "local"@ {
            local_path(p.uri)
        } else {
            p.uri
        },
        quality: p.quality,
    }
}

pub fn spec_from_parsed(p: &ParsedRendition) -> (r: RenditionSpec)
    ensures
        r@ == spec_of(p@),
{
    let uri = if same_text(&p.source, "local") {
        local_path_from_uri(&p.uri)
    } else {
        p.uri.clone()
    };
    RenditionSpec { source: p.source.clone(), uri, quality: p.quality }
}

/// The rendition that a line of a playlist means: of the source that recognizes it, a local
/// audio file, or something else.
pub open spec fn synthesised(primary: Seq<char>, base: Seq<char>, recognized: Option<Seq<char>>) -> SpecView {
    let other = SpecView { source: "external"@, uri: primary, quality: Quality::Unknown };
    match recognized {
        Some(source) => SpecView { source, uri: primary, quality: Quality::Unknown },
        None => match line_path(primary, base) {
            Some(path) => if extension(path) matches Some(x) && audio_extension(x) {
                SpecView { source: "local"@, uri: path, quality: quality_of_name(path) }
            } else {
                other
            },
            None => other,
        },
    }
}

/// The rendition that a line of a playlist means. `recognized` is the source that knows it.
pub fn synthesise_rendition(primary: &str, base: &str, recognized: &Option<String>) -> (r: RenditionSpec)
    ensures
        r@ == synthesised(primary@, base@, opt_text(*recognized)),
{
    if let Some(source) = recognized {
        return RenditionSpec { source: source.clone(), uri: primary.to_owned(), quality: Quality::Unknown };
    }
    if let Some(path) = local_path_of(primary, base) {
        if audio_ext(&path) {
            let quality = audio_quality(&path);
            return RenditionSpec { source: "local".to_owned(), uri: path, quality };
        }
    }
    RenditionSpec { source: "external".to_owned(), uri: primary.to_owned(), quality: Quality::Unknown }
}

/// A line that is taken for a local file gets an absolute path where the base is one, unless it
/// is a `file://` URL of a relative path.
pub proof fn local_lines_get_absolute_paths(primary: Seq<char>, base: Seq<char>)
    requires
        base.len() > 0 && base[0] == '/',
        stripped(primary, "file://"@) matches Some(rest) ==> rest.len() > 0 && rest[0] == '/',
        synthesised(primary, base, None).source == "local"@,
    ensures
        synthesised(primary, base, None).uri.len() > 0,
        synthesised(primary, base, None).uri[0] == '/',
{
    reveal_strlit("local");
    reveal_strlit("external");
    assert("local"@.len() != "external"@.len());
    match line_path(primary, base) {
        Some(path) => {
            assert(path.len() > 0 && path[0] == '/');
        },
        None => {},
    }
}

} // verus!
