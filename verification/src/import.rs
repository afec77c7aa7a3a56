//! Folding playlist files and local files into the library.

use vstd::prelude::*;
use crate::catalog::{folded_hits_stay, ingested, Catalog};
use crate::event::{Bus, CoreEvent};
use crate::exchange::{
    spec_from_parsed, spec_of, spec_views, stem_of, synthesise_rendition, synthesised, uri_stem, RenditionSpec, SpecView,
};
use crate::moment::Moment;
use crate::names::{artist_title, parse_artist_title};
use crate::playlist_m3u::{EntryView, M3uDoc, M3uEntry, SoftMeta};
use crate::queue::bumped;
use crate::store::{store_sound, track_of, upsert_keeps_indices_sound, upserted, StoreView};
use crate::strmap::StrMap;
use crate::text::{append_decimal, append_str, chars_of, decimal, same_text, string_of, str_views, trim, trim_of};
use crate::traits::Error;
use crate::types::{
    clone_opt, clone_strings, fresh_track, opt_text, LinkReason, Playlist, PlaylistId, PlaylistView, Rendition,
    RenditionView, SourceId, Track, TrackId, TrackView,
};

verus! {

/// What folding a row of hits into the library comes to: the store, the tracks that the hits
/// belong to, and what is announced.
pub open spec fn ingested_all(s: StoreView, hits: Seq<TrackView>, ids: Seq<TrackId>) -> (StoreView, Seq<TrackId>, Seq<CoreEvent>)
    decreases hits.len(),
{
    if hits.len() == 0 {
        (s, seq![], seq![])
    } else {
        let (s1, v, ev) = ingested_all(s, hits.drop_last(), ids.drop_last());
        let (s2, t, written) = ingested(s1, hits.last(), ids.last());
        (
            s2,
            v.push(t),
            if written {
                ev.push(CoreEvent::TrackUpdated(t))
            } else {
                ev
            },
        )
    }
}

/// The renditions of an entry: those that are written out, and the line that any player plays
/// where it is none of them.
pub open spec fn entry_specs(e: EntryView, base: Seq<char>, recognized: Option<Seq<char>>) -> Seq<SpecView> {
    let v = e.renditions.map_values(|p: crate::playlist_m3u::ParsedView| spec_of(p));
    if e.primary_uri.len() > 0 && !has_uri(v, e.primary_uri) {
        v.push(synthesised(e.primary_uri, base, recognized))
    } else {
        v
    }
}

pub open spec fn has_uri(v: Seq<SpecView>, uri: Seq<char>) -> bool {
    exists|i: int| 0 <= i < v.len() && (#[trigger] v[i]).uri == uri
}

/// The artists and the title of an entry: of its display name, or else of its file's name.
pub open spec fn entry_names(e: EntryView) -> (Seq<Seq<char>>, Seq<char>) {
    match e.extinf {
        Some((_, t)) => if trim_of(t).len() > 0 {
            artist_title(t)
        } else {
            artist_title(stem_of(e.primary_uri))
        },
        None => artist_title(stem_of(e.primary_uri)),
    }
}

/// The length of an entry in milliseconds, 0 where it is not known.
pub open spec fn entry_ms(e: EntryView) -> u32 {
    match e.extinf {
        Some((s, _)) => if s < 0 {
            0
        } else {
            let ms = (s as int % 0x1_0000_0000) * 1000;
            if ms > u32::MAX {
                u32::MAX
            } else {
                ms as u32
            }
        },
        None => 0,
    }
}

/// The hit that a rendition of an entry is.
pub open spec fn entry_hit(x: SpecView, e: EntryView, now: Moment, id: TrackId) -> TrackView {
    let (artists, title) = entry_names(e);
    TrackView {
        isrc: e.meta.isrc,
        album: e.meta.album,
        ..fresh_track(
            id,
            title,
            artists,
            RenditionView {
                source: x.source,
                uri: x.uri,
                duration_ms: entry_ms(e),
                quality: x.quality,
                link: LinkReason::Manual,
                added_at: now,
            },
        )
    }
}

pub open spec fn entry_hits(specs: Seq<SpecView>, e: EntryView, now: Moment, ids: Seq<TrackId>) -> Seq<TrackView> {
    Seq::new(specs.len(), |i: int| entry_hit(specs[i], e, now, ids[i]))
}

/// The tags with those of another row that they lack.
pub open spec fn with_tags(v: Seq<Seq<char>>, more: Seq<Seq<char>>) -> Seq<Seq<char>>
    decreases more.len(),
{
    if more.len() == 0 {
        v
    } else {
        let w = with_tags(v, more.drop_last());
        if w.contains(more.last()) {
            w
        } else {
            w.push(more.last())
        }
    }
}

/// The attributes with one more, unless there is one of that name.
pub open spec fn with_attr(m: Map<Seq<char>, String>, name: Seq<char>, value: Option<String>) -> Map<Seq<char>, String> {
    match value {
        Some(v) => if m.dom().contains(name) {
            m
        } else {
            m.insert(name, v)
        },
        None => m,
    }
}

/// A track with what it lacks of an entry's metadata. `tempo` is the entry's tempo as it is
/// shown.
pub open spec fn with_soft_meta(t: TrackView, m: SoftMeta, tempo: Option<String>) -> TrackView {
    TrackView {
        year: if t.year is None {
            m.year
        } else {
            t.year
        },
        attrs: with_attr(with_attr(t.attrs, "bpm"@, tempo), "key"@, m.key),
        isrc: if t.isrc is None {
            opt_text(m.isrc)
        } else {
            t.isrc
        },
        album: if t.album is None {
            opt_text(m.album)
        } else {
            t.album
        },
        tags: with_tags(t.tags, str_views(m.tags@)),
        ..t
    }
}

/// The tempo of an entry as it is shown, by the table of how each tempo is shown.
pub open spec fn shown_tempo(tempos: Map<Seq<char>, String>, m: SoftMeta) -> Option<String> {
    match m.bpm {
        Some(b) => if tempos.dom().contains(b@) {
            Some(tempos[b@])
        } else {
            None
        },
        None => None,
    }
}

/// How far an import has come.
pub struct ImportView {
    pub s: StoreView,
    pub ev: Seq<CoreEvent>,
    pub items: Seq<TrackId>,
    pub fresh: nat,
    pub merged: nat,
    pub skipped: nat,
    /// False once a track that was just folded in is not there.
    pub ok: bool,
}

/// What is known beside an entry: where relative paths start, the source that recognizes its
/// line, how tempos are shown, the time, and identifiers for new tracks.
pub struct EntryFacts {
    pub base: Seq<char>,
    pub recognized: Option<Seq<char>>,
    pub tempos: Map<Seq<char>, String>,
    pub now: Moment,
    pub ids: Seq<TrackId>,
}

pub open spec fn import_entry(v: ImportView, e: M3uEntry, f: EntryFacts) -> ImportView {
    let specs = entry_specs(e@, f.base, f.recognized);
    if !v.ok {
        v
    } else if specs.len() == 0 {
        ImportView { skipped: v.skipped + 1, ..v }
    } else {
        let ids = f.ids.take(specs.len() as int);
        let (s1, found, ev) = ingested_all(v.s, entry_hits(specs, e@, f.now, ids), ids);
        let c = found[0];
        match track_of(s1, c) {
            None => ImportView { s: s1, ev: v.ev + ev, ok: false, ..v },
            Some(t) => ImportView {
                s: upserted(s1, with_soft_meta(t, e.meta, shown_tempo(f.tempos, e.meta))),
                ev: (v.ev + ev).push(CoreEvent::TrackUpdated(c)),
                items: if v.items.contains(c) {
                    v.items
                } else {
                    v.items.push(c)
                },
                fresh: if track_of(v.s, c) is Some {
                    v.fresh
                } else {
                    v.fresh + 1
                },
                merged: if track_of(v.s, c) is Some {
                    v.merged + 1
                } else {
                    v.merged
                },
                ..v
            },
        }
    }
}

/// How many identifiers the first `n` entries may need.
pub open spec fn ids_needed(v: Seq<M3uEntry>, n: int) -> nat
    decreases n,
{
    if n <= 0 || n > v.len() {
        0
    } else {
        ids_needed(v, n - 1) + v[n - 1].renditions@.len() + 1
    }
}

/// What is known beside a whole file.
pub struct ImportFacts {
    pub base: Seq<char>,
    pub recognized: Seq<Option<String>>,
    pub tempos: Map<Seq<char>, String>,
    pub now: Moment,
    pub ids: Seq<TrackId>,
}

/// The facts of entry `i`.
pub open spec fn facts_at(f: ImportFacts, v: Seq<M3uEntry>, i: int) -> EntryFacts {
    EntryFacts {
        base: f.base,
        recognized: opt_text(f.recognized[i]),
        tempos: f.tempos,
        now: f.now,
        ids: f.ids.skip(ids_needed(v, i) as int),
    }
}

/// The import of the first `n` entries.
pub open spec fn imported(start: ImportView, v: Seq<M3uEntry>, n: int, f: ImportFacts) -> ImportView
    decreases n,
{
    if n <= 0 || n > v.len() {
        start
    } else {
        import_entry(imported(start, v, n - 1, f), v[n - 1], facts_at(f, v, n - 1))
    }
}

pub open spec fn import_start(s: StoreView, ev: Seq<CoreEvent>) -> ImportView {
    ImportView { s, ev, items: seq![], fresh: 0, merged: 0, skipped: 0, ok: true }
}

fn has_spec_uri(v: &Vec<RenditionSpec>, uri: &str) -> (r: bool)
    ensures
        r == has_uri(spec_views(v@), uri@),
{
    let ghost w = spec_views(v@);
    let mut i: usize = 0;
    while i < v.len()
        invariant
            i <= v@.len(),
            w == spec_views(v@),
            forall|j: int| 0 <= j < i ==> (#[trigger] w[j]).uri != uri@,
        decreases v@.len() - i,
    {
        assert(w[i as int] == v@[i as int]@);
        if same_text(&v[i].uri, uri) {
            return true;
        }
        i = i + 1;
    }
    false
}

fn specs_of_entry(e: &M3uEntry, base: &str, recognized: &Option<String>) -> (r: Vec<RenditionSpec>)
    ensures
        spec_views(r@) == entry_specs(e@, base@, opt_text(*recognized)),
        r@.len() <= e.renditions@.len() + 1,
{
    let ghost want = e@.renditions.map_values(|p: crate::playlist_m3u::ParsedView| spec_of(p));
    let mut out: Vec<RenditionSpec> = Vec::new();
    let mut i: usize = 0;
    while i < e.renditions.len()
        invariant
            i <= e.renditions@.len(),
            want == e@.renditions.map_values(|p: crate::playlist_m3u::ParsedView| spec_of(p)),
            out@.len() == i,
            forall|j: int| 0 <= j < i ==> (#[trigger] out@[j])@ == want[j],
        decreases e.renditions@.len() - i,
    {
        assert(e@.renditions[i as int] == e.renditions@[i as int]@);
        out.push(spec_from_parsed(&e.renditions[i]));
        i = i + 1;
    }
    assert(spec_views(out@) =~= want);
    if chars_of(&e.primary_uri).len() > 0 && !has_spec_uri(&out, &e.primary_uri) {
        let ghost before = out@;
        out.push(synthesise_rendition(&e.primary_uri, base, recognized));
        assert(spec_views(out@) =~= want.push(synthesised(e@.primary_uri, base@, opt_text(*recognized))));
    }
    out
}

fn names_of_entry(e: &M3uEntry) -> (r: (Vec<String>, String))
    ensures
        (str_views(r.0@), r.1@) == entry_names(e@),
{
    if let Some((_, t)) = &e.extinf {
        if trim(&chars_of(t)).len() > 0 {
            return parse_artist_title(t);
        }
    }
    parse_artist_title(&uri_stem(&e.primary_uri))
}

fn ms_of_entry(e: &M3uEntry) -> (r: u32)
    ensures
        r == entry_ms(e@),
{
    match &e.extinf {
        Some((s, _)) => if *s < 0 {
            0
        } else {
            let secs: u64 = (*s as u64) % 0x1_0000_0000;
            let ms: u64 = secs * 1000;
            if ms > u32::MAX as u64 {
                u32::MAX
            } else {
                ms as u32
            }
        },
        None => 0,
    }
}

fn add_attr(t: &mut Track, name: &str, value: &Option<String>)
    ensures
        final(t)@ == (TrackView { attrs: with_attr(old(t)@.attrs, name@, *value), ..old(t)@ }),
{
    if let Some(v) = value {
        if !t.attrs.contains_key(name) {
            let mut m: StrMap<String> = StrMap::new();
            std::mem::swap(&mut m, &mut t.attrs);
            m.insert(name.to_owned(), v.clone());
            t.attrs = m;
        }
    }
}

fn has_tag(v: &Vec<String>, tag: &String) -> (r: bool)
    ensures
        r == str_views(v@).contains(tag@),
{
    let ghost w = str_views(v@);
    let mut i: usize = 0;
    while i < v.len()
        invariant
            i <= v@.len(),
            w == str_views(v@),
            forall|j: int| 0 <= j < i ==> w[j] != tag@,
        decreases v@.len() - i,
    {
        assert(w[i as int] == v@[i as int]@);
        if same_text(&v[i], tag) {
            assert(w.contains(tag@));
            return true;
        }
        i = i + 1;
    }
    false
}

fn soften(t: &mut Track, m: &SoftMeta, tempo: &Option<String>)
    ensures
        final(t)@ == with_soft_meta(old(t)@, *m, *tempo),
{
    if t.year.is_none() {
        t.year = m.year;
    }
    add_attr(t, "bpm", tempo);
    add_attr(t, "key", &m.key);
    if t.isrc.is_none() {
        t.isrc = clone_opt(&m.isrc);
    }
    if t.album.is_none() {
        t.album = clone_opt(&m.album);
    }
    let ghost tags = str_views(t.tags@);
    let ghost more = str_views(m.tags@);
    let ghost before = t@;
    let mut i: usize = 0;
    assert(more.take(0) =~= seq![]);
    while i < m.tags.len()
        invariant
            i <= m.tags@.len(),
            more == str_views(m.tags@),
            t@ == (TrackView { tags: with_tags(tags, more.take(i as int)), ..before }),
        decreases m.tags@.len() - i,
    {
        assert(more.take(i + 1).drop_last() =~= more.take(i as int));
        assert(more[i as int] == m.tags@[i as int]@);
        if !has_tag(&t.tags, &m.tags[i]) {
            let ghost was = t.tags@;
            t.tags.push(m.tags[i].clone());
            assert(str_views(t.tags@) =~= str_views(was).push(more[i as int]));
        }
        i = i + 1;
    }
    assert(more.take(i as int) =~= more);
}

/// How far an import has come.
pub struct Importing {
    pub items: Vec<TrackId>,
    pub fresh: u64,
    pub merged: u64,
    pub skipped: u64,
    pub ok: bool,
}

pub open spec fn importing(i: Importing, c: Catalog, b: Bus) -> ImportView {
    ImportView {
        s: c.store@,
        ev: b@,
        items: i.items@,
        fresh: i.fresh as nat,
        merged: i.merged as nat,
        skipped: i.skipped as nat,
        ok: i.ok,
    }
}

fn ingest_row(specs: &Vec<RenditionSpec>, e: &M3uEntry, now: Moment, ids: &Vec<TrackId>, from: usize, catalog: &mut Catalog, bus: &mut Bus) -> (r: Vec<TrackId>)
    requires
        from + specs@.len() <= ids@.len(),
    ensures
        ({
            let mine = ids@.skip(from as int).take(specs@.len() as int);
            let (s, v, ev) = ingested_all(
                old(catalog).store@,
                entry_hits(spec_views(specs@), e@, now, mine),
                mine,
            );
            &&& final(catalog).store@ == s
            &&& r@ == v
            &&& final(bus)@ == old(bus)@ + ev
        }),
        r@.len() == specs@.len(),
        final(catalog).playlists_gen == old(catalog).playlists_gen,
        final(catalog).removed_gen == old(catalog).removed_gen,
{
    let ghost mine = ids@.skip(from as int).take(specs@.len() as int);
    let ghost sv = spec_views(specs@);
    let ghost hits = entry_hits(sv, e@, now, mine);
    let ghost s = catalog.store@;
    let ghost before = bus@;
    let (artists, title) = names_of_entry(e);
    let ms: u32 = ms_of_entry(e);
    let mut out: Vec<TrackId> = Vec::new();
    let n: usize = specs.len();
    let total: usize = ids.len();
    let mut i: usize = 0;
    proof {
        assert(hits.take(0) =~= seq![]);
        assert(mine.take(0) =~= seq![]);
        assert(before + Seq::<CoreEvent>::empty() =~= before);
    }
    while i < n
        invariant
            i <= n == specs@.len(),
            from + n <= total == ids@.len(),
            mine == ids@.skip(from as int).take(n as int),
            sv == spec_views(specs@),
            hits == entry_hits(sv, e@, now, mine),
            (str_views(artists@), title@) == entry_names(e@),
            ms == entry_ms(e@),
            out@.len() == i,
            catalog.store@ == ingested_all(s, hits.take(i as int), mine.take(i as int)).0,
            out@ == ingested_all(s, hits.take(i as int), mine.take(i as int)).1,
            bus@ == before + ingested_all(s, hits.take(i as int), mine.take(i as int)).2,
            catalog.playlists_gen == old(catalog).playlists_gen,
            catalog.removed_gen == old(catalog).removed_gen,
        decreases n - i,
    {
        let ghost ev = ingested_all(s, hits.take(i as int), mine.take(i as int)).2;
        proof {
            assert(hits.take(i + 1).drop_last() =~= hits.take(i as int));
            assert(mine.take(i + 1).drop_last() =~= mine.take(i as int));
            assert(hits.take(i + 1).last() == hits[i as int]);
            assert(mine.take(i + 1).last() == ids@[from + i]);
            assert(sv[i as int] == specs@[i as int]@);
        }
        let x = &specs[i];
        let r = Rendition::fresh_at(SourceId::new(&x.source), x.uri.clone(), ms, x.quality, now);
        let mut hit = Track::fresh_with(ids[from + i], title.clone(), clone_strings(&artists), r);
        hit.isrc = clone_opt(&e.meta.isrc);
        hit.album = clone_opt(&e.meta.album);
        assert(hit@ == hits[i as int]);
        assert(hit@.renditions.len() == hit.renditions@.len());
        let id = catalog.ingest_with(&hit, ids[from + i], bus);
        out.push(id);
        assert(before + ev.push(CoreEvent::TrackUpdated(id)) =~= (before + ev).push(CoreEvent::TrackUpdated(id)));
        i = i + 1;
    }
    assert(hits.take(n as int) =~= hits);
    assert(mine.take(n as int) =~= mine);
    out
}

fn has_item(v: &Vec<TrackId>, id: TrackId) -> (r: bool)
    ensures
        r == v@.contains(id),
{
    let mut i: usize = 0;
    while i < v.len()
        invariant
            i <= v@.len(),
            forall|j: int| 0 <= j < i ==> v@[j] != id,
        decreases v@.len() - i,
    {
        if v[i] == id {
            return true;
        }
        i = i + 1;
    }
    false
}

/// Folds one entry of a file into the library. The identifiers from `from` on are for new
/// tracks.
fn take_entry(st: &mut Importing, e: &M3uEntry, base: &str, recognized: &Option<String>, tempos: &StrMap<String>, now: Moment, ids: &Vec<TrackId>, from: usize, catalog: &mut Catalog, bus: &mut Bus)
    requires
        from + e.renditions@.len() + 1 <= ids@.len(),
        old(st).fresh < u64::MAX,
        old(st).merged < u64::MAX,
        old(st).skipped < u64::MAX,
    ensures
        importing(*final(st), *final(catalog), *final(bus)) == import_entry(
            importing(*old(st), *old(catalog), *old(bus)),
            *e,
            EntryFacts {
                base: base@,
                recognized: opt_text(*recognized),
                tempos: tempos@,
                now,
                ids: ids@.skip(from as int),
            },
        ),
        final(st).fresh <= old(st).fresh + 1,
        final(st).merged <= old(st).merged + 1,
        final(st).skipped <= old(st).skipped + 1,
        final(catalog).playlists_gen == old(catalog).playlists_gen,
        final(catalog).removed_gen == old(catalog).removed_gen,
{
    if !st.ok {
        return;
    }
    let specs = specs_of_entry(e, base, recognized);
    assert(spec_views(specs@).len() == specs@.len());
    if specs.len() == 0 {
        st.skipped = st.skipped + 1;
        return;
    }
    let before = catalog.store.track_ids();
    let found = ingest_row(&specs, e, now, ids, from, catalog, bus);
    let c = found[0];
    let known: bool = has_item(&before, c);
    match catalog.store.get_track(c) {
        None => {
            st.ok = false;
        },
        Some(t) => {
            let mut t = t;
            let tempo = match &e.meta.bpm {
                Some(b) => match tempos.get(b) {
                    Some(v) => Some(v.clone()),
                    None => None,
                },
                None => None,
            };
            soften(&mut t, &e.meta, &tempo);
            catalog.store.upsert_track(&t);
            bus.send(CoreEvent::TrackUpdated(c));
            if known {
                st.merged = st.merged + 1;
            } else {
                st.fresh = st.fresh + 1;
            }
            if !has_item(&st.items, c) {
                st.items.push(c);
            }
        },
    }
}

/// Whether a name says anything.
pub open spec fn playlist_name(given: Seq<char>, stem: Option<Seq<char>>) -> Seq<char> {
    if trim_of(given).len() > 0 {
        given
    } else {
        match stem {
            Some(s) => s,
            None => "playlist"@,
        }
    }
}

fn name_of(given: &str, stem: &Option<String>) -> (r: String)
    ensures
        r@ == playlist_name(given@, opt_text(*stem)),
{
    if trim(&chars_of(given)).len() > 0 {
        given.to_owned()
    } else {
        match stem {
            Some(s) => s.clone(),
            None => "playlist".to_owned(),
        }
    }
}

/// What is said of an import.
pub open spec fn imported_text(name: Seq<char>, v: ImportView) -> Seq<char> {
    "imported \""@ + name + "\": "@ + decimal(v.items.len()) + " tracks ("@ + decimal(v.fresh) + " new, "@ + decimal(
        v.merged,
    ) + " merged, "@ + decimal(v.skipped) + " skipped)"@
}

fn import_message(name: &str, st: &Importing, catalog: &Catalog, bus: &Bus) -> (r: String)
    ensures
        r@ == imported_text(name@, importing(*st, *catalog, *bus)),
{
    let mut v: Vec<char> = Vec::new();
    append_str(&mut v, "imported \"");
    append_str(&mut v, name);
    append_str(&mut v, "\": ");
    append_decimal(&mut v, st.items.len() as u64);
    append_str(&mut v, " tracks (");
    append_decimal(&mut v, st.fresh);
    append_str(&mut v, " new, ");
    append_decimal(&mut v, st.merged);
    append_str(&mut v, " merged, ");
    append_decimal(&mut v, st.skipped);
    append_str(&mut v, " skipped)");
    assert(v@ =~= imported_text(name@, importing(*st, *catalog, *bus)));
    string_of(&v)
}

proof fn lemma_ids_needed(v: Seq<M3uEntry>, n: int)
    requires
        0 <= n <= v.len(),
    ensures
        ids_needed(v, n) <= ids_needed(v, v.len() as int),
    decreases v.len() - n,
{
    if n < v.len() {
        lemma_ids_needed(v, n + 1);
    }
}

/// How many identifiers an import may need, no more than `usize::MAX`.
pub fn import_ids(doc: &M3uDoc) -> (r: usize)
    ensures
        ids_needed(doc.entries@, doc.entries@.len() as int) <= usize::MAX ==> r == ids_needed(
            doc.entries@,
            doc.entries@.len() as int,
        ),
{
    let mut n: usize = 0;
    let mut i: usize = 0;
    let total: usize = doc.entries.len();
    let ghost v = doc.entries@;
    while i < total
        invariant
            i <= total == v.len(),
            v == doc.entries@,
            ids_needed(v, total as int) <= usize::MAX ==> n == ids_needed(v, i as int),
        decreases total - i,
    {
        proof {
            lemma_ids_needed(v, i + 1);
        }
        n = n.wrapping_add(doc.entries[i].renditions.len()).wrapping_add(1);
        i = i + 1;
    }
    n
}

/// What an import comes to: the library, the events, and what is said of it.
pub struct ImportDone {
    pub s: StoreView,
    pub ev: Seq<CoreEvent>,
    pub message: Option<Seq<char>>,
}

pub open spec fn import_of(s: StoreView, ev: Seq<CoreEvent>, doc: M3uDoc, stem: Option<Seq<char>>, f: ImportFacts, fresh: PlaylistId) -> ImportDone {
    let v = imported(import_start(s, ev), doc.entries@, doc.entries@.len() as int, f);
    let name = playlist_name(doc@.playlist.name, stem);
    let pid = match doc@.playlist.id {
        Some(id) => PlaylistId(id),
        None => fresh,
    };
    if v.ok {
        ImportDone {
            s: StoreView {
                playlists: v.s.playlists.insert(
                    pid.0,
                    PlaylistView { id: pid, name, notes: doc@.playlist.notes, items: v.items },
                ),
                ..v.s
            },
            ev: v.ev.push(CoreEvent::PlaylistsChanged),
            message: Some(imported_text(name, v)),
        }
    } else {
        ImportDone { s: v.s, ev: v.ev, message: None }
    }
}

/// Folds the tracks and the playlist of a file into the library, and says so. `base` is the
/// directory that relative paths start at, `stem` the file's own name, `recognized` the source
/// that knows the line of each entry, `tempos` how tempos are shown. The identifiers are for what
/// is new.
pub fn import_doc(
    doc: &M3uDoc,
    base: &str,
    stem: &Option<String>,
    recognized: &Vec<Option<String>>,
    tempos: &StrMap<String>,
    now: Moment,
    ids: &Vec<TrackId>,
    fresh: PlaylistId,
    catalog: &mut Catalog,
    bus: &mut Bus,
) -> (r: Result<String, Error>)
    requires
        recognized@.len() == doc.entries@.len(),
        ids_needed(doc.entries@, doc.entries@.len() as int) <= ids@.len(),
    ensures
        ({
            let f = ImportFacts { base: base@, recognized: recognized@, tempos: tempos@, now, ids: ids@ };
            let done = import_of(old(catalog).store@, old(bus)@, *doc, opt_text(*stem), f, fresh);
            &&& final(catalog).store@ == done.s
            &&& final(bus)@ == done.ev
            &&& final(catalog).playlists_generation() == (if done.message is Some {
                bumped(old(catalog).playlists_generation())
            } else {
                old(catalog).playlists_generation()
            })
            &&& match r {
                Ok(m) => done.message == Some(m@),
                Err(e) => done.message is None && e is NotFound,
            }
        }),
        r is Ok,
        final(catalog).removed_generation() == old(catalog).removed_generation(),
{
    let ghost f = ImportFacts { base: base@, recognized: recognized@, tempos: tempos@, now, ids: ids@ };
    let ghost start = import_start(catalog.store@, bus@);
    let ghost v = doc.entries@;
    proof {
        use_type_invariant(&catalog.store);
        catalog.store.is_sound();
        imports_succeed(start, v, v.len() as int, f);
    }
    let name = name_of(&doc.playlist.name, stem);
    let mut st = Importing { items: Vec::new(), fresh: 0, merged: 0, skipped: 0, ok: true };
    let n: usize = doc.entries.len();
    let total: usize = ids.len();
    let mut from: usize = 0;
    let mut i: usize = 0;
    assert(importing(st, *catalog, *bus) == start) by {
        assert(st.items@ =~= seq![]);
    }
    while i < n
        invariant
            i <= n == v.len(),
            n == recognized@.len(),
            total == ids@.len(),
            v == doc.entries@,
            f == (ImportFacts { base: base@, recognized: recognized@, tempos: tempos@, now, ids: ids@ }),
            ids_needed(v, n as int) <= total,
            from == ids_needed(v, i as int),
            st.fresh <= i,
            st.merged <= i,
            st.skipped <= i,
            importing(st, *catalog, *bus) == imported(start, v, i as int, f),
            catalog.playlists_gen == old(catalog).playlists_gen,
            catalog.removed_gen == old(catalog).removed_gen,
        decreases n - i,
    {
        proof {
            lemma_ids_needed(v, i + 1);
        }
        let k: usize = doc.entries[i].renditions.len();
        assert(facts_at(f, v, i as int) == (EntryFacts {
            base: base@,
            recognized: opt_text(recognized@[i as int]),
            tempos: tempos@,
            now,
            ids: ids@.skip(from as int),
        }));
        take_entry(&mut st, &doc.entries[i], base, &recognized[i], tempos, now, ids, from, catalog, bus);
        from = from + k + 1;
        i = i + 1;
    }
    if !st.ok {
        return Err(Error::NotFound);
    }
    let message = import_message(&name, &st, catalog, bus);
    let id = match doc.playlist.id {
        Some(id) => PlaylistId(id),
        None => fresh,
    };
    let p = Playlist { id, name, notes: doc.playlist.notes.clone(), items: st.items };
    catalog.save_playlist(&p);
    bus.send(CoreEvent::PlaylistsChanged);
    Ok(message)
}

pub(crate) proof fn lemma_ingested_all(s: StoreView, hits: Seq<TrackView>, ids: Seq<TrackId>)
    requires
        store_sound(s),
        hits.len() == ids.len(),
        forall|i: int| 0 <= i < hits.len() ==> (#[trigger] hits[i]).renditions.len() == 1,
    ensures
        ({
            let (u, found, _) = ingested_all(s, hits, ids);
            &&& store_sound(u)
            &&& found.len() == hits.len()
            &&& forall|i: int| 0 <= i < found.len() ==> u.tracks.dom().contains((#[trigger] found[i]).0)
            &&& forall|k: u128| #[trigger] s.tracks.dom().contains(k) ==> u.tracks.dom().contains(k)
        }),
    decreases hits.len(),
{
    if hits.len() > 0 {
        let h = hits.drop_last();
        assert forall|i: int| 0 <= i < h.len() implies (#[trigger] h[i]).renditions.len() == 1 by {
            assert(h[i] == hits[i]);
        }
        lemma_ingested_all(s, h, ids.drop_last());
        let (s1, v, _) = ingested_all(s, h, ids.drop_last());
        folded_hits_stay(s1, hits.last(), ids.last());
        let (u, found, _) = ingested_all(s, hits, ids);
        assert forall|i: int| 0 <= i < found.len() implies u.tracks.dom().contains((#[trigger] found[i]).0) by {
            if i < v.len() {
                assert(found[i] == v[i]);
                assert(s1.tracks.dom().contains(v[i].0));
            }
        }
    }
}

/// How many identifiers an entry needs is enough for its renditions.
proof fn lemma_specs_len(e: EntryView, base: Seq<char>, recognized: Option<Seq<char>>)
    ensures
        entry_specs(e, base, recognized).len() <= e.renditions.len() + 1,
{
}

proof fn lemma_entry(v: ImportView, e: M3uEntry, f: EntryFacts)
    requires
        v.ok,
        store_sound(v.s),
        entry_specs(e@, f.base, f.recognized).len() <= f.ids.len(),
        forall|i: int| 0 <= i < v.items.len() ==> v.s.tracks.dom().contains((#[trigger] v.items[i]).0),
    ensures
        ({
            let r = import_entry(v, e, f);
            &&& r.ok
            &&& store_sound(r.s)
            &&& forall|i: int| 0 <= i < r.items.len() ==> r.s.tracks.dom().contains((#[trigger] r.items[i]).0)
        }),
{
    let specs = entry_specs(e@, f.base, f.recognized);
    if specs.len() > 0 {
        let ids = f.ids.take(specs.len() as int);
        let hits = entry_hits(specs, e@, f.now, ids);
        lemma_ingested_all(v.s, hits, ids);
        let (s1, found, _) = ingested_all(v.s, hits, ids);
        let c = found[0];
        assert(s1.tracks.dom().contains(c.0));
        let t = with_soft_meta(s1.tracks[c.0], e.meta, shown_tempo(f.tempos, e.meta));
        upsert_keeps_indices_sound(s1, t);
        let r = import_entry(v, e, f);
        assert forall|i: int| 0 <= i < r.items.len() implies r.s.tracks.dom().contains((#[trigger] r.items[i]).0) by {
            if i < v.items.len() {
                assert(r.items[i] == v.items[i]);
                assert(v.s.tracks.dom().contains(v.items[i].0));
            }
        }
    }
}

/// An import always comes to its end: every track that was folded in is there, in a sound
/// library, and so is every track of the playlist.
pub proof fn imports_succeed(start: ImportView, v: Seq<M3uEntry>, n: int, f: ImportFacts)
    requires
        0 <= n <= v.len(),
        start.ok,
        store_sound(start.s),
        ids_needed(v, v.len() as int) <= f.ids.len(),
        forall|i: int| 0 <= i < start.items.len() ==> start.s.tracks.dom().contains((#[trigger] start.items[i]).0),
    ensures
        ({
            let r = imported(start, v, n, f);
            &&& r.ok
            &&& store_sound(r.s)
            &&& forall|i: int| 0 <= i < r.items.len() ==> r.s.tracks.dom().contains((#[trigger] r.items[i]).0)
        }),
    decreases n,
{
    if n > 0 {
        imports_succeed(start, v, n - 1, f);
        lemma_ids_needed(v, n);
        let e = facts_at(f, v, n - 1);
        lemma_specs_len(v[n - 1]@, e.base, e.recognized);
        lemma_entry(imported(start, v, n - 1, f), v[n - 1], e);
    }
}

/// Every entry of a file is new, merged or skipped, and the playlist holds no track twice.
pub proof fn every_entry_is_counted(start: ImportView, v: Seq<M3uEntry>, n: int, f: ImportFacts)
    requires
        0 <= n <= v.len(),
        start.items.no_duplicates(),
    ensures
        ({
            let r = imported(start, v, n, f);
            &&& r.items.no_duplicates()
            &&& r.ok ==> r.fresh + r.merged + r.skipped == start.fresh + start.merged + start.skipped + n
            &&& r.ok ==> start.ok
        }),
    decreases n,
{
    if n > 0 {
        every_entry_is_counted(start, v, n - 1, f);
    }
}

} // verus!
