//! What of a playlist survives its way into a file and back.

use vstd::prelude::*;
use crate::add_files::{file_hit, with_file, AddView};
use crate::audio::{audio_extension, extension};
use crate::catalog::{first_match, folded_hits_stay, ingested, isrc_track, with_hit};
use crate::env::{cached_file, presence, EnvView};
use crate::exchange::{entry_of, exported, spec_of, synthesised, SpecView};
use crate::import::{
    entry_hit, entry_hits, entry_ms, entry_specs, facts_at, import_entry, import_of, import_start, imported,
    ingested_all, with_soft_meta, EntryFacts, ImportFacts, ImportView,
};
use crate::match_laws::{hits_join_only_their_own_track, lemma_first_match, lemma_titled};
use crate::matcher::{match_reason, norm_of};
use crate::moment::Moment;
use crate::playback::export_uri;
use crate::playlist_m3u::{M3uDoc, M3uEntry};
use crate::resolver::{resolved, track_at, TargetView};
use crate::store::{by_rendition_of, has_rendition_key, rendition_key_of, store_sound, titled, upserted, StoreView};
use crate::text::{first_of, str_views, stripped, trim_of};
use crate::types::{track_name, PlaylistId, RenditionView, TrackId, TrackView};

verus! {

/// Every track that is not in `base` has the length `ms`.
pub open spec fn new_ones_last(s: StoreView, base: StoreView, ms: u32) -> bool {
    forall|k: u128| #[trigger] s.tracks.dom().contains(k) && !base.tracks.dom().contains(k) ==> s.tracks[k].duration_ms == ms
}

proof fn lemma_ingest_length(s: StoreView, base: StoreView, hit: TrackView, id: TrackId, ms: u32)
    requires
        store_sound(s),
        hit.renditions.len() == 1,
        hit.duration_ms == ms,
        new_ones_last(s, base, ms),
    ensures
        new_ones_last(ingested(s, hit, id).0, base, ms),
{
    let r = hit.renditions[0];
    if by_rendition_of(s, r.source, r.uri) is None && isrc_track(s, hit) is None {
        let n = s.by_title.len() as int;
        let cands = titled(s, norm_of(hit.title), n);
        lemma_first_match(cands, hit, 0);
        if let Some(i) = first_match(cands, hit, 0) {
            lemma_titled(s, norm_of(hit.title), n, i);
        }
    }
}

proof fn lemma_ingest_lengths(s: StoreView, base: StoreView, hits: Seq<TrackView>, ids: Seq<TrackId>, ms: u32)
    requires
        store_sound(s),
        hits.len() == ids.len(),
        forall|i: int| 0 <= i < hits.len() ==> (#[trigger] hits[i]).renditions.len() == 1 && hits[i].duration_ms == ms,
        new_ones_last(s, base, ms),
    ensures
        store_sound(ingested_all(s, hits, ids).0),
        new_ones_last(ingested_all(s, hits, ids).0, base, ms),
    decreases hits.len(),
{
    if hits.len() > 0 {
        let h = hits.drop_last();
        assert forall|i: int| 0 <= i < h.len() implies (#[trigger] h[i]).renditions.len() == 1 && h[i].duration_ms == ms by {
            assert(h[i] == hits[i]);
        }
        lemma_ingest_lengths(s, base, h, ids.drop_last(), ms);
        let s1 = ingested_all(s, h, ids.drop_last()).0;
        assert(hits.last() == hits[hits.len() - 1]);
        folded_hits_stay(s1, hits.last(), ids.last());
        lemma_ingest_length(s1, base, hits.last(), ids.last(), ms);
    }
}

/// A track that an entry of a file brings into the library is as long as the entry says, in
/// milliseconds what the file gives in seconds.
pub proof fn imported_tracks_keep_their_length(v: ImportView, e: M3uEntry, f: EntryFacts, secs: i64, k: u128)
    requires
        v.ok,
        store_sound(v.s),
        entry_specs(e@, f.base, f.recognized).len() <= f.ids.len(),
        e@.extinf matches Some(x) && x.0 == secs,
        0 <= secs <= 4294967,
        import_entry(v, e, f).s.tracks.dom().contains(k),
        !v.s.tracks.dom().contains(k),
    ensures
        import_entry(v, e, f).s.tracks[k].duration_ms == secs * 1000,
{
    let specs = entry_specs(e@, f.base, f.recognized);
    let ms = (secs * 1000) as u32;
    if specs.len() > 0 {
        let ids = f.ids.take(specs.len() as int);
        let hits = entry_hits(specs, e@, f.now, ids);
        assert(secs as int % 0x1_0000_0000 == secs);
        assert forall|i: int| 0 <= i < hits.len() implies (#[trigger] hits[i]).renditions.len() == 1 && hits[i].duration_ms
            == ms by {
            assert(hits[i] == entry_hit(specs[i], e@, f.now, ids[i]));
        }
        lemma_ingest_lengths(v.s, v.s, hits, ids, ms);
    }
}

/// An entry gives the length of a track to the nearest second.
pub proof fn exported_lengths_are_near(t: TrackView, primary: Seq<char>, tempo: Option<Seq<char>>)
    requires
        t.duration_ms > 0,
    ensures
        entry_of(t, primary, tempo).extinf matches Some(x) && t.duration_ms - 500 <= x.0 * 1000 <= t.duration_ms + 500
            && x.1 == track_name(t),
{
}

/// A track of whole seconds that is exported, and imported from that file into an empty library,
/// is as long there as it was.
pub proof fn lengths_come_back(t: TrackView, primary: Seq<char>, tempo: Option<Seq<char>>, v: ImportView, e: M3uEntry, f: EntryFacts, k: u128)
    requires
        t.duration_ms > 0,
        t.duration_ms % 1000 == 0,
        e@ == entry_of(t, primary, tempo),
        v.ok,
        store_sound(v.s),
        v.s.tracks.dom() == Set::<u128>::empty(),
        entry_specs(e@, f.base, f.recognized).len() <= f.ids.len(),
        import_entry(v, e, f).s.tracks.dom().contains(k),
    ensures
        import_entry(v, e, f).s.tracks[k].duration_ms == t.duration_ms,
{
    exported_lengths_are_near(t, primary, tempo);
    let secs = (e@.extinf->0).0;
    imported_tracks_keep_their_length(v, e, f, secs, k);
}

/// The exported entry holds everything that is known of the track, and all of its renditions in
/// their order.
pub proof fn entries_hold_the_track(t: TrackView, primary: Seq<char>, tempo: Option<Seq<char>>, i: int)
    requires
        0 <= i < t.renditions.len(),
    ensures
        ({
            let x = entry_of(t, primary, tempo);
            &&& x.track_id == Some(t.id.0)
            &&& x.primary_uri == primary
            &&& x.meta.isrc == t.isrc && x.meta.album == t.album && x.meta.year == t.year && x.meta.tags == t.tags
            &&& x.meta.bpm == tempo
            &&& t.attrs.dom().contains("key"@) ==> x.meta.key == Some(t.attrs["key"@]@)
            &&& !t.attrs.dom().contains("key"@) ==> x.meta.key is None
            &&& x.renditions.len() == t.renditions.len()
            &&& x.renditions[i].source == t.renditions[i].source
            &&& x.renditions[i].uri == t.renditions[i].uri
            &&& x.renditions[i].quality == t.renditions[i].quality
            &&& x.renditions[i].added_at == t.renditions[i].added_at
        }),
{
}

/// What an entry without a length of its own says: a track whose length is not known has the one
/// of its first rendition that has one, and else none.
pub proof fn unknown_lengths_are_minus_one(t: TrackView, primary: Seq<char>, tempo: Option<Seq<char>>)
    requires
        t.duration_ms == 0,
        forall|i: int| 0 <= i < t.renditions.len() ==> (#[trigger] t.renditions[i]).duration_ms == 0,
    ensures
        entry_of(t, primary, tempo).extinf matches Some(x) && x.0 == -1,
        entry_ms(entry_of(t, primary, tempo)) == 0,
{
    lemma_no_length(t.renditions, 0);
}

proof fn lemma_no_length(v: Seq<RenditionView>, i: int)
    requires
        0 <= i,
        forall|j: int| 0 <= j < v.len() ==> (#[trigger] v[j]).duration_ms == 0,
    ensures
        crate::exchange::first_length(v, i) is None,
    decreases v.len() - i,
{
    if i < v.len() {
        lemma_no_length(v, i + 1);
    }
}

/// What is filed under an address stays so while a hit is folded in under a new identifier.
proof fn lemma_key_stays(s: StoreView, hit: TrackView, id: TrackId, k: Seq<char>)
    requires
        store_sound(s),
        hit.renditions.len() == 1,
        !s.tracks.dom().contains(id.0),
        s.by_rendition.dom().contains(k),
    ensures
        ingested(s, hit, id).0.by_rendition.dom().contains(k),
{
    let r = hit.renditions[0];
    if by_rendition_of(s, r.source, r.uri) is None {
        match isrc_track(s, hit) {
            Some(x) => {
                lemma_upsert_key(s, x, with_hit(x, hit, crate::types::LinkReason::Isrc), k);
            },
            None => {
                let n = s.by_title.len() as int;
                let cands = titled(s, norm_of(hit.title), n);
                lemma_first_match(cands, hit, 0);
                match first_match(cands, hit, 0) {
                    Some(i) => {
                        lemma_titled(s, norm_of(hit.title), n, i);
                        let x = cands[i];
                        lemma_upsert_key(s, x, with_hit(x, hit, match_reason(x, hit)->0), k);
                    },
                    None => {
                        let t = crate::catalog::track_from_hit(id, hit);
                        crate::store::lemma_with_renditions(
                            crate::strmap::without_value(s.by_rendition, id),
                            t.renditions,
                            id,
                        );
                    },
                }
            },
        }
    }
}

/// A track that is written again with all of its renditions is still filed under them.
proof fn lemma_upsert_key(s: StoreView, x: TrackView, t: TrackView, k: Seq<char>)
    requires
        store_sound(s),
        s.tracks.dom().contains(x.id.0),
        s.tracks[x.id.0] == x,
        t.id == x.id,
        x.renditions.len() <= t.renditions.len(),
        forall|i: int| 0 <= i < x.renditions.len() ==> t.renditions[i] == #[trigger] x.renditions[i],
        s.by_rendition.dom().contains(k),
    ensures
        upserted(s, t).by_rendition.dom().contains(k),
{
    crate::store::lemma_with_renditions(crate::strmap::without_value(s.by_rendition, t.id), t.renditions, t.id);
    if s.by_rendition[k] == t.id {
        assert(has_rendition_key(x.renditions, k));
        let i = choose|i: int|
            0 <= i < x.renditions.len() && #[trigger] rendition_key_of(x.renditions[i].source, x.renditions[i].uri) == k;
        assert(t.renditions[i] == x.renditions[i]);
        assert(rendition_key_of(t.renditions[i].source, t.renditions[i].uri) == k);
        assert(has_rendition_key(t.renditions, k));
    }
}

/// Identifiers that no track of the library has, each once.
pub open spec fn unused(s: StoreView, ids: Seq<TrackId>) -> bool {
    &&& forall|i: int| 0 <= i < ids.len() ==> !s.tracks.dom().contains((#[trigger] ids[i]).0)
    &&& ids.no_duplicates()
}

proof fn lemma_all_filed(s: StoreView, hits: Seq<TrackView>, ids: Seq<TrackId>)
    requires
        store_sound(s),
        hits.len() == ids.len(),
        unused(s, ids),
        forall|i: int| 0 <= i < hits.len() ==> (#[trigger] hits[i]).renditions.len() == 1,
    ensures
        ({
            let u = ingested_all(s, hits, ids).0;
            &&& store_sound(u)
            &&& forall|k: u128| #[trigger] u.tracks.dom().contains(k) ==> s.tracks.dom().contains(k) || ids.contains(TrackId(k))
            &&& forall|i: int|
                0 <= i < hits.len() ==> u.by_rendition.dom().contains(
                    rendition_key_of((#[trigger] hits[i]).renditions[0].source, hits[i].renditions[0].uri),
                )
        }),
    decreases hits.len(),
{
    if hits.len() > 0 {
        let h = hits.drop_last();
        let d = ids.drop_last();
        assert forall|i: int| 0 <= i < h.len() implies (#[trigger] h[i]).renditions.len() == 1 by {
            assert(h[i] == hits[i]);
        }
        assert(unused(s, d)) by {
            assert forall|i: int| 0 <= i < d.len() implies !s.tracks.dom().contains((#[trigger] d[i]).0) by {
                assert(d[i] == ids[i]);
            }
        }
        lemma_all_filed(s, h, d);
        let s1 = ingested_all(s, h, d).0;
        let hit = hits.last();
        let id = ids.last();
        assert(hit == hits[hits.len() - 1]);
        assert(id == ids[ids.len() - 1]);
        assert(!s1.tracks.dom().contains(id.0)) by {
            if s1.tracks.dom().contains(id.0) {
                assert(d.contains(TrackId(id.0)));
                let j = choose|j: int| 0 <= j < d.len() && d[j] == id;
                assert(ids[j] == id);
            }
        }
        folded_hits_stay(s1, hit, id);
        let u = ingested(s1, hit, id).0;
        crate::catalog::ingest_is_idempotent(s1, hit, id, id);
        hits_join_only_their_own_track(s1, hit, id);
        assert forall|k: u128| #[trigger] u.tracks.dom().contains(k) implies s.tracks.dom().contains(k) || ids.contains(
            TrackId(k),
        ) by {
            if s1.tracks.dom().contains(k) && d.contains(TrackId(k)) {
                let j = choose|j: int| 0 <= j < d.len() && d[j] == TrackId(k);
                assert(ids[j] == TrackId(k));
            }
            if !s1.tracks.dom().contains(k) {
                lemma_new_is_id(s1, hit, id, k);
                assert(ids[ids.len() - 1] == TrackId(k));
            }
        }
        assert forall|i: int| 0 <= i < hits.len() implies u.by_rendition.dom().contains(
            rendition_key_of((#[trigger] hits[i]).renditions[0].source, hits[i].renditions[0].uri),
        ) by {
            if i < h.len() {
                assert(h[i] == hits[i]);
                lemma_key_stays(s1, hit, id, rendition_key_of(hits[i].renditions[0].source, hits[i].renditions[0].uri));
            }
        }
    }
}

proof fn lemma_new_is_id(s: StoreView, hit: TrackView, id: TrackId, k: u128)
    requires
        store_sound(s),
        hit.renditions.len() == 1,
        ingested(s, hit, id).0.tracks.dom().contains(k),
        !s.tracks.dom().contains(k),
    ensures
        k == id.0,
{
    let r = hit.renditions[0];
    if by_rendition_of(s, r.source, r.uri) is None && isrc_track(s, hit) is None {
        let n = s.by_title.len() as int;
        let cands = titled(s, norm_of(hit.title), n);
        lemma_first_match(cands, hit, 0);
        if let Some(i) = first_match(cands, hit, 0) {
            lemma_titled(s, norm_of(hit.title), n, i);
        }
    }
}

/// Every rendition that an entry names can be played from the library once the entry is imported,
/// and the line that any player plays too.
pub proof fn imported_renditions_are_found(v: ImportView, e: M3uEntry, f: EntryFacts)
    requires
        v.ok,
        store_sound(v.s),
        entry_specs(e@, f.base, f.recognized).len() <= f.ids.len(),
        unused(v.s, f.ids),
    ensures
        ({
            let u = import_entry(v, e, f).s;
            &&& forall|i: int|
                0 <= i < e@.renditions.len() && (#[trigger] e@.renditions[i]).source != "local"@ ==> u.by_rendition.dom().contains(
                    rendition_key_of(e@.renditions[i].source, e@.renditions[i].uri),
                )
            &&& f.recognized matches Some(source) ==> e@.primary_uri.len() > 0 && e@.renditions.len() == 0
                ==> u.by_rendition.dom().contains(rendition_key_of(source, e@.primary_uri))
        }),
{
    let specs = entry_specs(e@, f.base, f.recognized);
    if specs.len() > 0 {
        let ids = f.ids.take(specs.len() as int);
        let hits = entry_hits(specs, e@, f.now, ids);
        assert(unused(v.s, ids)) by {
            assert forall|i: int| 0 <= i < ids.len() implies !v.s.tracks.dom().contains((#[trigger] ids[i]).0) by {
                assert(ids[i] == f.ids[i]);
            }
        }
        lemma_all_filed(v.s, hits, ids);
        let (s1, found, _) = ingested_all(v.s, hits, ids);
        let c = found[0];
        lemma_found(v.s, hits, ids);
        let x = s1.tracks[c.0];
        let t = with_soft_meta(x, e.meta, crate::import::shown_tempo(f.tempos, e.meta));
        let u = import_entry(v, e, f).s;
        assert(u == upserted(s1, t));
        assert forall|i: int| 0 <= i < specs.len() implies u.by_rendition.dom().contains(
            rendition_key_of((#[trigger] specs[i]).source, specs[i].uri),
        ) by {
            assert(hits[i].renditions[0].source == specs[i].source);
            lemma_upsert_key(s1, x, t, rendition_key_of(specs[i].source, specs[i].uri));
        }
        assert forall|i: int|
            0 <= i < e@.renditions.len() && (#[trigger] e@.renditions[i]).source != "local"@ implies u.by_rendition.dom().contains(
            rendition_key_of(e@.renditions[i].source, e@.renditions[i].uri),
        ) by {
            assert(specs[i] == spec_of(e@.renditions[i]));
        }
        if f.recognized is Some && e@.primary_uri.len() > 0 && e@.renditions.len() == 0 {
            let n = specs.len() - 1;
            assert(specs[n].uri == e@.primary_uri && specs[n].source == f.recognized->0);
        }
    }
}

proof fn lemma_found(s: StoreView, hits: Seq<TrackView>, ids: Seq<TrackId>)
    requires
        store_sound(s),
        hits.len() == ids.len(),
        hits.len() > 0,
        forall|i: int| 0 <= i < hits.len() ==> (#[trigger] hits[i]).renditions.len() == 1,
    ensures
        ({
            let (u, found, _) = ingested_all(s, hits, ids);
            &&& found.len() == hits.len()
            &&& u.tracks.dom().contains(found[0].0)
            &&& u.tracks[found[0].0].id == found[0]
        }),
{
    crate::import::lemma_ingested_all(s, hits, ids);
    let (u, found, _) = ingested_all(s, hits, ids);
    assert(u.tracks.dom().contains(found[0].0));
}

/// An import goes through the entries in their order: each that can be played adds its track
/// behind the others, unless the playlist has it, and one that cannot is skipped.
pub proof fn entries_become_rows(v: ImportView, e: M3uEntry, f: EntryFacts)
    requires
        v.ok,
        store_sound(v.s),
        entry_specs(e@, f.base, f.recognized).len() <= f.ids.len(),
    ensures
        ({
            let r = import_entry(v, e, f);
            let playable = e@.primary_uri.len() > 0 || e@.renditions.len() > 0;
            &&& !playable ==> r.items == v.items && r.s == v.s && r.skipped == v.skipped + 1
            &&& playable ==> r.skipped == v.skipped && r.items.len() > 0
            &&& v.items.len() <= r.items.len() <= v.items.len() + 1
            &&& r.items.take(v.items.len() as int) == v.items
            &&& r.items.len() > v.items.len() ==> !v.items.contains(r.items.last()) && r.s.tracks.dom().contains(
                r.items.last().0,
            )
            &&& r.s.playlists == v.s.playlists
        }),
{
    let r = import_entry(v, e, f);
    let specs = entry_specs(e@, f.base, f.recognized);
    assert(r.items.take(v.items.len() as int) =~= v.items);
    if specs.len() > 0 {
        let ids = f.ids.take(specs.len() as int);
        let hits = entry_hits(specs, e@, f.now, ids);
        lemma_found(v.s, hits, ids);
        lemma_playlists_stay(v.s, hits, ids);
        let c = ingested_all(v.s, hits, ids).1[0];
        if v.items.contains(c) {
            assert(v.items.len() > 0);
        }
    }
}

proof fn lemma_playlists_stay(s: StoreView, hits: Seq<TrackView>, ids: Seq<TrackId>)
    ensures
        ingested_all(s, hits, ids).0.playlists == s.playlists,
    decreases hits.len(),
{
    if hits.len() > 0 {
        lemma_playlists_stay(s, hits.drop_last(), ids.drop_last());
    }
}

/// The playlist of a file is in the library under the name that the file gives, or, where that is
/// blank, under the name of the file itself; no other playlist changes.
pub proof fn imported_playlists_are_named(s: StoreView, ev: Seq<crate::event::CoreEvent>, doc: M3uDoc, stem: Seq<char>, f: ImportFacts, fresh: PlaylistId)
    requires
        imported(import_start(s, ev), doc.entries@, doc.entries@.len() as int, f).ok,
    ensures
        ({
            let done = import_of(s, ev, doc, Some(stem), f, fresh);
            let id = match doc@.playlist.id {
                Some(id) => id,
                None => fresh.0,
            };
            &&& done.message is Some
            &&& done.s.playlists.dom().contains(id)
            &&& done.s.playlists[id].id.0 == id
            &&& trim_of(doc@.playlist.name).len() > 0 ==> done.s.playlists[id].name == doc@.playlist.name
            &&& trim_of(doc@.playlist.name).len() == 0 ==> done.s.playlists[id].name == stem
            &&& done.s.playlists[id].notes == doc@.playlist.notes
            &&& done.s.playlists[id].items == imported(import_start(s, ev), doc.entries@, doc.entries@.len() as int, f).items
            &&& forall|k: u128| k != id && #[trigger] s.playlists.dom().contains(k) ==> done.s.playlists.dom().contains(k)
                && done.s.playlists[k] == s.playlists[k]
        }),
{
    lemma_import_playlists(import_start(s, ev), doc.entries@, doc.entries@.len() as int, f);
}

proof fn lemma_import_playlists(start: ImportView, v: Seq<M3uEntry>, n: int, f: ImportFacts)
    ensures
        imported(start, v, n, f).s.playlists == start.s.playlists,
    decreases n,
{
    if n > 0 && n <= v.len() {
        lemma_import_playlists(start, v, n - 1, f);
        let w = imported(start, v, n - 1, f);
        let x = facts_at(f, v, n - 1);
        let specs = entry_specs(v[n - 1]@, x.base, x.recognized);
        let ids = x.ids.take(specs.len() as int);
        lemma_playlists_stay(w.s, entry_hits(specs, v[n - 1]@, x.now, ids), ids);
    }
}

/// A track that an entry brings in knows what the entry says of it; one that was there gets only
/// what it lacks, and every tag.
pub proof fn soft_facts_fill_gaps(t: TrackView, e: M3uEntry, tempo: Option<String>, tag: Seq<char>)
    ensures
        ({
            let r = with_soft_meta(t, e.meta, tempo);
            &&& r.id == t.id && r.title == t.title && r.artists == t.artists && r.duration_ms == t.duration_ms
            &&& r.renditions == t.renditions
            &&& t.isrc is None ==> r.isrc == e@.meta.isrc
            &&& t.isrc is Some ==> r.isrc == t.isrc
            &&& t.album is None ==> r.album == e@.meta.album
            &&& t.album is Some ==> r.album == t.album
            &&& t.year is None ==> r.year == e@.meta.year
            &&& t.year is Some ==> r.year == t.year
            &&& r.tags.contains(tag) <==> t.tags.contains(tag) || e@.meta.tags.contains(tag)
            &&& tempo matches Some(b) ==> !t.attrs.dom().contains("bpm"@) ==> r.attrs.dom().contains("bpm"@) && r.attrs["bpm"@]
                == b
            &&& t.attrs.dom().contains("bpm"@) ==> r.attrs["bpm"@] == t.attrs["bpm"@]
        }),
{
    lemma_tags(t.tags, str_views(e.meta.tags@), tag);
    reveal_strlit("bpm");
    reveal_strlit("key");
    assert("bpm"@[0] != "key"@[0]);
}

proof fn lemma_tags(v: Seq<Seq<char>>, more: Seq<Seq<char>>, tag: Seq<char>)
    ensures
        crate::import::with_tags(v, more).contains(tag) <==> v.contains(tag) || more.contains(tag),
    decreases more.len(),
{
    if more.len() > 0 {
        let head = more.drop_last();
        lemma_tags(v, head, tag);
        let w = crate::import::with_tags(v, head);
        let r = crate::import::with_tags(v, more);
        if more.contains(tag) {
            let i = choose|i: int| 0 <= i < more.len() && more[i] == tag;
            if i < head.len() {
                assert(head[i] == tag);
            }
        }
        if head.contains(tag) {
            let i = choose|i: int| 0 <= i < head.len() && head[i] == tag;
            assert(more[i] == tag);
        }
        if !w.contains(more.last()) {
            if w.contains(tag) {
                let i = choose|i: int| 0 <= i < w.len() && w[i] == tag;
                assert(r[i] == tag);
            }
            if r.contains(tag) {
                let i = choose|i: int| 0 <= i < r.len() && r[i] == tag;
                if i < w.len() {
                    assert(w[i] == tag);
                } else {
                    assert(more[more.len() - 1] == tag);
                }
            }
            assert(r[w.len() as int] == more.last());
        }
    }
}

/// A line that a source recognizes is a rendition of that source at just that address; another
/// line with a scheme that is not `file` is kept as it is, of no source that plays it.
pub proof fn lines_go_to_their_source(primary: Seq<char>, base: Seq<char>, source: Seq<char>)
    ensures
        synthesised(primary, base, Some(source)).source == source,
        synthesised(primary, base, Some(source)).uri == primary,
        first_of(primary, "://"@) is Some && stripped(primary, "file://"@) is None ==> synthesised(primary, base, None).source
            == "external"@ && synthesised(primary, base, None).uri == primary,
{
}

/// A line that names an audio file is a local rendition: of the path as it stands where that is
/// absolute or a `file://` URL, and else below the directory of the playlist.
pub proof fn audio_lines_are_local(primary: Seq<char>, base: Seq<char>)
    requires
        first_of(primary, "://"@) is None,
        stripped(primary, "file://"@) is None,
        primary.len() > 0,
        base.len() > 0 && base.last() != '/',
    ensures
        ({
            let path = if primary[0] == '/' {
                primary
            } else {
                base + "/"@ + primary
            };
            let x = synthesised(primary, base, None);
            let audio = extension(path) matches Some(k) && audio_extension(k);
            &&& audio ==> x.source == "local"@ && x.uri == path
            &&& !audio ==> x.source == "external"@ && x.uri == primary
        }),
{
    reveal_strlit("/");
    assert("/"@ =~= seq!['/']);
}

/// A playlist whose tracks are all there and can all be exported gives one entry for each, in its
/// order.
pub proof fn exports_keep_the_order(items: Seq<TrackId>, tracks: Seq<TrackView>, e: EnvView, tempos: Map<Seq<char>, String>)
    requires
        forall|i: int|
            0 <= i < items.len() ==> (track_at(tracks, #[trigger] items[i], 0) matches Some(k) && export_uri(e, tracks[k]) is Some),
    ensures
        ({
            let x = exported(items, tracks, e, tempos);
            &&& x.gaps.len() == 0
            &&& x.entries.len() == items.len()
            &&& forall|i: int| 0 <= i < items.len() ==> (#[trigger] x.entries[i]).track_id == Some(items[i].0)
        }),
    decreases items.len(),
{
    if items.len() > 0 {
        let h = items.drop_last();
        assert forall|i: int| 0 <= i < h.len() implies (track_at(tracks, #[trigger] h[i], 0) matches Some(k) && export_uri(e, tracks[k]) is Some) by {
            assert(h[i] == items[i]);
        }
        exports_keep_the_order(h, tracks, e, tempos);
        let x = exported(items, tracks, e, tempos);
        let y = exported(h, tracks, e, tempos);
        assert(items[items.len() - 1] == items.last());
        lemma_track_at(tracks, items.last(), 0);
        assert forall|i: int| 0 <= i < items.len() implies (#[trigger] x.entries[i]).track_id == Some(items[i].0) by {
            if i < h.len() {
                assert(x.entries[i] == y.entries[i]);
                assert(h[i] == items[i]);
            }
        }
    }
}

proof fn lemma_track_at(v: Seq<TrackView>, id: TrackId, i: int)
    ensures
        track_at(v, id, i) matches Some(k) ==> 0 <= k < v.len() && v[k].id == id,
    decreases v.len() - i,
{
    if 0 <= i < v.len() {
        lemma_track_at(v, id, i + 1);
    }
}

/// A file that is added is called as its name says, and can be played where it lies; its length
/// is not known yet.
pub proof fn added_files_are_playable(v: AddView, x: SpecView, files: Set<Seq<char>>, now: Moment, id: TrackId)
    requires
        x.source == "local"@,
        files.contains(x.uri),
    ensures
        ({
            let r = with_file(v, x, files, now, id);
            &&& by_rendition_of(r.s, "local"@, x.uri) is Some
            &&& v.items is None ==> r.queue.queue.len() == v.queue.queue.len() + 1 && r.added == v.added + 1
                && by_rendition_of(r.s, "local"@, x.uri)->0.id == r.queue.queue.last()
            &&& v.items matches Some(items) ==> r.items is Some && (r.items->0).contains(
                by_rendition_of(r.s, "local"@, x.uri)->0.id,
            )
        }),
{
    let hit = file_hit(x, now, id);
    crate::catalog::ingest_is_idempotent(v.s, hit, id, id);
    let t = ingested(v.s, hit, id).1;
    if let Some(items) = v.items {
        if !items.contains(t) {
            assert(items.push(t)[items.len() as int] == t);
        }
    }
}

/// What is no local audio file, or is not there, is skipped and changes nothing.
pub proof fn missing_files_are_skipped(v: AddView, x: SpecView, files: Set<Seq<char>>, now: Moment, id: TrackId)
    requires
        x.source != "local"@ || !files.contains(x.uri),
    ensures
        with_file(v, x, files, now, id).s == v.s,
        with_file(v, x, files, now, id).items == v.items,
        with_file(v, x, files, now, id).queue == v.queue,
        with_file(v, x, files, now, id).skipped == v.skipped + 1,
        with_file(v, x, files, now, id).added == v.added,
{
}

/// A file is added to a playlist once, behind what is there; each file counts either as added or
/// as skipped.
pub proof fn files_are_added_once(v: AddView, x: SpecView, files: Set<Seq<char>>, now: Moment, id: TrackId)
    requires
        v.items is Some,
        (v.items->0).no_duplicates(),
    ensures
        ({
            let r = with_file(v, x, files, now, id);
            let was = v.items->0;
            &&& r.items matches Some(items) && items.no_duplicates() && was.len() <= items.len() <= was.len() + 1 && items.take(
                was.len() as int,
            ) == was && items.len() - was.len() == r.added - v.added
            &&& r.added + r.skipped == v.added + v.skipped + 1
            &&& r.queue == v.queue
        }),
{
    let r = with_file(v, x, files, now, id);
    assert((r.items->0).take((v.items->0).len() as int) =~= v.items->0);
}

/// A track that cannot be had otherwise is exported as its file in the cache.
pub proof fn cached_files_are_exported(t: TrackView, e: EnvView, tempos: Map<Seq<char>, String>, path: Seq<char>)
    requires
        resolved(t, TargetView::ExportM3u, presence(e, t)) is Gap,
        cached_file(e, t.renditions, 0) == Some(path),
    ensures
        exported(seq![t.id], seq![t], e, tempos).entries.len() == 1,
        exported(seq![t.id], seq![t], e, tempos).gaps.len() == 0,
{
    reveal_with_fuel(exported, 2);
    assert(seq![t.id].drop_last() =~= Seq::empty());
    assert(track_at(seq![t], t.id, 0) == Some(0int));
}

} // verus!
