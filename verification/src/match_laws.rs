//! What makes two tracks one, and what keeps them apart.

use vstd::prelude::*;
use crate::catalog::{first_match, has_rendition, ingested, isrc_track, linked, merged_renditions, unlinked, with_hit};
use crate::matcher::{match_reason, norm_of};
use crate::store::{
    by_rendition_of, has_rendition_key, rendition_key_of, store_sound, titled, track_of, upserted, StoreView,
};
use crate::text::ascii_lower_of;
use crate::types::{LinkReason, RenditionView, TrackId, TrackView};

verus! {

/// Tracks of which not both have an ISRC match only by the same first artist, where both name
/// one.
pub proof fn matches_share_the_artist(a: TrackView, b: TrackView)
    requires
        a.isrc is None || b.isrc is None,
        match_reason(a, b) is Some,
        a.artists.len() > 0,
        b.artists.len() > 0,
    ensures
        norm_of(a.artists[0]) == norm_of(b.artists[0]),
{
}

/// Tracks of which not both have an ISRC match only by the same title, and only if their lengths,
/// where both are known, are at most three seconds apart.
pub proof fn matches_share_title_and_length(a: TrackView, b: TrackView)
    requires
        a.isrc is None || b.isrc is None,
        match_reason(a, b) is Some,
    ensures
        norm_of(a.title) == norm_of(b.title),
        a.duration_ms > 0 && b.duration_ms > 0 ==> a.duration_ms <= b.duration_ms + 3000 && b.duration_ms
            <= a.duration_ms + 3000,
        match_reason(a, b) == Some(LinkReason::Fuzzy),
{
}

/// Nothing else keeps two such tracks apart: neither a missing artist or length nor other artists
/// than the first, the album or where they can be played.
pub proof fn alike_tracks_match(a: TrackView, b: TrackView)
    requires
        a.isrc is None || b.isrc is None,
        norm_of(a.title) == norm_of(b.title),
        a.artists.len() > 0 && b.artists.len() > 0 ==> norm_of(a.artists[0]) == norm_of(b.artists[0]),
        a.duration_ms > 0 && b.duration_ms > 0 ==> a.duration_ms <= b.duration_ms + 3000 && b.duration_ms
            <= a.duration_ms + 3000,
    ensures
        match_reason(a, b) is Some,
{
}

/// Two ISRCs decide alone: the same one makes one recording of two tracks, whatever they are
/// called, and different ones keep them apart, however alike they are.
pub proof fn isrcs_decide(a: TrackView, b: TrackView)
    requires
        a.isrc is Some,
        b.isrc is Some,
    ensures
        a.isrc == b.isrc ==> match_reason(a, b) == Some(LinkReason::Isrc),
        ascii_lower_of(a.isrc->0) == ascii_lower_of(b.isrc->0) <==> match_reason(a, b) is Some,
        match_reason(a, b) != Some(LinkReason::Fuzzy),
{
}

pub(crate) proof fn lemma_first_match(v: Seq<TrackView>, hit: TrackView, i: int)
    ensures
        match first_match(v, hit, i) {
            Some(j) => i <= j < v.len() && match_reason(v[j], hit) is Some,
            None => forall|j: int| 0 <= i <= j < v.len() ==> match_reason(#[trigger] v[j], hit) is None,
        },
    decreases v.len() - i,
{
    if 0 <= i < v.len() {
        lemma_first_match(v, hit, i + 1);
    }
}

pub(crate) proof fn lemma_titled(s: StoreView, norm: Seq<char>, n: int, i: int)
    requires
        0 <= i < titled(s, norm, n).len(),
    ensures
        exists|k: u128| #[trigger] s.tracks.dom().contains(k) && s.tracks[k] == titled(s, norm, n)[i],
    decreases n,
{
    let head = titled(s, norm, n - 1);
    if i < head.len() {
        lemma_titled(s, norm, n - 1, i);
    } else {
        assert(s.tracks.dom().contains(s.by_title[n - 1].1.0));
    }
}

proof fn lemma_titled_holds(s: StoreView, norm: Seq<char>, n: int, i: int)
    requires
        0 <= i < n <= s.by_title.len(),
        s.by_title[i].0 == norm,
        s.tracks.dom().contains(s.by_title[i].1.0),
    ensures
        titled(s, norm, n).contains(s.tracks[s.by_title[i].1.0]),
    decreases n,
{
    let t = s.tracks[s.by_title[i].1.0];
    let v = titled(s, norm, n);
    if i < n - 1 {
        lemma_titled_holds(s, norm, n - 1, i);
        let head = titled(s, norm, n - 1);
        let k = choose|k: int| 0 <= k < head.len() && head[k] == t;
        assert(v[k] == t);
    } else {
        assert(v.last() == t);
    }
}

/// A hit is folded into a track of the library only if that track can be played at the address of
/// the hit, has its ISRC, or is the same recording; every other track stays as it is.
pub proof fn hits_join_only_their_own_track(s: StoreView, hit: TrackView, id: TrackId)
    requires
        store_sound(s),
        hit.renditions.len() == 1,
        !s.tracks.dom().contains(id.0),
    ensures
        ({
            let (u, t, written) = ingested(s, hit, id);
            let r = hit.renditions[0];
            &&& s.tracks.dom().contains(t.0) ==> {
                ||| has_rendition_key(s.tracks[t.0].renditions, rendition_key_of(r.source, r.uri))
                ||| hit.isrc is Some && s.tracks[t.0].isrc == hit.isrc
                ||| match_reason(s.tracks[t.0], hit) is Some
            }
            &&& forall|k: u128| k != t.0 && #[trigger] s.tracks.dom().contains(k) ==> u.tracks.dom().contains(k)
                && u.tracks[k] == s.tracks[k]
            &&& forall|k: u128| #[trigger] u.tracks.dom().contains(k) ==> k == t.0 || s.tracks.dom().contains(k)
            &&& u.playlists == s.playlists
        }),
{
    let r = hit.renditions[0];
    if by_rendition_of(s, r.source, r.uri) is None {
        if isrc_track(s, hit) is None {
            let n = s.by_title.len() as int;
            let cands = titled(s, norm_of(hit.title), n);
            lemma_first_match(cands, hit, 0);
            if let Some(i) = first_match(cands, hit, 0) {
                lemma_titled(s, norm_of(hit.title), n, i);
            }
        }
    }
}

/// A hit that belongs to no track of the library makes a new one: of its title, artists, length,
/// ISRC and album, and with its one rendition.
pub proof fn strangers_become_tracks(s: StoreView, hit: TrackView, id: TrackId)
    requires
        store_sound(s),
        hit.renditions.len() == 1,
        !s.by_rendition.dom().contains(rendition_key_of(hit.renditions[0].source, hit.renditions[0].uri)),
        hit.isrc matches Some(i) ==> !s.by_isrc.dom().contains(i),
        forall|k: u128| #[trigger] s.tracks.dom().contains(k) ==> match_reason(s.tracks[k], hit) is None,
    ensures
        ({
            let (u, t, written) = ingested(s, hit, id);
            let new = u.tracks[id.0];
            &&& t == id && written
            &&& u.tracks.dom().contains(id.0)
            &&& new.id == id && new.title == hit.title && new.artists == hit.artists
            &&& new.duration_ms == hit.duration_ms && new.isrc == hit.isrc && new.album == hit.album
            &&& new.renditions.len() == 1
            &&& new.renditions[0].source == hit.renditions[0].source
            &&& new.renditions[0].uri == hit.renditions[0].uri
            &&& new.renditions[0].quality == hit.renditions[0].quality
        }),
{
    let n = s.by_title.len() as int;
    let cands = titled(s, norm_of(hit.title), n);
    lemma_first_match(cands, hit, 0);
    if let Some(i) = first_match(cands, hit, 0) {
        lemma_titled(s, norm_of(hit.title), n, i);
    }
}

/// Whether every track is filed under its title.
pub open spec fn titles_filed(s: StoreView) -> bool {
    forall|k: u128| #[trigger] s.tracks.dom().contains(k) ==> exists|i: int|
        0 <= i < s.by_title.len() && #[trigger] s.by_title[i] == (norm_of(s.tracks[k].title), TrackId(k))
}

/// A hit that is the same recording as a track of the library makes no new track: it is one more
/// rendition of one that is there.
pub proof fn the_same_recording_is_one_track(s: StoreView, hit: TrackView, id: TrackId, k: u128)
    requires
        store_sound(s),
        titles_filed(s),
        hit.renditions.len() == 1,
        s.tracks.dom().contains(k),
        hit.isrc is None,
        match_reason(s.tracks[k], hit) is Some,
    ensures
        ({
            let (u, t, written) = ingested(s, hit, id);
            let r = hit.renditions[0];
            &&& s.tracks.dom().contains(t.0)
            &&& u.tracks.dom() == s.tracks.dom()
            &&& written ==> has_rendition(u.tracks[t.0].renditions, r.source, r.uri)
        }),
{
    let r = hit.renditions[0];
    if by_rendition_of(s, r.source, r.uri) is None {
        let n = s.by_title.len() as int;
        let norm = norm_of(hit.title);
        let cands = titled(s, norm, n);
        let i = choose|i: int| 0 <= i < s.by_title.len() && #[trigger] s.by_title[i] == (norm_of(s.tracks[k].title), TrackId(k));
        lemma_titled_holds(s, norm, n, i);
        let j = choose|j: int| 0 <= j < cands.len() && cands[j] == s.tracks[k];
        lemma_first_match(cands, hit, 0);
        let m = first_match(cands, hit, 0)->0;
        lemma_titled(s, norm, n, m);
        let x = cands[m];
        let w = with_hit(x, hit, match_reason(x, hit)->0);
        if !has_rendition(x.renditions, r.source, r.uri) {
            assert(w.renditions[x.renditions.len() as int].uri == r.uri);
        }
        assert(ingested(s, hit, id).0.tracks.dom() =~= s.tracks.dom());
    }
}

/// Every track stays filed under its title when a hit is folded in.
pub proof fn titles_stay_filed(s: StoreView, t: TrackView)
    requires
        store_sound(s),
        titles_filed(s),
    ensures
        titles_filed(upserted(s, t)),
{
    let u = upserted(s, t);
    let keep = crate::store::titles_without(s.by_title, t.id);
    assert(u.by_title == keep.push((norm_of(t.title), t.id)));
    assert forall|k: u128| #[trigger] u.tracks.dom().contains(k) implies exists|i: int|
        0 <= i < u.by_title.len() && #[trigger] u.by_title[i] == (norm_of(u.tracks[k].title), TrackId(k)) by {
        if k == t.id.0 {
            assert(u.by_title[u.by_title.len() - 1] == (norm_of(t.title), TrackId(k)));
        } else {
            assert(s.tracks.dom().contains(k));
            let i = choose|i: int| 0 <= i < s.by_title.len() && #[trigger] s.by_title[i] == (norm_of(s.tracks[k].title), TrackId(k));
            lemma_kept(s.by_title, t.id, i);
            let j = choose|j: int| 0 <= j < keep.len() && keep[j] == s.by_title[i];
            assert(u.by_title[j] == (norm_of(u.tracks[k].title), TrackId(k)));
        }
    }
}

proof fn lemma_kept(v: Seq<(Seq<char>, TrackId)>, id: TrackId, i: int)
    requires
        0 <= i < v.len(),
        v[i].1 != id,
    ensures
        crate::store::titles_without(v, id).contains(v[i]),
{
    reveal(Seq::filter);
    v.lemma_filter_contains(|e: (Seq<char>, TrackId)| e.1 != id, i);
}

/// A track that is linked to another keeps its own title, artists, length and everything else
/// that it knows, and gets from the other what it lacks.
pub proof fn links_fill_gaps_only(s: StoreView, a: TrackId, b: TrackId)
    requires
        store_sound(s),
        a != b,
        track_of(s, a) is Some,
        track_of(s, b) is Some,
    ensures
        ({
            let ta = s.tracks[a.0];
            let tb = s.tracks[b.0];
            let t = linked(s, a, b).tracks[a.0];
            &&& t.title == ta.title && t.artists == ta.artists && t.tags == ta.tags && t.attrs == ta.attrs
            &&& t.duration_ms == (if ta.duration_ms > 0 {
                ta.duration_ms
            } else {
                tb.duration_ms
            })
            &&& ta.isrc is Some ==> t.isrc == ta.isrc
            &&& ta.isrc is None ==> t.isrc == tb.isrc
            &&& ta.album is Some ==> t.album == ta.album
            &&& ta.album is None ==> t.album == tb.album
            &&& ta.renditions.len() <= t.renditions.len() <= ta.renditions.len() + tb.renditions.len()
            &&& forall|k: u128| k != a.0 && k != b.0 && #[trigger] s.tracks.dom().contains(k) ==> linked(s, a, b).tracks.dom().contains(k)
                && linked(s, a, b).tracks[k] == s.tracks[k]
        }),
{
    lemma_merged_len(s.tracks[a.0].renditions, s.tracks[b.0].renditions);
}

proof fn lemma_merged_len(v: Seq<RenditionView>, more: Seq<RenditionView>)
    ensures
        v.len() <= merged_renditions(v, more).len() <= v.len() + more.len(),
    decreases more.len(),
{
    if more.len() > 0 {
        lemma_merged_len(v, more.drop_last());
    }
}

/// In every playlist the first of two linked tracks stands wherever the second stood, and no row
/// is lost or moved.
pub proof fn playlists_follow_a_link(s: StoreView, a: TrackId, b: TrackId, k: u128, i: int)
    requires
        s.playlists.dom().contains(k),
        0 <= i < s.playlists[k].items.len(),
    ensures
        ({
            let before = s.playlists[k].items;
            let after = linked(s, a, b).playlists[k].items;
            &&& linked(s, a, b).playlists.dom().contains(k)
            &&& after.len() == before.len()
            &&& before[i] == b ==> after[i] == a
            &&& before[i] != b ==> after[i] == before[i]
            &&& linked(s, a, b).playlists[k].name == s.playlists[k].name
        }),
{
}

/// A source that is taken off a track takes all its renditions of that source along and leaves
/// the others in their order; a track without any rendition is deleted.
pub proof fn unlinking_takes_a_source_off(s: StoreView, id: TrackId, source: Seq<char>)
    requires
        store_sound(s),
        track_of(s, id) is Some,
    ensures
        ({
            let t = s.tracks[id.0];
            let u = unlinked(s, id, source);
            let others = exists|i: int| 0 <= i < t.renditions.len() && (#[trigger] t.renditions[i]).source != source;
            &&& u.tracks.dom().contains(id.0) == others
            &&& others ==> forall|r: RenditionView| #[trigger] u.tracks[id.0].renditions.contains(r) <==> t.renditions.contains(
                r,
            ) && r.source != source
            &&& others ==> u.tracks[id.0].title == t.title && u.tracks[id.0].duration_ms == t.duration_ms
            &&& forall|k: u128| k != id.0 && #[trigger] s.tracks.dom().contains(k) ==> u.tracks.dom().contains(k)
                && u.tracks[k] == s.tracks[k]
        }),
{
    let t = s.tracks[id.0];
    let v = t.renditions;
    let p = crate::catalog::not_on(source);
    let left = crate::catalog::off_source(v, source);
    assert(t.id == id);
    assert forall|r: RenditionView| #[trigger] left.contains(r) <==> v.contains(r) && r.source != source by {
        if left.contains(r) {
            v.lemma_filter_contains_rev(p, r);
            let j = choose|j: int| 0 <= j < left.len() && left[j] == r;
            v.lemma_filter_pred(p, j);
        }
        if v.contains(r) && r.source != source {
            let j = choose|j: int| 0 <= j < v.len() && v[j] == r;
            v.lemma_filter_contains(p, j);
        }
    }
    if left.len() > 0 {
        assert(left.contains(left[0]));
        let j = choose|j: int| 0 <= j < v.len() && v[j] == left[0];
        assert(v[j].source != source);
    } else {
        assert forall|i: int| 0 <= i < v.len() implies (#[trigger] v[i]).source == source by {
            if v[i].source != source {
                assert(v.contains(v[i]));
                assert(left.contains(v[i]));
            }
        }
    }
}

/// A hit at an address that the library has is the track it has there, and changes nothing.
pub proof fn known_addresses_change_nothing(s: StoreView, hit: TrackView, id: TrackId, k: u128)
    requires
        store_sound(s),
        hit.renditions.len() == 1,
        by_rendition_of(s, hit.renditions[0].source, hit.renditions[0].uri) == Some(s.tracks[k]),
        s.tracks.dom().contains(k),
    ensures
        ingested(s, hit, id) == (s, TrackId(k), false),
{
}

/// A hit with the ISRC of a track of the library is that track, whatever it is called, and one
/// more rendition of it, linked by its ISRC.
pub proof fn the_same_isrc_is_one_track(s: StoreView, hit: TrackView, id: TrackId)
    requires
        store_sound(s),
        hit.renditions.len() == 1,
        hit.isrc is Some,
        s.by_isrc.dom().contains(hit.isrc->0),
        by_rendition_of(s, hit.renditions[0].source, hit.renditions[0].uri) is None,
    ensures
        ({
            let (u, t, written) = ingested(s, hit, id);
            let r = hit.renditions[0];
            &&& s.tracks.dom().contains(t.0) && s.tracks[t.0].isrc == hit.isrc
            &&& u.tracks.dom() == s.tracks.dom()
            &&& written
            &&& has_rendition(u.tracks[t.0].renditions, r.source, r.uri)
            &&& !has_rendition(s.tracks[t.0].renditions, r.source, r.uri) ==> u.tracks[t.0].renditions.last().link == LinkReason::Isrc
        }),
{
    let r = hit.renditions[0];
    let k = s.by_isrc[hit.isrc->0].0;
    let x = s.tracks[k];
    let w = with_hit(x, hit, LinkReason::Isrc);
    if !has_rendition(x.renditions, r.source, r.uri) {
        assert(w.renditions[x.renditions.len() as int].uri == r.uri);
    }
    assert(ingested(s, hit, id).0.tracks.dom() =~= s.tracks.dom());
}

/// A track that a hit is folded into keeps what it knows and every rendition in its place; of the
/// hit it takes what it lacks, and at most the one rendition.
pub proof fn hits_fill_gaps_only(s: StoreView, hit: TrackView, id: TrackId, i: int)
    requires
        store_sound(s),
        hit.renditions.len() == 1,
        s.tracks.dom().contains(ingested(s, hit, id).1.0),
        !s.tracks.dom().contains(id.0),
    ensures
        ({
            let (u, t, written) = ingested(s, hit, id);
            let was = s.tracks[t.0];
            let now = u.tracks[t.0];
            &&& now.title == was.title && now.artists == was.artists && now.year == was.year && now.attrs == was.attrs
            &&& was.duration_ms > 0 ==> now.duration_ms == was.duration_ms
            &&& was.duration_ms == 0 && written ==> now.duration_ms == hit.duration_ms
            &&& was.album is Some ==> now.album == was.album
            &&& was.album is None && written ==> now.album == hit.album
            &&& was.isrc is Some ==> now.isrc == was.isrc
            &&& was.isrc is None && written ==> now.isrc == hit.isrc
            &&& was.renditions.len() <= now.renditions.len() <= was.renditions.len() + 1
            &&& 0 <= i < was.renditions.len() ==> now.renditions[i] == was.renditions[i]
        }),
{
    let r = hit.renditions[0];
    if by_rendition_of(s, r.source, r.uri) is None {
        if isrc_track(s, hit) is None {
            let n = s.by_title.len() as int;
            let cands = titled(s, norm_of(hit.title), n);
            lemma_first_match(cands, hit, 0);
            if let Some(j) = first_match(cands, hit, 0) {
                lemma_titled(s, norm_of(hit.title), n, j);
            }
        }
    }
}

} // verus!
