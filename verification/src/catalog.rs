//! Folding what sources find into the library, and joining or parting tracks.

use vstd::prelude::*;
use crate::event::{Bus, CoreEvent};
use crate::matcher::{match_reason, norm_of, Matcher};
use crate::queue::bumped;
use crate::resolver::source_views;
use crate::store::{
    by_rendition_of, delete_keeps_indices_sound, deleted, indexed, read_after_write, store_sound, titled,
    track_of, upsert_keeps_indices_sound, upserted, MemStore, StoreView,
};
use crate::traits::Error;
use crate::types::{
    clone_opt, clone_strings, opt_text, rendition_views, LinkReason, Playlist, PlaylistId, PlaylistView,
    Rendition, RenditionView, SourceId, Track, TrackId, TrackView, track_views,
};

verus! {

/// Whether the renditions hold one with this source and address.
pub open spec fn has_rendition(v: Seq<RenditionView>, source: Seq<char>, uri: Seq<char>) -> bool {
    exists|i: int| 0 <= i < v.len() && (#[trigger] v[i]).source == source && v[i].uri == uri
}

/// The renditions with one more, unless its source and address are there already.
pub open spec fn merged_rendition(v: Seq<RenditionView>, r: RenditionView) -> Seq<RenditionView> {
    if has_rendition(v, r.source, r.uri) {
        v
    } else {
        v.push(r)
    }
}

pub open spec fn merged_renditions(v: Seq<RenditionView>, more: Seq<RenditionView>) -> Seq<RenditionView>
    decreases more.len(),
{
    if more.len() == 0 {
        v
    } else {
        merged_rendition(merged_renditions(v, more.drop_last()), more.last())
    }
}

/// The track with what it lacks of ISRC, length and album; what it has stays.
pub open spec fn merged_metadata(
    t: TrackView,
    isrc: Option<Seq<char>>,
    duration_ms: u32,
    album: Option<Seq<char>>,
) -> TrackView {
    TrackView {
        isrc: if t.isrc is None {
            isrc
        } else {
            t.isrc
        },
        duration_ms: if t.duration_ms == 0 {
            duration_ms
        } else {
            t.duration_ms
        },
        album: if t.album is None {
            album
        } else {
            t.album
        },
        ..t
    }
}

/// The track after a hit is folded into it.
pub open spec fn with_hit(t: TrackView, hit: TrackView, reason: LinkReason) -> TrackView {
    let r = RenditionView { link: reason, ..hit.renditions[0] };
    merged_metadata(
        TrackView { renditions: merged_rendition(t.renditions, r), ..t },
        hit.isrc,
        hit.duration_ms,
        hit.album,
    )
}

/// The new track that a hit makes.
pub open spec fn track_from_hit(id: TrackId, hit: TrackView) -> TrackView {
    TrackView {
        id,
        title: hit.title,
        artists: hit.artists,
        duration_ms: hit.duration_ms,
        isrc: hit.isrc,
        album: hit.album,
        year: None,
        attrs: Map::empty(),
        tags: seq![],
        renditions: seq![RenditionView { link: LinkReason::Manual, ..hit.renditions[0] }],
    }
}

/// The first of the tracks from `i` on that the hit matches.
pub open spec fn first_match(v: Seq<TrackView>, hit: TrackView, i: int) -> Option<int>
    decreases v.len() - i,
{
    if i < 0 || i >= v.len() {
        None
    } else if match_reason(v[i], hit) is Some {
        Some(i)
    } else {
        first_match(v, hit, i + 1)
    }
}

/// What becomes of the store when a hit is folded in: the track it belongs to and whether
/// anything was written. A new track gets the identifier `id`.
pub open spec fn ingested(s: StoreView, hit: TrackView, id: TrackId) -> (StoreView, TrackId, bool) {
    let r = hit.renditions[0];
    match by_rendition_of(s, r.source, r.uri) {
        Some(t) => (s, t.id, false),
        None => match isrc_track(s, hit) {
            Some(t) => (upserted(s, with_hit(t, hit, LinkReason::Isrc)), t.id, true),
            None => {
                let cands = titled(s, norm_of(hit.title), s.by_title.len() as int);
                match first_match(cands, hit, 0) {
                    Some(i) => {
                        let t = cands[i];
                        (upserted(s, with_hit(t, hit, match_reason(t, hit)->0)), t.id, true)
                    },
                    None => (upserted(s, track_from_hit(id, hit)), id, true),
                }
            },
        },
    }
}

/// The track with the ISRC of a hit.
pub open spec fn isrc_track(s: StoreView, hit: TrackView) -> Option<TrackView> {
    match hit.isrc {
        Some(i) => indexed(s, s.by_isrc, i),
        None => None,
    }
}

/// The playlist with every `b` as `a`.
pub open spec fn relinked(p: PlaylistView, a: TrackId, b: TrackId) -> PlaylistView {
    PlaylistView {
        items: p.items.map_values(
            |x: TrackId|
                if x == b {
                    a
                } else {
                    x
                },
        ),
        ..p
    }
}

/// The store after `b` was merged into `a`.
pub open spec fn linked(s: StoreView, a: TrackId, b: TrackId) -> StoreView {
    let ta = s.tracks[a.0];
    let tb = s.tracks[b.0];
    let t = merged_metadata(
        TrackView { renditions: merged_renditions(ta.renditions, tb.renditions), ..ta },
        tb.isrc,
        tb.duration_ms,
        tb.album,
    );
    let u = upserted(deleted(s, b), t);
    StoreView { playlists: u.playlists.map_values(|p: PlaylistView| relinked(p, a, b)), ..u }
}

/// The playlists that hold a track.
pub open spec fn holders(s: StoreView, b: TrackId) -> Set<u128> {
    s.playlists.dom().filter(|p: u128| s.playlists[p].items.contains(b))
}

/// A counter after `n` more steps; it starts again from zero after its greatest value.
pub open spec fn advanced(counter: u64, n: nat) -> int {
    (counter + n) % 0x1_0000_0000_0000_0000
}

pub open spec fn off_source(v: Seq<RenditionView>, source: Seq<char>) -> Seq<RenditionView> {
    v.filter(not_on(source))
}

pub open spec fn not_on(source: Seq<char>) -> spec_fn(RenditionView) -> bool {
    |r: RenditionView| r.source != source
}

/// The store after the renditions of a track on a source were taken off; a track without any is
/// deleted.
pub open spec fn unlinked(s: StoreView, id: TrackId, source: Seq<char>) -> StoreView {
    let t = s.tracks[id.0];
    let left = off_source(t.renditions, source);
    if left.len() == 0 {
        deleted(s, id)
    } else {
        upserted(s, TrackView { renditions: left, ..t })
    }
}

/// The sources of the renditions after the first, up to `n`, each once.
pub open spec fn extra_sources(v: Seq<RenditionView>, n: int) -> Seq<Seq<char>>
    decreases n,
{
    if n <= 1 || n > v.len() {
        seq![]
    } else {
        let head = extra_sources(v, n - 1);
        if head.contains(v[n - 1].source) {
            head
        } else {
            head.push(v[n - 1].source)
        }
    }
}

/// The store after every rendition of a track but the first was taken off it.
pub open spec fn parted(s: StoreView, t: TrackView) -> StoreView {
    if t.renditions.len() > 1 {
        upserted(s, TrackView { renditions: t.renditions.take(1), ..t })
    } else {
        s
    }
}

fn merge_rendition(v: &mut Vec<Rendition>, r: Rendition)
    ensures
        rendition_views(final(v)@) == merged_rendition(rendition_views(old(v)@), r@),
{
    let ghost all = rendition_views(v@);
    let mut i: usize = 0;
    while i < v.len()
        invariant
            i <= v@.len(),
            *v == *old(v),
            all == rendition_views(v@),
            forall|j: int| 0 <= j < i ==> !((#[trigger] all[j]).source == r@.source && all[j].uri == r@.uri),
        decreases v@.len() - i,
    {
        assert(all[i as int] == v@[i as int]@);
        if v[i].source.same(&r.source) && v[i].uri == r.uri {
            assert(has_rendition(all, r@.source, r@.uri));
            return;
        }
        i = i + 1;
    }
    assert(!has_rendition(all, r@.source, r@.uri));
    let ghost before = v@;
    v.push(r);
    assert(rendition_views(v@) =~= rendition_views(before).push(r@));
}

fn merge_metadata(t: &mut Track, isrc: Option<String>, duration_ms: u32, album: Option<String>)
    ensures
        final(t)@ == merged_metadata(old(t)@, opt_text(isrc), duration_ms, opt_text(album)),
{
    if t.isrc.is_none() {
        t.isrc = isrc;
    }
    if t.duration_ms == 0 {
        t.duration_ms = duration_ms;
    }
    if t.album.is_none() {
        t.album = album;
    }
}

fn fold_hit(t: &mut Track, hit: &Track, reason: LinkReason)
    requires
        hit.renditions@.len() == 1,
    ensures
        final(t)@ == with_hit(old(t)@, hit@, reason),
{
    assert(hit@.renditions[0] == hit.renditions@[0]@);
    let mut r = hit.renditions[0].clone();
    r.link = reason;
    merge_rendition(&mut t.renditions, r);
    merge_metadata(t, clone_opt(&hit.isrc), hit.duration_ms, clone_opt(&hit.album));
}

fn has_source(v: &Vec<SourceId>, s: &SourceId) -> (r: bool)
    ensures
        r == source_views(v@).contains(s@),
{
    let ghost w = source_views(v@);
    let mut i: usize = 0;
    while i < v.len()
        invariant
            i <= v@.len(),
            w == source_views(v@),
            forall|j: int| 0 <= j < i ==> w[j] != s@,
        decreases v@.len() - i,
    {
        assert(w[i as int] == v@[i as int]@);
        if v[i].same(s) {
            assert(w.contains(s@));
            return true;
        }
        i = i + 1;
    }
    false
}

fn sources_after_first(t: &Track) -> (r: Vec<SourceId>)
    ensures
        source_views(r@) == extra_sources(t@.renditions, t@.renditions.len() as int),
{
    let ghost rv = t@.renditions;
    let mut out: Vec<SourceId> = Vec::new();
    assert(source_views(out@) =~= seq![]);
    let n: usize = t.renditions.len();
    let mut i: usize = 1;
    while i < n
        invariant
            1 <= i,
            i <= n || n == 0,
            n == t.renditions@.len(),
            rv == t@.renditions,
            n > 0 ==> source_views(out@) == extra_sources(rv, i as int),
            n == 0 ==> source_views(out@) == Seq::<Seq<char>>::empty(),
        decreases n - i,
    {
        assert(rv[i as int] == t.renditions@[i as int]@);
        if !has_source(&out, &t.renditions[i].source) {
            let ghost before = out@;
            let s = t.renditions[i].source.clone();
            out.push(s);
            assert(source_views(out@) =~= source_views(before).push(s@));
        }
        i = i + 1;
    }
    out
}

/// The library and how often it changed.
pub struct Catalog {
    pub store: MemStore,
    pub playlists_gen: u64,
    pub removed_gen: u64,
}

impl Catalog {
    /// How often a playlist was written.
    pub open spec fn playlists_generation(&self) -> u64 {
        self.playlists_gen
    }

    /// How often a track ceased to exist.
    pub open spec fn removed_generation(&self) -> u64 {
        self.removed_gen
    }

    pub fn new(store: MemStore) -> (r: Catalog)
        ensures
            r.store == store,
            r.playlists_generation() == 0,
            r.removed_generation() == 0,
    {
        Catalog { store, playlists_gen: 0, removed_gen: 0 }
    }

    pub fn playlists_gen(&self) -> (r: u64)
        ensures
            r == self.playlists_generation(),
    {
        self.playlists_gen
    }

    pub fn removed_gen(&self) -> (r: u64)
        ensures
            r == self.removed_generation(),
    {
        self.removed_gen
    }

    /// Writes a playlist.
    pub fn save_playlist(&mut self, playlist: &Playlist)
        ensures
            final(self).store@ == (StoreView {
                playlists: old(self).store@.playlists.insert(playlist@.id.0, playlist@),
                ..old(self).store@
            }),
            final(self).playlists_generation() == bumped(old(self).playlists_generation()),
            final(self).removed_generation() == old(self).removed_generation(),
    {
        self.store.upsert_playlist(playlist);
        self.playlists_gen = self.playlists_gen.wrapping_add(1);
    }

    /// Folds a hit into the library; a new track gets the identifier `id`.
    pub fn ingest_with(&mut self, hit: &Track, id: TrackId, bus: &mut Bus) -> (r: TrackId)
        requires
            hit.renditions@.len() == 1,
        ensures
            ({
                let (s, t, written) = ingested(old(self).store@, hit@, id);
                &&& final(self).store@ == s
                &&& r == t
                &&& final(bus)@ == (if written {
                    old(bus)@.push(CoreEvent::TrackUpdated(t))
                } else {
                    old(bus)@
                })
            }),
            track_of(final(self).store@, r) matches Some(t) && t.id == r,
            final(self).playlists_generation() == old(self).playlists_generation(),
            final(self).removed_generation() == old(self).removed_generation(),
    {
        let ghost s = self.store@;
        proof {
            use_type_invariant(&self.store);
            self.store.is_sound();
            folded_hits_stay(s, hit@, id);
        }
        assert(hit@.renditions[0] == hit.renditions@[0]@);
        if let Some(t) = self.store.track_by_rendition(
            &hit.renditions[0].source,
            &hit.renditions[0].uri,
        ) {
            return t.id;
        }
        if let Some(isrc) = &hit.isrc {
            if let Some(mut t) = self.store.track_by_isrc(isrc) {
                fold_hit(&mut t, hit, LinkReason::Isrc);
                self.store.upsert_track(&t);
                bus.send(CoreEvent::TrackUpdated(t.id));
                return t.id;
            }
        }
        let norm = Matcher::norm(&hit.title);
        let cands = self.store.tracks_by_title_norm(&norm);
        let ghost all = track_views(cands@);
        let mut i: usize = 0;
        while i < cands.len()
            invariant
                i <= cands@.len(),
                hit.renditions@.len() == 1,
                all == track_views(cands@),
                s == self.store@,
                self.store@ == old(self).store@,
                *bus == *old(bus),
                self.playlists_generation() == old(self).playlists_generation(),
                self.removed_generation() == old(self).removed_generation(),
                by_rendition_of(s, hit@.renditions[0].source, hit@.renditions[0].uri) is None,
                isrc_track(s, hit@) is None,
                all == titled(s, norm_of(hit@.title), s.by_title.len() as int),
                first_match(all, hit@, i as int) == first_match(all, hit@, 0),
            decreases cands@.len() - i,
        {
            assert(all[i as int] == cands@[i as int]@);
            if let Some(reason) = Matcher::matches(&cands[i], hit) {
                let mut t = cands[i].clone();
                fold_hit(&mut t, hit, reason);
                self.store.upsert_track(&t);
                bus.send(CoreEvent::TrackUpdated(t.id));
                return t.id;
            }
            i = i + 1;
        }
        let mut r = hit.renditions[0].clone();
        r.link = LinkReason::Manual;
        let track = Track::fresh_with(id, hit.title.clone(), clone_strings(&hit.artists), r);
        let mut track = track;
        track.duration_ms = hit.duration_ms;
        track.isrc = clone_opt(&hit.isrc);
        track.album = clone_opt(&hit.album);
        self.store.upsert_track(&track);
        bus.send(CoreEvent::TrackUpdated(id));
        id
    }

    /// Folds a hit into the library; a new track gets a new identifier.
    pub fn ingest(&mut self, hit: &Track, bus: &mut Bus) -> (r: TrackId)
        requires
            hit.renditions@.len() == 1,
        ensures
            exists|id: TrackId|
                crate::ids::random_uuid(id.0) && ({
                    let (s, t, written) = #[trigger] ingested(old(self).store@, hit@, id);
                    &&& final(self).store@ == s
                    &&& r == t
                    &&& final(bus)@ == (if written {
                        old(bus)@.push(CoreEvent::TrackUpdated(t))
                    } else {
                        old(bus)@
                    })
                }),
    {
        let id = TrackId::new();
        let r = self.ingest_with(hit, id, bus);
        assert(crate::ids::random_uuid(id.0));
        r
    }

    /// Merges `b` into `a`: its renditions and what `a` lacks move over, playlists follow, and `b`
    /// is deleted.
    pub fn link(&mut self, a: TrackId, b: TrackId, bus: &mut Bus) -> (r: Result<(), Error>)
        ensures
            a == b ==> r is Ok && *final(self) == *old(self) && final(bus)@ == old(bus)@,
            a != b ==> {
                let s = old(self).store@;
                if track_of(s, a) is Some && track_of(s, b) is Some {
                    &&& r is Ok
                    &&& final(self).store@ == linked(s, a, b)
                    &&& final(bus)@ == old(bus)@.push(CoreEvent::TrackUpdated(a))
                    &&& final(self).removed_generation() == bumped(old(self).removed_generation())
                    &&& final(self).playlists_generation() == advanced(
                        old(self).playlists_generation(),
                        holders(s, b).len(),
                    )
                    &&& track_of(final(self).store@, b) is None
                    &&& track_of(final(self).store@, a) matches Some(t) && t.id == a && t.renditions
                        == merged_renditions(s.tracks[a.0].renditions, s.tracks[b.0].renditions)
                } else {
                    &&& r == Err::<(), Error>(Error::NotFound)
                    &&& *final(self) == *old(self)
                    &&& final(bus)@ == old(bus)@
                }
            },
    {
        if a == b {
            return Ok(());
        }
        let ghost s = self.store@;
        proof {
            use_type_invariant(&self.store);
            self.store.is_sound();
            if track_of(s, a) is Some && track_of(s, b) is Some {
                linked_tracks_are_one(s, a, b);
            }
        }
        let mut ta = match self.store.get_track(a) {
            Some(t) => t,
            None => {
                return Err(Error::NotFound);
            },
        };
        let tb = match self.store.get_track(b) {
            Some(t) => t,
            None => {
                return Err(Error::NotFound);
            },
        };
        let ghost va = ta@.renditions;
        let ghost vb = tb@.renditions;
        let mut i: usize = 0;
        assert(vb.take(0) =~= seq![]);
        while i < tb.renditions.len()
            invariant
                i <= tb.renditions@.len(),
                vb == tb@.renditions,
                ta@ == (TrackView {
                    renditions: merged_renditions(va, vb.take(i as int)),
                    ..s.tracks[a.0]
                }),
            decreases tb.renditions@.len() - i,
        {
            proof {
                assert(vb[i as int] == tb.renditions@[i as int]@);
                assert(vb.take(i + 1).drop_last() =~= vb.take(i as int));
                assert(vb.take(i + 1).last() == vb[i as int]);
            }
            let r = tb.renditions[i].clone();
            merge_rendition(&mut ta.renditions, r);
            i = i + 1;
        }
        assert(vb.take(i as int) =~= vb);
        merge_metadata(&mut ta, clone_opt(&tb.isrc), tb.duration_ms, clone_opt(&tb.album));
        self.store.delete_track(b);
        self.removed_gen = self.removed_gen.wrapping_add(1);
        self.store.upsert_track(&ta);
        let ghost mid = self.store@;
        self.relink_playlists(a, b);
        assert(holders(mid, b) =~= holders(s, b));
        bus.send(CoreEvent::TrackUpdated(a));
        Ok(())
    }

    fn relink_playlists(&mut self, a: TrackId, b: TrackId)
        requires
            a != b,
        ensures
            final(self).store@ == (StoreView {
                playlists: old(self).store@.playlists.map_values(
                    |p: PlaylistView| relinked(p, a, b),
                ),
                ..old(self).store@
            }),
            final(self).playlists_generation() == advanced(
                old(self).playlists_generation(),
                holders(old(self).store@, b).len(),
            ),
            final(self).removed_generation() == old(self).removed_generation(),
    {
        let ghost s = self.store@;
        let ids = self.store.playlist_ids();
        let ghost mut seen: Set<u128> = Set::empty();
        let mut i: usize = 0;
        while i < ids.len()
            invariant
                i <= ids@.len(),
                a != b,
                seen.finite(),
                forall|q: u128|
                    seen.contains(q) <==> (s.playlists[q].items.contains(b) && exists|j: int|
                        0 <= j < i && (#[trigger] ids@[j]).0 == q),
                self.playlists_generation() == advanced(
                    old(self).playlists_generation(),
                    seen.len(),
                ),
                ids@.no_duplicates(),
                forall|id: u128| s.playlists.dom().contains(id) <==> ids@.contains(PlaylistId(id)),
                self.store@ == (StoreView { playlists: self.store@.playlists, ..s }),
                self.store@.playlists.dom() == s.playlists.dom(),
                forall|j: int|
                    0 <= j < i ==> self.store@.playlists[(#[trigger] ids@[j]).0] == relinked(
                        s.playlists[ids@[j].0],
                        a,
                        b,
                    ),
                forall|j: int|
                    i <= j < ids@.len() ==> self.store@.playlists[(#[trigger] ids@[j]).0]
                        == s.playlists[ids@[j].0],
                self.removed_generation() == old(self).removed_generation(),
            decreases ids@.len() - i,
        {
            let id = ids[i];
            assert(ids@.contains(PlaylistId(id.0)));
            if let Some(p) = self.store.get_playlist(id) {
                let mut p = p;
                let ghost was = p@;
                let mut found: bool = false;
                let mut k: usize = 0;
                while k < p.items.len()
                    invariant
                        k <= p.items@.len() == was.items.len(),
                        p@ == (PlaylistView { items: p.items@, ..was }),
                        a != b,
                        forall|x: int| 0 <= x < k ==> p.items@[x] == relinked(was, a, b).items[x],
                        forall|x: int| k <= x < was.items.len() ==> p.items@[x] == was.items[x],
                        found == (exists|x: int| 0 <= x < k && was.items[x] == b),
                    decreases p.items@.len() - k,
                {
                    let ghost before = p.items@;
                    if p.items[k] == b {
                        p.items.set(k, a);
                        found = true;
                        assert(was.items[k as int] == b);
                    }
                    k = k + 1;
                }
                assert(p.items@ =~= relinked(was, a, b).items);
                assert(found == was.items.contains(b));
                if found {
                    self.playlists_gen = self.playlists_gen.wrapping_add(1);
                    self.store.set_items(id, p.items);
                    proof {
                        assert forall|j: int| i < j < ids@.len() implies (#[trigger] ids@[j]).0 != id.0 by {}
                        assert forall|j: int| 0 <= j < i implies (#[trigger] ids@[j]).0 != id.0 by {}
                        assert(self.store@.playlists.dom() =~= s.playlists.dom());
                        assert(!seen.contains(id.0));
                        seen = seen.insert(id.0);
                    }
                } else {
                    assert(relinked(was, a, b).items =~= was.items);
                }
            }
            i = i + 1;
        }
        proof {
            let f = |p: PlaylistView| relinked(p, a, b);
            assert forall|q: u128| s.playlists.dom().contains(q) implies self.store@.playlists[q]
                == f(s.playlists[q]) by {
                assert(ids@.contains(PlaylistId(q)));
                let j = choose|j: int| 0 <= j < ids@.len() && ids@[j] == PlaylistId(q);
                assert(ids@[j].0 == q);
            }
            assert(self.store@.playlists =~= s.playlists.map_values(f));
            assert forall|q: u128| seen.contains(q) <==> holders(s, b).contains(q) by {
                if holders(s, b).contains(q) {
                    assert(ids@.contains(PlaylistId(q)));
                    let j = choose|j: int| 0 <= j < ids@.len() && ids@[j] == PlaylistId(q);
                    assert(ids@[j].0 == q);
                }
                if seen.contains(q) {
                    let j = choose|j: int| 0 <= j < ids@.len() && (#[trigger] ids@[j]).0 == q;
                    assert(ids@.contains(PlaylistId(ids@[j].0)));
                }
            }
            assert(seen =~= holders(s, b));
        }
    }

    /// Takes the renditions of a track on a source off; a track without any is deleted.
    pub fn unlink(&mut self, id: TrackId, source: &SourceId, bus: &mut Bus) -> (r: Result<(), Error>)
        ensures
            ({
                let s = old(self).store@;
                if track_of(s, id) is Some {
                    &&& r is Ok
                    &&& final(self).store@ == unlinked(s, id, source@)
                    &&& final(bus)@ == old(bus)@.push(CoreEvent::TrackUpdated(id))
                    &&& final(self).removed_generation() == (if off_source(
                        s.tracks[id.0].renditions,
                        source@,
                    ).len() == 0 {
                        bumped(old(self).removed_generation())
                    } else {
                        old(self).removed_generation()
                    })
                } else {
                    &&& r == Err::<(), Error>(Error::NotFound)
                    &&& final(self).store@ == s
                    &&& final(bus)@ == old(bus)@
                    &&& final(self).removed_generation() == old(self).removed_generation()
                }
            }),
            final(self).playlists_generation() == old(self).playlists_generation(),
    {
        let mut t = match self.store.get_track(id) {
            Some(t) => t,
            None => {
                return Err(Error::NotFound);
            },
        };
        let ghost v = t@.renditions;
        let ghost keep = not_on(source@);
        let mut left: Vec<Rendition> = Vec::new();
        let mut i: usize = 0;
        proof {
            reveal(Seq::filter);
            assert(rendition_views(left@) =~= v.take(0).filter(keep));
        }
        while i < t.renditions.len()
            invariant
                i <= t.renditions@.len(),
                v == rendition_views(t.renditions@),
                keep == not_on(source@),
                rendition_views(left@) == v.take(i as int).filter(keep),
            decreases t.renditions@.len() - i,
        {
            proof {
                v.take(i as int).lemma_filter_push(v[i as int], keep);
                assert(v.take(i + 1) =~= v.take(i as int).push(v[i as int]));
                assert(v[i as int] == t.renditions@[i as int]@);
            }
            if !t.renditions[i].source.same(source) {
                let ghost before = left@;
                left.push(t.renditions[i].clone());
                assert(rendition_views(left@) =~= rendition_views(before).push(v[i as int]));
            }
            i = i + 1;
        }
        assert(v.take(i as int) =~= v);
        assert(rendition_views(left@).len() == left@.len());
        if left.len() == 0 {
            self.store.delete_track(id);
            self.removed_gen = self.removed_gen.wrapping_add(1);
        } else {
            t.renditions = left;
            self.store.upsert_track(&t);
        }
        bus.send(CoreEvent::TrackUpdated(id));
        Ok(())
    }

    /// Takes every rendition of a track off but the first. It is announced once for each source
    /// that a rendition was taken off from.
    pub fn unlink_rest(&mut self, id: TrackId, bus: &mut Bus) -> (r: Result<(), Error>)
        ensures
            match track_of(old(self).store@, id) {
                Some(t) => {
                    &&& r is Ok
                    &&& final(self).store@ == parted(old(self).store@, t)
                    &&& final(bus)@ == old(bus)@ + Seq::new(
                        extra_sources(t.renditions, t.renditions.len() as int).len(),
                        |i: int| CoreEvent::TrackUpdated(id),
                    )
                },
                None => {
                    &&& r == Err::<(), Error>(Error::NotFound)
                    &&& final(self).store@ == old(self).store@
                    &&& final(bus)@ == old(bus)@
                },
            },
            final(self).playlists_generation() == old(self).playlists_generation(),
            final(self).removed_generation() == old(self).removed_generation(),
    {
        let mut t = match self.store.get_track(id) {
            Some(t) => t,
            None => {
                return Err(Error::NotFound);
            },
        };
        let sources = sources_after_first(&t);
        let ghost was = t@;
        if t.renditions.len() > 1 {
            let first = t.renditions[0].clone();
            let mut left: Vec<Rendition> = Vec::new();
            left.push(first);
            t.renditions = left;
            assert(t@.renditions =~= was.renditions.take(1));
            self.store.upsert_track(&t);
        }
        let n: usize = sources.len();
        assert(source_views(sources@).len() == n);
        let mut i: usize = 0;
        assert(bus@ =~= old(bus)@ + Seq::new(0, |i: int| CoreEvent::TrackUpdated(id)));
        while i < n
            invariant
                i <= n,
                bus@ == old(bus)@ + Seq::new(i as nat, |i: int| CoreEvent::TrackUpdated(id)),
            decreases n - i,
        {
            bus.send(CoreEvent::TrackUpdated(id));
            i = i + 1;
            assert(bus@ =~= old(bus)@ + Seq::new(i as nat, |i: int| CoreEvent::TrackUpdated(id)));
        }
        Ok(())
    }

    /// Announces a track without a change to it.
    pub fn announce(&self, id: TrackId, bus: &mut Bus)
        ensures
            final(bus)@ == old(bus)@.push(CoreEvent::TrackUpdated(id)),
    {
        bus.send(CoreEvent::TrackUpdated(id));
    }

    /// Lists a failure of work in the background under the warnings.
    pub fn warn(&self, context: &str, message: String, bus: &mut Bus)
        ensures
            final(bus)@.len() == old(bus)@.len() + 1,
            final(bus)@.drop_last() == old(bus)@,
            final(bus)@.last() matches CoreEvent::BackgroundFailure { context: c, message: m } && c@
                == context@ && m@ == message@,
    {
        bus.send(CoreEvent::BackgroundFailure { context: context.to_owned(), message });
        assert(bus@.drop_last() =~= old(bus)@);
    }

    /// Writes a changed copy of a track that is in the library.
    pub fn patch(&mut self, changed: &Track, bus: &mut Bus) -> (r: Result<(), Error>)
        ensures
            if track_of(old(self).store@, changed@.id) is Some {
                &&& r is Ok
                &&& final(self).store@ == upserted(old(self).store@, changed@)
                &&& final(bus)@ == old(bus)@.push(CoreEvent::TrackUpdated(changed@.id))
            } else {
                &&& r == Err::<(), Error>(Error::NotFound)
                &&& final(self).store@ == old(self).store@
                &&& final(bus)@ == old(bus)@
            },
            final(self).playlists_generation() == old(self).playlists_generation(),
            final(self).removed_generation() == old(self).removed_generation(),
    {
        if !self.store.has_track(changed.id) {
            return Err(Error::NotFound);
        }
        self.store.upsert_track(changed);
        bus.send(CoreEvent::TrackUpdated(changed.id));
        Ok(())
    }
}

/// No two renditions have the same source and address.
pub open spec fn distinct_renditions(v: Seq<RenditionView>) -> bool {
    forall|i: int, j: int|
        0 <= i < j < v.len() ==> !((#[trigger] v[i]).source == (#[trigger] v[j]).source && v[i].uri
            == v[j].uri)
}

/// Merging renditions never makes two of one, and takes none away.
pub proof fn merging_keeps_renditions_distinct(v: Seq<RenditionView>, more: Seq<RenditionView>)
    requires
        distinct_renditions(v),
    ensures
        distinct_renditions(merged_renditions(v, more)),
        v.is_prefix_of(merged_renditions(v, more)),
    decreases more.len(),
{
    if more.len() > 0 {
        let w = merged_renditions(v, more.drop_last());
        merging_keeps_renditions_distinct(v, more.drop_last());
        let r = more.last();
        if !has_rendition(w, r.source, r.uri) {
            let x = w.push(r);
            assert forall|i: int, j: int| 0 <= i < j < x.len() implies !((#[trigger] x[i]).source
                == (#[trigger] x[j]).source && x[i].uri == x[j].uri) by {
                if j == w.len() {
                    assert(x[i] == w[i]);
                    assert(!(w[i].source == r.source && w[i].uri == r.uri));
                }
            }
            assert(v.is_prefix_of(x)) by {
                assert(x.subrange(0, v.len() as int) =~= w.subrange(0, v.len() as int));
            }
        }
    }
}

/// No track of the library holds a rendition twice.
pub open spec fn renditions_once(s: StoreView) -> bool {
    forall|k: u128| #[trigger] s.tracks.dom().contains(k) ==> distinct_renditions(s.tracks[k].renditions)
}

proof fn lemma_titled_stored(s: StoreView, norm: Seq<char>, n: int, i: int)
    requires
        0 <= i < titled(s, norm, n).len(),
    ensures
        exists|k: u128| #[trigger] s.tracks.dom().contains(k) && s.tracks[k] == titled(s, norm, n)[i],
    decreases n,
{
    let head = titled(s, norm, n - 1);
    if i < head.len() {
        lemma_titled_stored(s, norm, n - 1, i);
    } else {
        assert(s.tracks.dom().contains(s.by_title[n - 1].1.0));
    }
}

proof fn lemma_first_match_in_range(v: Seq<TrackView>, hit: TrackView, i: int)
    ensures
        first_match(v, hit, i) matches Some(j) ==> 0 <= j < v.len(),
    decreases v.len() - i,
{
    if 0 <= i < v.len() {
        lemma_first_match_in_range(v, hit, i + 1);
    }
}

proof fn lemma_with_hit_distinct(t: TrackView, hit: TrackView, reason: LinkReason)
    requires
        distinct_renditions(t.renditions),
    ensures
        distinct_renditions(with_hit(t, hit, reason).renditions),
{
    let r = RenditionView { link: reason, ..hit.renditions[0] };
    merging_keeps_renditions_distinct(t.renditions, seq![r]);
    assert(seq![r].drop_last() =~= seq![]);
    assert(merged_renditions(t.renditions, seq![r].drop_last()) == t.renditions);
    assert(merged_renditions(t.renditions, seq![r]) == merged_rendition(t.renditions, r));
}

/// Folding a hit in never gives a track of the library a rendition that it has.
pub proof fn ingest_keeps_renditions_distinct(s: StoreView, hit: TrackView, id: TrackId)
    requires
        renditions_once(s),
    ensures
        renditions_once(ingested(s, hit, id).0),
{
    let r = hit.renditions[0];
    if by_rendition_of(s, r.source, r.uri) is None {
        match isrc_track(s, hit) {
            Some(x) => {
                lemma_with_hit_distinct(x, hit, LinkReason::Isrc);
            },
            None => {
                let n = s.by_title.len() as int;
                let cands = titled(s, norm_of(hit.title), n);
                lemma_first_match_in_range(cands, hit, 0);
                if let Some(i) = first_match(cands, hit, 0) {
                    lemma_titled_stored(s, norm_of(hit.title), n, i);
                    lemma_with_hit_distinct(cands[i], hit, match_reason(cands[i], hit)->0);
                }
            },
        }
    }
}

/// Making one track of two, and taking the other renditions off one, never give a track of the
/// library a rendition twice either.
pub proof fn linking_keeps_renditions_distinct(s: StoreView, a: TrackId, b: TrackId)
    requires
        renditions_once(s),
        track_of(s, a) is Some,
    ensures
        renditions_once(linked(s, a, b)),
        renditions_once(parted(s, s.tracks[a.0])),
{
    merging_keeps_renditions_distinct(s.tracks[a.0].renditions, s.tracks[b.0].renditions);
}

/// What a track already knows is never overwritten by a hit.
pub proof fn known_metadata_stays(t: TrackView, hit: TrackView, reason: LinkReason)
    ensures
        with_hit(t, hit, reason).id == t.id,
        with_hit(t, hit, reason).title == t.title,
        with_hit(t, hit, reason).artists == t.artists,
        t.isrc is Some ==> with_hit(t, hit, reason).isrc == t.isrc,
        t.duration_ms != 0 ==> with_hit(t, hit, reason).duration_ms == t.duration_ms,
        t.album is Some ==> with_hit(t, hit, reason).album == t.album,
        t.renditions.is_prefix_of(with_hit(t, hit, reason).renditions),
{
    let r = RenditionView { link: reason, ..hit.renditions[0] };
    assert(t.renditions.push(r).subrange(0, t.renditions.len() as int) =~= t.renditions);
    assert(t.renditions.subrange(0, t.renditions.len() as int) =~= t.renditions);
}

/// A library in which a hit was folded in is sound and holds the track that the hit belongs to,
/// and every track that it held.
pub proof fn folded_hits_stay(s: StoreView, hit: TrackView, id: TrackId)
    requires
        store_sound(s),
        hit.renditions.len() == 1,
    ensures
        ({
            let (u, t, _) = ingested(s, hit, id);
            &&& store_sound(u)
            &&& track_of(u, t) matches Some(x) && x.id == t
            &&& forall|k: u128| #[trigger] s.tracks.dom().contains(k) ==> u.tracks.dom().contains(k)
        }),
{
    let r = hit.renditions[0];
    if by_rendition_of(s, r.source, r.uri) is None {
        match isrc_track(s, hit) {
            Some(x) => {
                upsert_keeps_indices_sound(s, with_hit(x, hit, LinkReason::Isrc));
            },
            None => {
                let cands = titled(s, norm_of(hit.title), s.by_title.len() as int);
                match first_match(cands, hit, 0) {
                    Some(i) => {
                        upsert_keeps_indices_sound(s, with_hit(cands[i], hit, match_reason(cands[i], hit)->0));
                    },
                    None => {
                        upsert_keeps_indices_sound(s, track_from_hit(id, hit));
                    },
                }
            },
        }
    }
}

proof fn lemma_merged_has(v: Seq<RenditionView>, more: Seq<RenditionView>)
    ensures
        forall|i: int| 0 <= i < v.len() ==> has_rendition(merged_renditions(v, more), (#[trigger] v[i]).source, v[i].uri),
        forall|i: int|
            0 <= i < more.len() ==> has_rendition(
                merged_renditions(v, more),
                (#[trigger] more[i]).source,
                more[i].uri,
            ),
    decreases more.len(),
{
    if more.len() > 0 {
        let w = merged_renditions(v, more.drop_last());
        let m = merged_renditions(v, more);
        lemma_merged_has(v, more.drop_last());
        assert forall|s: Seq<char>, u: Seq<char>| has_rendition(w, s, u) implies #[trigger] has_rendition(m, s, u) by {
            let i = choose|i: int| 0 <= i < w.len() && (#[trigger] w[i]).source == s && w[i].uri == u;
            assert(m[i] == w[i]);
        }
        assert forall|i: int| 0 <= i < more.len() implies has_rendition(m, (#[trigger] more[i]).source, more[i].uri) by {
            if i < more.len() - 1 {
                assert(more.drop_last()[i] == more[i]);
            } else if !has_rendition(w, more[i].source, more[i].uri) {
                assert(m[w.len() as int] == more[i]);
            }
        }
    } else {
        assert forall|i: int| 0 <= i < v.len() implies has_rendition(
            merged_renditions(v, more),
            (#[trigger] v[i]).source,
            v[i].uri,
        ) by {}
    }
}

/// After two tracks became one, the second is gone, from the playlists too, and the first holds
/// the renditions of both, its own first. The library stays sound.
pub proof fn linked_tracks_are_one(s: StoreView, a: TrackId, b: TrackId)
    requires
        store_sound(s),
        a != b,
        track_of(s, a) is Some,
        track_of(s, b) is Some,
    ensures
        store_sound(linked(s, a, b)),
        track_of(linked(s, a, b), b) is None,
        track_of(linked(s, a, b), a) matches Some(t) && t.id == a && t.renditions == merged_renditions(
            s.tracks[a.0].renditions,
            s.tracks[b.0].renditions,
        ),
        forall|i: int|
            0 <= i < s.tracks[a.0].renditions.len() ==> has_rendition(
                linked(s, a, b).tracks[a.0].renditions,
                (#[trigger] s.tracks[a.0].renditions[i]).source,
                s.tracks[a.0].renditions[i].uri,
            ),
        forall|i: int|
            0 <= i < s.tracks[b.0].renditions.len() ==> has_rendition(
                linked(s, a, b).tracks[a.0].renditions,
                (#[trigger] s.tracks[b.0].renditions[i]).source,
                s.tracks[b.0].renditions[i].uri,
            ),
        forall|k: u128|
            #[trigger] linked(s, a, b).playlists.dom().contains(k) ==> !linked(s, a, b).playlists[k].items.contains(b),
{
    let ta = s.tracks[a.0];
    let tb = s.tracks[b.0];
    let t = merged_metadata(
        TrackView { renditions: merged_renditions(ta.renditions, tb.renditions), ..ta },
        tb.isrc,
        tb.duration_ms,
        tb.album,
    );
    delete_keeps_indices_sound(s, b);
    upsert_keeps_indices_sound(deleted(s, b), t);
    lemma_merged_has(ta.renditions, tb.renditions);
    assert(ta.id == a);
    let l = linked(s, a, b);
    assert forall|k: u128| #[trigger] l.playlists.dom().contains(k) implies !l.playlists[k].items.contains(b) && l.playlists[k].id.0 == k by {
        let p = s.playlists[k];
        assert(s.playlists.dom().contains(k));
        assert(l.playlists[k] == relinked(p, a, b));
        if l.playlists[k].items.contains(b) {
            let i = choose|i: int| 0 <= i < l.playlists[k].items.len() && l.playlists[k].items[i] == b;
            assert(relinked(p, a, b).items[i] != b);
        }
    }
}

/// A track whose other renditions were taken off keeps its first one and everything else; it is
/// found by the first, and by none that was taken off.
pub proof fn the_first_rendition_stays(s: StoreView, id: TrackId, source: Seq<char>, uri: Seq<char>)
    requires
        store_sound(s),
        track_of(s, id) is Some,
        s.tracks[id.0].renditions.len() > 0,
    ensures
        ({
            let t = s.tracks[id.0];
            let u = parted(s, t);
            let first = t.renditions[0];
            &&& store_sound(u)
            &&& track_of(u, id) == Some(TrackView { renditions: seq![first], ..t })
            &&& u.playlists == s.playlists
            &&& forall|k: u128| k != id.0 && #[trigger] s.tracks.dom().contains(k) ==> u.tracks.dom().contains(k)
                && u.tracks[k] == s.tracks[k]
            &&& t.renditions.len() > 1 ==> by_rendition_of(u, first.source, first.uri) == track_of(u, id)
            &&& crate::store::rendition_key_of(source, uri) != crate::store::rendition_key_of(first.source, first.uri)
                && t.renditions.len() > 1 ==> (by_rendition_of(u, source, uri) matches Some(x) ==> x.id != id)
        }),
{
    let t = s.tracks[id.0];
    let first = t.renditions[0];
    let u = parted(s, t);
    assert(t.id == id);
    if t.renditions.len() > 1 {
        let w = TrackView { renditions: t.renditions.take(1), ..t };
        assert(t.renditions.take(1) =~= seq![first]);
        upsert_keeps_indices_sound(s, w);
        read_after_write(s, w, id);
        assert(w.renditions[0] == first);
        let k = crate::store::rendition_key_of(source, uri);
        if u.by_rendition.dom().contains(k) && u.by_rendition[k] == id {
            assert(crate::store::has_rendition_key(u.tracks[id.0].renditions, k));
        }
    } else {
        assert(t.renditions =~= seq![first]);
    }
}

/// A hit that was folded in is found again by its source and address, and folding it in once
/// more changes nothing: no track holds a rendition twice if none did.
pub proof fn ingest_is_idempotent(s: StoreView, hit: TrackView, id: TrackId, again: TrackId)
    requires
        hit.renditions.len() == 1,
    ensures
        ({
            let (u, t, written) = ingested(s, hit, id);
            let r = hit.renditions[0];
            &&& by_rendition_of(u, r.source, r.uri) matches Some(found) && found.id == t
            &&& ingested(u, hit, again) == (u, t, false)
            &&& renditions_once(s) ==> renditions_once(u)
        }),
{
    if renditions_once(s) {
        ingest_keeps_renditions_distinct(s, hit, id);
    }
    let (u, t, written) = ingested(s, hit, id);
    let r = hit.renditions[0];
    if by_rendition_of(s, r.source, r.uri) is None {
        match isrc_track(s, hit) {
            Some(x) => {
                lemma_folded_is_found(s, x, hit, LinkReason::Isrc);
            },
            None => {
                let cands = titled(s, norm_of(hit.title), s.by_title.len() as int);
                match first_match(cands, hit, 0) {
                    Some(i) => {
                        lemma_folded_is_found(s, cands[i], hit, match_reason(cands[i], hit)->0);
                    },
                    None => {
                        let x = track_from_hit(id, hit);
                        read_after_write(s, x, id);
                        assert(x.renditions[0].source == r.source && x.renditions[0].uri == r.uri);
                    },
                }
            },
        }
    }
}

proof fn lemma_folded_is_found(s: StoreView, x: TrackView, hit: TrackView, reason: LinkReason)
    requires
        hit.renditions.len() == 1,
    ensures
        by_rendition_of(
            upserted(s, with_hit(x, hit, reason)),
            hit.renditions[0].source,
            hit.renditions[0].uri,
        ) == Some(with_hit(x, hit, reason)),
{
    let w = with_hit(x, hit, reason);
    let r = hit.renditions[0];
    read_after_write(s, w, w.id);
    if has_rendition(x.renditions, r.source, r.uri) {
        let i = choose|i: int|
            0 <= i < x.renditions.len() && (#[trigger] x.renditions[i]).source == r.source
                && x.renditions[i].uri == r.uri;
        assert(w.renditions[i].source == r.source);
    } else {
        let i = x.renditions.len() as int;
        assert(w.renditions[i].source == r.source && w.renditions[i].uri == r.uri);
    }
}

} // verus!
