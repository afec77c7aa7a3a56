//! The library in memory: tracks with their indices, playlists, and what is remembered of remote
//! playlists.

use vstd::prelude::*;
use crate::idmap::IdMap;
use crate::matcher::{norm_of, Matcher};
use crate::strmap::{without_value, StrMap};
use crate::text::same_text;
use crate::types::{
    clone_ids, Playlist, PlaylistId, PlaylistView, RenditionView, SourceId, Track, TrackId, TrackView, track_views,
};

verus! {

/// The index key of a rendition.
pub open spec fn rendition_key_of(source: Seq<char>, uri: Seq<char>) -> Seq<char> {
    source + seq!['\0'] + uri
}

pub fn rendition_key(source: &str, uri: &str) -> (r: String)
    ensures
        r@ == rendition_key_of(source@, uri@),
{
    let mut s = source.to_owned();
    s.push('\0');
    s.append(uri);
    assert(s@ =~= rendition_key_of(source@, uri@));
    s
}

/// What the store holds. `by_title` lists the compared form of each title with its track, in the
/// order in which the tracks were last written.
pub struct StoreView {
    pub tracks: Map<u128, TrackView>,
    pub playlists: Map<u128, PlaylistView>,
    pub by_isrc: Map<Seq<char>, TrackId>,
    pub by_rendition: Map<Seq<char>, TrackId>,
    pub by_title: Seq<(Seq<char>, TrackId)>,
    pub remote_ids: Map<Seq<char>, Seq<TrackId>>,
    pub folders: Map<Seq<char>, Seq<(Seq<char>, Seq<char>)>>,
}

/// The tables, without a word on how they belong together.
struct Shelf {
    tracks: IdMap<Track>,
    playlists: IdMap<Playlist>,
    by_isrc: StrMap<TrackId>,
    by_rendition: StrMap<TrackId>,
    by_title: Vec<(String, TrackId)>,
    remote_ids: StrMap<Vec<TrackId>>,
    folders: StrMap<Vec<(String, String)>>,
}

pub open spec fn pair_views(v: Seq<(String, String)>) -> Seq<(Seq<char>, Seq<char>)> {
    v.map_values(|p: (String, String)| (p.0@, p.1@))
}

pub open spec fn title_views(v: Seq<(String, TrackId)>) -> Seq<(Seq<char>, TrackId)> {
    v.map_values(|p: (String, TrackId)| (p.0@, p.1))
}

impl View for Shelf {
    type V = StoreView;

    closed spec fn view(&self) -> StoreView {
        StoreView {
            tracks: self.tracks@.map_values(|t: Track| t@),
            playlists: self.playlists@.map_values(|p: Playlist| p@),
            by_isrc: self.by_isrc@,
            by_rendition: self.by_rendition@,
            by_title: title_views(self.by_title@),
            remote_ids: self.remote_ids@.map_values(|v: Vec<TrackId>| v@),
            folders: self.folders@.map_values(|v: Vec<(String, String)>| pair_views(v@)),
        }
    }
}

/// The index with the keys of a row of renditions.
pub open spec fn with_renditions(
    m: Map<Seq<char>, TrackId>,
    v: Seq<RenditionView>,
    id: TrackId,
) -> Map<Seq<char>, TrackId>
    decreases v.len(),
{
    if v.len() == 0 {
        m
    } else {
        with_renditions(m, v.drop_last(), id).insert(
            rendition_key_of(v.last().source, v.last().uri),
            id,
        )
    }
}

/// The title list without a track.
pub open spec fn titles_without(
    v: Seq<(Seq<char>, TrackId)>,
    id: TrackId,
) -> Seq<(Seq<char>, TrackId)> {
    v.filter(not_track(id))
}

/// Picks the titles of other tracks.
pub open spec fn not_track(id: TrackId) -> spec_fn((Seq<char>, TrackId)) -> bool {
    |p: (Seq<char>, TrackId)| p.1 != id
}

/// The store after a track is written.
pub open spec fn upserted(s: StoreView, t: TrackView) -> StoreView {
    let isrc = without_value(s.by_isrc, t.id);
    StoreView {
        tracks: s.tracks.insert(t.id.0, t),
        by_isrc: match t.isrc {
            Some(i) => isrc.insert(i, t.id),
            None => isrc,
        },
        by_rendition: with_renditions(without_value(s.by_rendition, t.id), t.renditions, t.id),
        by_title: titles_without(s.by_title, t.id).push((norm_of(t.title), t.id)),
        ..s
    }
}

/// The store after a track is deleted.
pub open spec fn deleted(s: StoreView, id: TrackId) -> StoreView {
    StoreView {
        tracks: s.tracks.remove(id.0),
        by_isrc: without_value(s.by_isrc, id),
        by_rendition: without_value(s.by_rendition, id),
        by_title: titles_without(s.by_title, id),
        ..s
    }
}

pub open spec fn track_of(s: StoreView, id: TrackId) -> Option<TrackView> {
    if s.tracks.dom().contains(id.0) {
        Some(s.tracks[id.0])
    } else {
        None
    }
}

pub open spec fn playlist_of(s: StoreView, id: PlaylistId) -> Option<PlaylistView> {
    if s.playlists.dom().contains(id.0) {
        Some(s.playlists[id.0])
    } else {
        None
    }
}

/// The track that an index gives for a key.
pub open spec fn indexed(s: StoreView, m: Map<Seq<char>, TrackId>, k: Seq<char>) -> Option<TrackView> {
    if m.dom().contains(k) {
        track_of(s, m[k])
    } else {
        None
    }
}

pub open spec fn by_rendition_of(s: StoreView, source: Seq<char>, uri: Seq<char>) -> Option<TrackView> {
    indexed(s, s.by_rendition, rendition_key_of(source, uri))
}

/// The tracks whose titles have a compared form, in the order of the title list up to `n`.
pub open spec fn titled(s: StoreView, norm: Seq<char>, n: int) -> Seq<TrackView>
    decreases n,
{
    if n <= 0 || n > s.by_title.len() {
        seq![]
    } else {
        let head = titled(s, norm, n - 1);
        let (t, id) = s.by_title[n - 1];
        if t == norm && s.tracks.dom().contains(id.0) {
            head.push(s.tracks[id.0])
        } else {
            head
        }
    }
}

/// The tracks of a row of identifiers; those that are not there are left out.
pub open spec fn tracks_of(s: StoreView, ids: Seq<TrackId>) -> Seq<TrackView>
    decreases ids.len(),
{
    if ids.len() == 0 {
        seq![]
    } else {
        let head = tracks_of(s, ids.drop_last());
        match track_of(s, ids.last()) {
            Some(t) => head.push(t),
            None => head,
        }
    }
}

pub open spec fn opt_track(t: Option<Track>) -> Option<TrackView> {
    match t {
        Some(t) => Some(t@),
        None => None,
    }
}

pub open spec fn opt_playlist(p: Option<Playlist>) -> Option<PlaylistView> {
    match p {
        Some(p) => Some(p@),
        None => None,
    }
}

impl Shelf {
    fn new() -> (r: Shelf)
        ensures
            r@ == empty_store(),
    {
        let r = Shelf {
            tracks: IdMap::new(),
            playlists: IdMap::new(),
            by_isrc: StrMap::new(),
            by_rendition: StrMap::new(),
            by_title: Vec::new(),
            remote_ids: StrMap::new(),
            folders: StrMap::new(),
        };
        proof {
            assert(r@.tracks =~= Map::empty());
            assert(r@.playlists =~= Map::empty());
            assert(r@.remote_ids =~= Map::empty());
            assert(r@.folders =~= Map::empty());
            assert(r@.by_title =~= seq![]);
        }
        r
    }

    fn drop_title(&mut self, id: TrackId)
        ensures
            final(self)@ == (StoreView {
                by_title: titles_without(old(self)@.by_title, id),
                ..old(self)@
            }),
    {
        let ghost keep = not_track(id);
        let ghost all = title_views(self.by_title@);
        let mut out: Vec<(String, TrackId)> = Vec::new();
        let mut i: usize = 0;
        proof {
            reveal(Seq::filter);
            assert(title_views(out@) =~= all.take(0).filter(keep));
        }
        while i < self.by_title.len()
            invariant
                i <= self.by_title@.len(),
                *self == *old(self),
                all == title_views(self.by_title@),
                keep == not_track(id),
                title_views(out@) == all.take(i as int).filter(keep),
            decreases self.by_title@.len() - i,
        {
            proof {
                all.take(i as int).lemma_filter_push(all[i as int], keep);
                assert(all.take(i + 1) =~= all.take(i as int).push(all[i as int]));
            }
            if self.by_title[i].1 != id {
                let k = self.by_title[i].0.clone();
                let ghost before = out@;
                out.push((k, self.by_title[i].1));
                assert(title_views(out@) =~= title_views(before).push(all[i as int]));
            }
            i = i + 1;
        }
        assert(all.take(i as int) =~= all);
        self.by_title = out;
    }

    fn upsert_track(&mut self, t: &Track)
        ensures
            final(self)@ == upserted(old(self)@, t@),
    {
        let ghost s = self@;
        self.by_isrc.drop_value(t.id);
        self.by_rendition.drop_value(t.id);
        self.drop_title(t.id);
        if let Some(isrc) = &t.isrc {
            self.by_isrc.insert(isrc.clone(), t.id);
        }
        let ghost base = without_value(s.by_rendition, t.id);
        let ghost v = t@.renditions;
        let mut i: usize = 0;
        assert(v.take(0) =~= seq![]);
        let ghost mid = self@;
        while i < t.renditions.len()
            invariant
                i <= t.renditions@.len(),
                v == t@.renditions,
                self@ == (StoreView {
                    by_rendition: with_renditions(base, v.take(i as int), t.id),
                    ..mid
                }),
            decreases t.renditions@.len() - i,
        {
            let k = rendition_key(t.renditions[i].source.as_str(), &t.renditions[i].uri);
            proof {
                assert(v[i as int] == t.renditions@[i as int]@);
                assert(v.take(i + 1).drop_last() =~= v.take(i as int));
                assert(v.take(i + 1).last() == v[i as int]);
            }
            self.by_rendition.insert(k, t.id);
            i = i + 1;
        }
        assert(v.take(i as int) =~= v);
        let norm = Matcher::norm(&t.title);
        let ghost titles = self.by_title@;
        self.by_title.push((norm, t.id));
        assert(title_views(self.by_title@) =~= title_views(titles).push((norm@, t.id)));
        let ghost tracks = self.tracks@;
        let copy = t.clone();
        self.tracks.insert(t.id.0, copy);
        proof {
            assert(self@.tracks =~= s.tracks.insert(t.id.0, t@));
        }
    }

    fn get_track(&self, id: TrackId) -> (r: Option<Track>)
        ensures
            opt_track(r) == track_of(self@, id),
    {
        match self.tracks.get(id.0) {
            Some(t) => Some(t.clone()),
            None => None,
        }
    }

    fn has_track(&self, id: TrackId) -> (r: bool)
        ensures
            r == self@.tracks.dom().contains(id.0),
    {
        self.tracks.contains_key(id.0)
    }

    fn all_tracks(&self) -> (r: Vec<Track>)
        ensures
            forall|t: TrackView| #[trigger] track_views(r@).contains(t) ==> self@.tracks.values().contains(t),
            forall|id: u128| #[trigger] self@.tracks.dom().contains(id) ==> track_views(r@).contains(
                self@.tracks[id],
            ),
            r@.len() == self@.tracks.dom().len(),
    {
        proof {
            use_type_invariant(&self.tracks);
            self.tracks.keys_are_the_domain();
        }
        let ghost keys = self.tracks.keys();
        let ghost vals = self.tracks.values();
        let mut out: Vec<Track> = Vec::new();
        let mut i: usize = 0;
        while i < self.tracks.len()
            invariant
                i <= keys.len(),
                keys == self.tracks.keys(),
                vals == self.tracks.values(),
                keys.len() == vals.len(),
                out@.len() == i,
                forall|j: int| 0 <= j < i ==> (#[trigger] out@[j])@ == vals[j]@,
            decreases keys.len() - i,
        {
            out.push(self.tracks.value_at(i).clone());
            i = i + 1;
        }
        proof {
            let tv = track_views(out@);
            assert forall|t: TrackView| #[trigger] tv.contains(t) implies self@.tracks.values().contains(t) by {
                let j = choose|j: int| 0 <= j < tv.len() && tv[j] == t;
                assert(out@[j]@ == vals[j]@);
                assert(self.tracks@[keys[j]] == vals[j]);
                assert(keys.contains(keys[j]));
                assert(self@.tracks.dom().contains(keys[j]) && self@.tracks[keys[j]] == t);
            }
            assert forall|id: u128| #[trigger] self@.tracks.dom().contains(id) implies tv.contains(
                self@.tracks[id],
            ) by {
                assert(keys.contains(id));
                let j = choose|j: int| 0 <= j < keys.len() && keys[j] == id;
                assert(self.tracks@[keys[j]] == vals[j]);
                assert(out@[j]@ == vals[j]@);
                assert(tv[j] == self@.tracks[id]);
            }
            assert(keys.no_duplicates());
            assert(self@.tracks.dom() =~= keys.to_set());
            keys.unique_seq_to_set();
        }
        out
    }

    fn track_ids(&self) -> (r: Vec<TrackId>)
        ensures
            forall|id: TrackId| r@.contains(id) <==> self@.tracks.dom().contains(id.0),
            forall|i: int, j: int| 0 <= i < j < r@.len() ==> (#[trigger] r@[i]).0 < (#[trigger] r@[j]).0,
    {
        proof {
            use_type_invariant(&self.tracks);
            self.tracks.keys_are_the_domain();
        }
        let ghost keys = self.tracks.keys();
        let mut out: Vec<TrackId> = Vec::new();
        let mut i: usize = 0;
        while i < self.tracks.len()
            invariant
                i <= keys.len(),
                keys == self.tracks.keys(),
                out@.len() == i,
                forall|j: int| 0 <= j < i ==> out@[j] == TrackId(keys[j]),
            decreases keys.len() - i,
        {
            out.push(TrackId(self.tracks.key_at(i)));
            i = i + 1;
        }
        proof {
            assert forall|id: TrackId| out@.contains(id) <==> self@.tracks.dom().contains(id.0) by {
                if self@.tracks.dom().contains(id.0) {
                    assert(keys.contains(id.0));
                    let j = choose|j: int| 0 <= j < keys.len() && keys[j] == id.0;
                    assert(out@[j] == id);
                }
                if out@.contains(id) {
                    let j = choose|j: int| 0 <= j < out@.len() && out@[j] == id;
                    assert(keys[j] == id.0);
                    assert(keys.contains(id.0));
                }
            }
        }
        out
    }

    fn track_by_isrc(&self, isrc: &str) -> (r: Option<Track>)
        ensures
            opt_track(r) == indexed(self@, self@.by_isrc, isrc@),
    {
        match self.by_isrc.get(isrc) {
            Some(id) => self.get_track(*id),
            None => None,
        }
    }

    fn track_by_rendition(&self, source: &SourceId, uri: &str) -> (r: Option<Track>)
        ensures
            opt_track(r) == by_rendition_of(self@, source@, uri@),
    {
        let k = rendition_key(source.as_str(), uri);
        match self.by_rendition.get(&k) {
            Some(id) => self.get_track(*id),
            None => None,
        }
    }

    fn tracks_by_title_norm(&self, norm_title: &str) -> (r: Vec<Track>)
        ensures
            track_views(r@) == titled(self@, norm_title@, self@.by_title.len() as int),
    {
        let ghost s = self@;
        let mut out: Vec<Track> = Vec::new();
        let mut i: usize = 0;
        assert(track_views(out@) =~= seq![]);
        while i < self.by_title.len()
            invariant
                i <= self.by_title@.len(),
                s == self@,
                track_views(out@) == titled(s, norm_title@, i as int),
            decreases self.by_title@.len() - i,
        {
            assert(s.by_title[i as int] == (self.by_title@[i as int].0@, self.by_title@[i as int].1));
            if same_text(&self.by_title[i].0, norm_title) {
                if let Some(t) = self.get_track(self.by_title[i].1) {
                    let ghost before = out@;
                    out.push(t);
                    assert(track_views(out@) =~= track_views(before).push(t@));
                }
            }
            i = i + 1;
        }
        out
    }

    fn delete_track(&mut self, id: TrackId)
        ensures
            final(self)@ == deleted(old(self)@, id),
    {
        self.tracks.remove(id.0);
        self.by_isrc.drop_value(id);
        self.by_rendition.drop_value(id);
        self.drop_title(id);
        assert(self@.tracks =~= old(self)@.tracks.remove(id.0));
    }

    fn upsert_playlist(&mut self, p: &Playlist)
        ensures
            final(self)@ == (StoreView {
                playlists: old(self)@.playlists.insert(p@.id.0, p@),
                ..old(self)@
            }),
    {
        let copy = p.clone();
        self.playlists.insert(p.id.0, copy);
        assert(self@.playlists =~= old(self)@.playlists.insert(p@.id.0, p@));
    }

    fn set_items(&mut self, id: PlaylistId, items: Vec<TrackId>)
        requires
            playlist_of(old(self)@, id) is Some,
        ensures
            final(self)@ == (StoreView {
                playlists: old(self)@.playlists.insert(
                    id.0,
                    PlaylistView { items: items@, ..old(self)@.playlists[id.0] },
                ),
                ..old(self)@
            }),
    {
        if let Some(p) = self.get_playlist(id) {
            let mut p = p;
            p.items = items;
            self.playlists.insert(id.0, p);
        }
        assert(self@.playlists =~= old(self)@.playlists.insert(
            id.0,
            PlaylistView { items: items@, ..old(self)@.playlists[id.0] },
        ));
    }

    fn get_playlist(&self, id: PlaylistId) -> (r: Option<Playlist>)
        ensures
            opt_playlist(r) == playlist_of(self@, id),
    {
        match self.playlists.get(id.0) {
            Some(p) => Some(p.clone()),
            None => None,
        }
    }

    fn playlist_ids(&self) -> (r: Vec<PlaylistId>)
        ensures
            forall|id: u128| self@.playlists.dom().contains(id) <==> r@.contains(PlaylistId(id)),
            r@.no_duplicates(),
            forall|i: int, j: int| 0 <= i < j < r@.len() ==> (#[trigger] r@[i]).0 < (#[trigger] r@[j]).0,
    {
        proof {
            use_type_invariant(&self.playlists);
            self.playlists.keys_are_the_domain();
        }
        let ghost keys = self.playlists.keys();
        let mut out: Vec<PlaylistId> = Vec::new();
        let mut i: usize = 0;
        while i < self.playlists.len()
            invariant
                i <= keys.len(),
                keys == self.playlists.keys(),
                out@.len() == i,
                forall|j: int| 0 <= j < i ==> out@[j] == PlaylistId(keys[j]),
            decreases keys.len() - i,
        {
            out.push(PlaylistId(self.playlists.key_at(i)));
            i = i + 1;
        }
        proof {
            assert forall|id: u128| self@.playlists.dom().contains(id) <==> out@.contains(PlaylistId(id)) by {
                if self@.playlists.dom().contains(id) {
                    assert(keys.contains(id));
                    let j = choose|j: int| 0 <= j < keys.len() && keys[j] == id;
                    assert(out@[j] == PlaylistId(id));
                }
                if out@.contains(PlaylistId(id)) {
                    let j = choose|j: int| 0 <= j < out@.len() && out@[j] == PlaylistId(id);
                    assert(keys[j] == id);
                    assert(keys.contains(id));
                }
            }
        }
        out
    }

    fn delete_playlist(&mut self, id: PlaylistId)
        ensures
            final(self)@ == (StoreView {
                playlists: old(self)@.playlists.remove(id.0),
                ..old(self)@
            }),
    {
        self.playlists.remove(id.0);
        assert(self@.playlists =~= old(self)@.playlists.remove(id.0));
    }

    fn get_tracks(&self, ids: &Vec<TrackId>) -> (r: Vec<Track>)
        ensures
            track_views(r@) == tracks_of(self@, ids@),
    {
        let ghost s = self@;
        let mut out: Vec<Track> = Vec::new();
        let mut i: usize = 0;
        proof {
            assert(ids@.take(0) =~= seq![]);
            assert(track_views(out@) =~= seq![]);
        }
        while i < ids.len()
            invariant
                i <= ids@.len(),
                s == self@,
                track_views(out@) == tracks_of(s, ids@.take(i as int)),
            decreases ids@.len() - i,
        {
            proof {
                assert(ids@.take(i + 1).drop_last() =~= ids@.take(i as int));
                assert(ids@.take(i + 1).last() == ids@[i as int]);
            }
            if let Some(t) = self.get_track(ids[i]) {
                let ghost before = out@;
                out.push(t);
                assert(track_views(out@) =~= track_views(before).push(t@));
            }
            i = i + 1;
        }
        assert(ids@.take(i as int) =~= ids@);
        out
    }

    fn remote_playlist_ids(&self, key: &str) -> (r: Vec<TrackId>)
        ensures
            r@ == (if self@.remote_ids.dom().contains(key@) {
                self@.remote_ids[key@]
            } else {
                seq![]
            }),
    {
        match self.remote_ids.get(key) {
            Some(v) => clone_ids(v),
            None => Vec::new(),
        }
    }

    fn set_remote_playlist_ids(&mut self, key: &str, ids: &Vec<TrackId>)
        ensures
            final(self)@ == (StoreView {
                remote_ids: old(self)@.remote_ids.insert(key@, ids@),
                ..old(self)@
            }),
    {
        let copy = clone_ids(ids);
        self.remote_ids.insert(key.to_owned(), copy);
        assert(self@.remote_ids =~= old(self)@.remote_ids.insert(key@, ids@));
    }

    fn remote_playlist_folders(&self, source: &str) -> (r: Vec<(String, String)>)
        ensures
            pair_views(r@) == (if self@.folders.dom().contains(source@) {
                self@.folders[source@]
            } else {
                seq![]
            }),
    {
        match self.folders.get(source) {
            Some(v) => clone_pairs(v),
            None => {
                let none: Vec<(String, String)> = Vec::new();
                assert(pair_views(none@) =~= seq![]);
                none
            },
        }
    }

    fn set_remote_playlist_folders(&mut self, source: &str, folders: &Vec<(String, String)>)
        ensures
            final(self)@ == (StoreView {
                folders: old(self)@.folders.insert(source@, pair_views(folders@)),
                ..old(self)@
            }),
    {
        let copy = clone_pairs(folders);
        self.folders.insert(source.to_owned(), copy);
        assert(self@.folders =~= old(self)@.folders.insert(source@, pair_views(folders@)));
    }
}

/// The library. Every track and playlist is filed under its own identifier, and every index leads
/// to a track that has what it was filed under.
pub struct MemStore {
    shelf: Shelf,
}

impl View for MemStore {
    type V = StoreView;

    closed spec fn view(&self) -> StoreView {
        self.shelf@
    }
}

impl MemStore {
    #[verifier::type_invariant]
    pub closed spec fn wf(&self) -> bool {
        store_sound(self.shelf@)
    }

    /// What holds of every library.
    pub proof fn is_sound(&self)
        requires
            self.wf(),
        ensures
            store_sound(self@),
    {
    }

    pub fn new() -> (r: MemStore)
        ensures
            r@ == empty_store(),
    {
        MemStore { shelf: Shelf::new() }
    }

    /// Writes a track, in place of one with its identifier.
    pub fn upsert_track(&mut self, t: &Track)
        ensures
            final(self)@ == upserted(old(self)@, t@),
    {
        proof {
            use_type_invariant(&*self);
        }
        let mut shelf = Shelf::new();
        std::mem::swap(&mut shelf, &mut self.shelf);
        shelf.upsert_track(t);
        proof {
            upsert_keeps_indices_sound(old(self)@, t@);
        }
        self.shelf = shelf;
    }

    pub fn get_track(&self, id: TrackId) -> (r: Option<Track>)
        ensures
            opt_track(r) == track_of(self@, id),
    {
        self.shelf.get_track(id)
    }

    pub fn has_track(&self, id: TrackId) -> (r: bool)
        ensures
            r == self@.tracks.dom().contains(id.0),
    {
        self.shelf.has_track(id)
    }

    /// Every track, in the order of the identifiers.
    pub fn all_tracks(&self) -> (r: Vec<Track>)
        ensures
            forall|t: TrackView| #[trigger] track_views(r@).contains(t) ==> self@.tracks.values().contains(t),
            forall|id: u128| #[trigger] self@.tracks.dom().contains(id) ==> track_views(r@).contains(
                self@.tracks[id],
            ),
            r@.len() == self@.tracks.dom().len(),
    {
        self.shelf.all_tracks()
    }

    /// The identifiers of every track, in order.
    pub fn track_ids(&self) -> (r: Vec<TrackId>)
        ensures
            forall|id: TrackId| r@.contains(id) <==> self@.tracks.dom().contains(id.0),
            forall|i: int, j: int| 0 <= i < j < r@.len() ==> (#[trigger] r@[i]).0 < (#[trigger] r@[j]).0,
    {
        self.shelf.track_ids()
    }

    pub fn track_by_isrc(&self, isrc: &str) -> (r: Option<Track>)
        ensures
            opt_track(r) == indexed(self@, self@.by_isrc, isrc@),
    {
        self.shelf.track_by_isrc(isrc)
    }

    pub fn track_by_rendition(&self, source: &SourceId, uri: &str) -> (r: Option<Track>)
        ensures
            opt_track(r) == by_rendition_of(self@, source@, uri@),
    {
        self.shelf.track_by_rendition(source, uri)
    }

    /// The tracks whose titles have this compared form, in the order in which they were written.
    pub fn tracks_by_title_norm(&self, norm_title: &str) -> (r: Vec<Track>)
        ensures
            track_views(r@) == titled(self@, norm_title@, self@.by_title.len() as int),
    {
        self.shelf.tracks_by_title_norm(norm_title)
    }

    pub fn delete_track(&mut self, id: TrackId)
        ensures
            final(self)@ == deleted(old(self)@, id),
    {
        proof {
            use_type_invariant(&*self);
        }
        let mut shelf = Shelf::new();
        std::mem::swap(&mut shelf, &mut self.shelf);
        shelf.delete_track(id);
        proof {
            delete_keeps_indices_sound(old(self)@, id);
        }
        self.shelf = shelf;
    }

    pub fn upsert_playlist(&mut self, p: &Playlist)
        ensures
            final(self)@ == (StoreView {
                playlists: old(self)@.playlists.insert(p@.id.0, p@),
                ..old(self)@
            }),
    {
        proof {
            use_type_invariant(&*self);
        }
        let mut shelf = Shelf::new();
        std::mem::swap(&mut shelf, &mut self.shelf);
        shelf.upsert_playlist(p);
        self.shelf = shelf;
    }

    /// Replaces the items of a playlist that is held.
    pub(crate) fn set_items(&mut self, id: PlaylistId, items: Vec<TrackId>)
        requires
            playlist_of(old(self)@, id) is Some,
        ensures
            final(self)@ == (StoreView {
                playlists: old(self)@.playlists.insert(
                    id.0,
                    PlaylistView { items: items@, ..old(self)@.playlists[id.0] },
                ),
                ..old(self)@
            }),
    {
        proof {
            use_type_invariant(&*self);
        }
        let mut shelf = Shelf::new();
        std::mem::swap(&mut shelf, &mut self.shelf);
        shelf.set_items(id, items);
        self.shelf = shelf;
    }

    pub fn get_playlist(&self, id: PlaylistId) -> (r: Option<Playlist>)
        ensures
            opt_playlist(r) == playlist_of(self@, id),
    {
        self.shelf.get_playlist(id)
    }

    /// The identifiers of every playlist, in order.
    pub fn playlist_ids(&self) -> (r: Vec<PlaylistId>)
        ensures
            forall|id: u128| self@.playlists.dom().contains(id) <==> r@.contains(PlaylistId(id)),
            r@.no_duplicates(),
            forall|i: int, j: int| 0 <= i < j < r@.len() ==> (#[trigger] r@[i]).0 < (#[trigger] r@[j]).0,
    {
        self.shelf.playlist_ids()
    }

    pub fn delete_playlist(&mut self, id: PlaylistId)
        ensures
            final(self)@ == (StoreView {
                playlists: old(self)@.playlists.remove(id.0),
                ..old(self)@
            }),
    {
        proof {
            use_type_invariant(&*self);
        }
        let mut shelf = Shelf::new();
        std::mem::swap(&mut shelf, &mut self.shelf);
        shelf.delete_playlist(id);
        self.shelf = shelf;
    }

    /// The tracks of a row of identifiers; those that are not there are left out.
    pub fn get_tracks(&self, ids: &Vec<TrackId>) -> (r: Vec<Track>)
        ensures
            track_views(r@) == tracks_of(self@, ids@),
    {
        self.shelf.get_tracks(ids)
    }

    /// The remembered tracks of a remote playlist.
    pub fn remote_playlist_ids(&self, key: &str) -> (r: Vec<TrackId>)
        ensures
            r@ == (if self@.remote_ids.dom().contains(key@) {
                self@.remote_ids[key@]
            } else {
                seq![]
            }),
    {
        self.shelf.remote_playlist_ids(key)
    }

    pub fn set_remote_playlist_ids(&mut self, key: &str, ids: &Vec<TrackId>)
        ensures
            final(self)@ == (StoreView {
                remote_ids: old(self)@.remote_ids.insert(key@, ids@),
                ..old(self)@
            }),
    {
        proof {
            use_type_invariant(&*self);
        }
        let mut shelf = Shelf::new();
        std::mem::swap(&mut shelf, &mut self.shelf);
        shelf.set_remote_playlist_ids(key, ids);
        self.shelf = shelf;
    }

    /// The remembered folders of a source: names and path identifiers.
    pub fn remote_playlist_folders(&self, source: &str) -> (r: Vec<(String, String)>)
        ensures
            pair_views(r@) == (if self@.folders.dom().contains(source@) {
                self@.folders[source@]
            } else {
                seq![]
            }),
    {
        self.shelf.remote_playlist_folders(source)
    }

    pub fn set_remote_playlist_folders(&mut self, source: &str, folders: &Vec<(String, String)>)
        ensures
            final(self)@ == (StoreView {
                folders: old(self)@.folders.insert(source@, pair_views(folders@)),
                ..old(self)@
            }),
    {
        proof {
            use_type_invariant(&*self);
        }
        let mut shelf = Shelf::new();
        std::mem::swap(&mut shelf, &mut self.shelf);
        shelf.set_remote_playlist_folders(source, folders);
        self.shelf = shelf;
    }
}

pub fn clone_pairs(v: &Vec<(String, String)>) -> (r: Vec<(String, String)>)
    ensures
        pair_views(r@) == pair_views(v@),
{
    let mut out: Vec<(String, String)> = Vec::new();
    let mut i: usize = 0;
    while i < v.len()
        invariant
            i <= v@.len(),
            out@.len() == i,
            forall|j: int| 0 <= j < i ==> (#[trigger] out@[j]) == v@[j],
        decreases v@.len() - i,
    {
        let a = v[i].0.clone();
        let b = v[i].1.clone();
        out.push((a, b));
        i = i + 1;
    }
    assert(pair_views(out@) =~= pair_views(v@));
    out
}

pub open spec fn empty_store() -> StoreView {
    StoreView {
        tracks: Map::empty(),
        playlists: Map::empty(),
        by_isrc: Map::empty(),
        by_rendition: Map::empty(),
        by_title: seq![],
        remote_ids: Map::empty(),
        folders: Map::empty(),
    }
}

/// Tracks and playlists are filed under their own identifiers, and the indices are sound.
pub open spec fn store_sound(s: StoreView) -> bool {
    &&& indices_sound(s)
    &&& forall|id: u128| #[trigger] s.playlists.dom().contains(id) ==> s.playlists[id].id.0 == id
}

/// Every entry of an index is about a track of the store that has what it was filed under.
pub open spec fn indices_sound(s: StoreView) -> bool {
    &&& forall|id: u128| #[trigger] s.tracks.dom().contains(id) ==> s.tracks[id].id.0 == id
    &&& forall|k: Seq<char>| #[trigger] s.by_isrc.dom().contains(k) ==> {
        &&& s.tracks.dom().contains(s.by_isrc[k].0)
        &&& s.tracks[s.by_isrc[k].0].isrc == Some(k)
    }
    &&& forall|k: Seq<char>| #[trigger] s.by_rendition.dom().contains(k) ==> {
        &&& s.tracks.dom().contains(s.by_rendition[k].0)
        &&& has_rendition_key(s.tracks[s.by_rendition[k].0].renditions, k)
    }
    &&& forall|i: int| 0 <= i < s.by_title.len() ==> {
        &&& s.tracks.dom().contains((#[trigger] s.by_title[i]).1.0)
        &&& norm_of(s.tracks[s.by_title[i].1.0].title) == s.by_title[i].0
    }
}

/// Whether one of the renditions is filed under a key.
pub open spec fn has_rendition_key(v: Seq<RenditionView>, k: Seq<char>) -> bool {
    exists|i: int| 0 <= i < v.len() && #[trigger] rendition_key_of(v[i].source, v[i].uri) == k
}

pub(crate) proof fn lemma_with_renditions(m: Map<Seq<char>, TrackId>, v: Seq<RenditionView>, id: TrackId)
    ensures
        forall|k: Seq<char>| #[trigger] with_renditions(m, v, id).dom().contains(k) <==> m.dom().contains(k) || has_rendition_key(v, k),
        forall|k: Seq<char>| #[trigger] with_renditions(m, v, id).dom().contains(k) ==> with_renditions(m, v, id)[k]
            == (if has_rendition_key(v, k) { id } else { m[k] }),
    decreases v.len(),
{
    if v.len() > 0 {
        let h = v.drop_last();
        lemma_with_renditions(m, h, id);
        let last = rendition_key_of(v.last().source, v.last().uri);
        assert forall|k: Seq<char>| #[trigger] has_rendition_key(v, k) <==> has_rendition_key(h, k) || k == last by {
            if has_rendition_key(v, k) {
                let i = choose|i: int| 0 <= i < v.len() && #[trigger] rendition_key_of(v[i].source, v[i].uri) == k;
                if i < h.len() {
                    assert(rendition_key_of(h[i].source, h[i].uri) == k);
                }
            }
            if has_rendition_key(h, k) {
                let i = choose|i: int| 0 <= i < h.len() && #[trigger] rendition_key_of(h[i].source, h[i].uri) == k;
                assert(rendition_key_of(v[i].source, v[i].uri) == k);
            }
            if k == last {
                let i = v.len() - 1;
                assert(rendition_key_of(v[i].source, v[i].uri) == k);
            }
        }
        let wh = with_renditions(m, h, id);
        let w = with_renditions(m, v, id);
        assert(w == wh.insert(last, id));
        assert forall|k: Seq<char>| #[trigger] w.dom().contains(k) <==> m.dom().contains(k) || has_rendition_key(v, k) by {
            assert(has_rendition_key(v, k) <==> has_rendition_key(h, k) || k == last);
            assert(wh.dom().contains(k) <==> m.dom().contains(k) || has_rendition_key(h, k));
        }
        assert forall|k: Seq<char>| #[trigger] w.dom().contains(k) implies w[k] == (if has_rendition_key(v, k) { id } else { m[k] }) by {
            assert(has_rendition_key(v, k) <==> has_rendition_key(h, k) || k == last);
            if k != last {
                assert(wh.dom().contains(k));
            }
        }
    } else {
        assert forall|k: Seq<char>| !#[trigger] has_rendition_key(v, k) by {}
    }
}

proof fn lemma_titles_without(v: Seq<(Seq<char>, TrackId)>, id: TrackId)
    ensures
        forall|i: int| 0 <= i < titles_without(v, id).len() ==> v.contains(#[trigger] titles_without(v, id)[i])
            && titles_without(v, id)[i].1 != id,
{
    let keep = not_track(id);
    assert forall|i: int| 0 <= i < titles_without(v, id).len() implies v.contains(#[trigger] titles_without(v, id)[i])
        && titles_without(v, id)[i].1 != id by {
        v.lemma_filter_pred(keep, i);
        v.lemma_filter_contains_rev(keep, v.filter(keep)[i]);
    }
}

/// Writing a track keeps the indices sound.
pub proof fn upsert_keeps_indices_sound(s: StoreView, t: TrackView)
    requires
        indices_sound(s),
    ensures
        indices_sound(upserted(s, t)),
{
    let u = upserted(s, t);
    lemma_with_renditions(without_value(s.by_rendition, t.id), t.renditions, t.id);
    lemma_titles_without(s.by_title, t.id);
    let kept = titles_without(s.by_title, t.id);
    assert forall|i: int| 0 <= i < u.by_title.len() implies {
        &&& u.tracks.dom().contains((#[trigger] u.by_title[i]).1.0)
        &&& norm_of(u.tracks[u.by_title[i].1.0].title) == u.by_title[i].0
    } by {
        if i < kept.len() {
            assert(u.by_title[i] == kept[i]);
            assert(s.by_title.contains(kept[i]));
            let j = choose|j: int| 0 <= j < s.by_title.len() && s.by_title[j] == kept[i];
            assert(s.tracks.dom().contains(s.by_title[j].1.0));
            assert(kept[i].1 != t.id);
        }
    }
    assert forall|k: Seq<char>| #[trigger] u.by_rendition.dom().contains(k) implies {
        &&& u.tracks.dom().contains(u.by_rendition[k].0)
        &&& has_rendition_key(u.tracks[u.by_rendition[k].0].renditions, k)
    } by {
        if !has_rendition_key(t.renditions, k) {
            assert(s.by_rendition.dom().contains(k));
        }
    }
    assert forall|k: Seq<char>| #[trigger] u.by_isrc.dom().contains(k) implies {
        &&& u.tracks.dom().contains(u.by_isrc[k].0)
        &&& u.tracks[u.by_isrc[k].0].isrc == Some(k)
    } by {
        if t.isrc != Some(k) {
            assert(s.by_isrc.dom().contains(k));
        }
    }
}

/// Deleting a track keeps the indices sound.
pub proof fn delete_keeps_indices_sound(s: StoreView, id: TrackId)
    requires
        indices_sound(s),
    ensures
        indices_sound(deleted(s, id)),
{
    let u = deleted(s, id);
    lemma_titles_without(s.by_title, id);
    let kept = titles_without(s.by_title, id);
    assert forall|i: int| 0 <= i < u.by_title.len() implies {
        &&& u.tracks.dom().contains((#[trigger] u.by_title[i]).1.0)
        &&& norm_of(u.tracks[u.by_title[i].1.0].title) == u.by_title[i].0
    } by {
        assert(s.by_title.contains(kept[i]));
        let j = choose|j: int| 0 <= j < s.by_title.len() && s.by_title[j] == kept[i];
        assert(s.tracks.dom().contains(s.by_title[j].1.0));
        assert(kept[i].1 != id);
    }
    assert forall|k: Seq<char>| #[trigger] u.by_rendition.dom().contains(k) implies {
        &&& u.tracks.dom().contains(u.by_rendition[k].0)
        &&& has_rendition_key(u.tracks[u.by_rendition[k].0].renditions, k)
    } by {
        assert(s.by_rendition.dom().contains(k));
    }
    assert forall|k: Seq<char>| #[trigger] u.by_isrc.dom().contains(k) implies {
        &&& u.tracks.dom().contains(u.by_isrc[k].0)
        &&& u.tracks[u.by_isrc[k].0].isrc == Some(k)
    } by {
        assert(s.by_isrc.dom().contains(k));
    }
}

/// A track that was written is read back: by its identifier, by its ISRC and by each of its
/// renditions; other tracks are untouched.
pub proof fn read_after_write(s: StoreView, t: TrackView, other: TrackId)
    ensures
        track_of(upserted(s, t), t.id) == Some(t),
        t.isrc matches Some(i) ==> indexed(upserted(s, t), upserted(s, t).by_isrc, i) == Some(t),
        forall|i: int| 0 <= i < t.renditions.len() ==> by_rendition_of(
            upserted(s, t),
            (#[trigger] t.renditions[i]).source,
            t.renditions[i].uri,
        ) == Some(t),
        other != t.id ==> track_of(upserted(s, t), other) == track_of(s, other),
{
    lemma_with_renditions(without_value(s.by_rendition, t.id), t.renditions, t.id);
    assert forall|i: int| 0 <= i < t.renditions.len() implies by_rendition_of(
        upserted(s, t),
        (#[trigger] t.renditions[i]).source,
        t.renditions[i].uri,
    ) == Some(t) by {
        let k = rendition_key_of(t.renditions[i].source, t.renditions[i].uri);
        assert(has_rendition_key(t.renditions, k));
        assert(upserted(s, t).by_rendition.dom().contains(k));
    }
}

/// A deleted track is found in no way.
pub proof fn deleted_is_gone(s: StoreView, id: TrackId, k: Seq<char>)
    ensures
        track_of(deleted(s, id), id) is None,
        deleted(s, id).by_isrc.dom().contains(k) ==> deleted(s, id).by_isrc[k] != id,
        deleted(s, id).by_rendition.dom().contains(k) ==> deleted(s, id).by_rendition[k] != id,
        forall|i: int| 0 <= i < deleted(s, id).by_title.len() ==> (#[trigger] deleted(s, id).by_title[i]).1 != id,
{
    lemma_titles_without(s.by_title, id);
}

} // verus!
