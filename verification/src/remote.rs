//! The list of a remote playlist as it loads: when it is fetched, what a page means, and how it
//! changes.

use vstd::prelude::*;
use crate::catalog::{ingested, Catalog};
use crate::event::{Bus, CoreEvent};
use crate::ids::random_uuid;
use crate::queue::bumped;
use crate::store::{track_of, StoreView};
use crate::types::{SourceId, Track, TrackId, TrackView, track_views};

verus! {

/// After this many failed pages in a row the list is not tried again.
pub const MAX_PAGE_FAILURES: u32 = 4;

/// How many tracks may be unsaved before a page is saved.
pub const PERSIST_BATCH: usize = 200;

/// The list of a remote playlist.
pub struct RemoteTracks {
    pub tracks: Vec<Track>,
    /// How often the list has changed.
    pub generation: u64,
    /// A page is being folded into the library.
    pub ingesting: bool,
    /// A page is being fetched.
    pub browsing: bool,
    /// There may be more.
    pub partial: bool,
    /// The list was held against the source since it was read from the store.
    pub revalidated: bool,
    /// How many of its tracks are saved.
    pub persisted_len: usize,
    /// The last page could not be fetched.
    pub errored: bool,
    pub consecutive_failures: u32,
    pub failed_at: Option<u64>,
}

pub struct ListView {
    pub tracks: Seq<TrackView>,
    pub generation: u64,
    pub ingesting: bool,
    pub browsing: bool,
    pub partial: bool,
    pub revalidated: bool,
    pub persisted_len: usize,
    pub errored: bool,
    pub consecutive_failures: u32,
    pub failed_at: Option<u64>,
}

impl View for RemoteTracks {
    type V = ListView;

    open spec fn view(&self) -> ListView {
        ListView {
            tracks: track_views(self.tracks@),
            generation: self.generation,
            ingesting: self.ingesting,
            browsing: self.browsing,
            partial: self.partial,
            revalidated: self.revalidated,
            persisted_len: self.persisted_len,
            errored: self.errored,
            consecutive_failures: self.consecutive_failures,
            failed_at: self.failed_at,
        }
    }
}

pub open spec fn list_ids(v: Seq<TrackView>) -> Seq<TrackId> {
    v.map_values(|t: TrackView| t.id)
}

pub open spec fn holds_track(v: Seq<TrackView>, id: TrackId) -> bool {
    exists|i: int| 0 <= i < v.len() && (#[trigger] v[i]).id == id
}

/// A fetch that is to be made.
#[derive(Clone, Copy, Debug, PartialEq, Eq, Structural)]
pub struct Browse {
    /// How many tracks the list has.
    pub cached_len: usize,
    /// The list has not been held against the source yet.
    pub check: bool,
    /// The source's own walk stopped at a failure and is to go on.
    pub retry: bool,
}

/// Whether a list is at rest: being fetched already, complete, or failed with no reason to try
/// again.
pub open spec fn at_rest(e: ListView, want: int) -> bool {
    ||| e.ingesting || e.browsing
    ||| !e.partial && !e.errored
    ||| !e.partial && e.errored && (want <= e.tracks.len() || e.consecutive_failures >= MAX_PAGE_FAILURES)
}

/// A list that starts to be fetched.
pub open spec fn reopened(e: ListView) -> ListView {
    if !e.partial && e.errored {
        ListView { partial: true, errored: false, browsing: true, ..e }
    } else {
        ListView { browsing: true, ..e }
    }
}

/// A list whose page could not be fetched.
pub open spec fn failed_list(e: ListView, now: u64) -> ListView {
    ListView {
        browsing: false,
        partial: false,
        errored: true,
        consecutive_failures: if e.consecutive_failures == u32::MAX {
            u32::MAX
        } else {
            (e.consecutive_failures + 1) as u32
        },
        failed_at: Some(now),
        ..e
    }
}

/// Whether a track has this address at a source.
pub open spec fn has_address(t: TrackView, source: Seq<char>, uri: Seq<char>) -> bool {
    exists|i: int| 0 <= i < t.renditions.len() && (#[trigger] t.renditions[i]).source == source && t.renditions[i].uri == uri
}

/// Whether row `i` of the list is what the source has there.
pub open spec fn row_matches(e: ListView, hits: Seq<TrackView>, source: Seq<char>, i: int) -> bool {
    i < e.tracks.len() && has_address(e.tracks[i], source, hits[i].renditions[0].uri)
}

/// Whether the saved list is not what the source has.
pub open spec fn stale(e: ListView, hits: Seq<TrackView>, source: Seq<char>, cached_len: nat) -> bool {
    ||| hits.len() < cached_len
    ||| exists|i: int| 0 <= i < cached_len && i < hits.len() && !#[trigger] row_matches(e, hits, source, i)
}

/// What a page means for a list.
#[derive(Clone, Copy, Debug, PartialEq, Eq, Structural)]
pub enum Landing {
    /// It stopped short at a failure: the list stays as it is.
    Failed,
    /// Not enough to hold the saved list against.
    NotYet,
    /// The tracks from here on are folded in; from 0 they replace the list.
    Ingest(usize),
    /// Nothing new. The front-end is told where something changed, and the list is saved where
    /// its end was reached.
    Settled { announce: bool, persist: bool },
}

/// What a page means for a list, and the list after it.
pub open spec fn landed(e: ListView, hits: Seq<TrackView>, partial: bool, errored: bool, b: Browse, source: Seq<char>, now: u64) -> (ListView, Landing) {
    if errored {
        (failed_list(e, now), Landing::Failed)
    } else {
        let e1 = ListView { browsing: false, consecutive_failures: 0, ..e };
        if b.check && hits.len() < b.cached_len && partial {
            (e1, Landing::NotYet)
        } else if b.check && stale(e, hits, source, b.cached_len as nat) {
            (ListView { persisted_len: 0, ingesting: true, ..e1 }, Landing::Ingest(0))
        } else {
            let e2 = if b.check {
                ListView { revalidated: true, ..e1 }
            } else {
                e1
            };
            if hits.len() <= b.cached_len {
                let ended = !partial && e.persisted_len < e.tracks.len();
                (
                    ListView {
                        partial,
                        persisted_len: if ended {
                            e.tracks.len() as usize
                        } else {
                            e.persisted_len
                        },
                        ..e2
                    },
                    Landing::Settled { announce: e.partial != partial || ended, persist: ended },
                )
            } else {
                (ListView { ingesting: true, ..e2 }, Landing::Ingest(b.cached_len))
            }
        }
    }
}

/// The list after tracks were folded in, and whether it is to be saved.
pub open spec fn folded_in(e: ListView, skip: nat, new: Seq<TrackView>, partial: bool) -> (ListView, bool) {
    let tracks = if skip == 0 {
        new
    } else {
        e.tracks + new
    };
    let save = !partial || tracks.len() >= e.persisted_len + PERSIST_BATCH;
    (
        ListView {
            tracks,
            generation: bumped(e.generation),
            partial,
            ingesting: false,
            revalidated: true,
            persisted_len: if save {
                tracks.len() as usize
            } else {
                e.persisted_len
            },
            ..e
        },
        save,
    )
}

pub open spec fn other_id(id: TrackId) -> spec_fn(TrackView) -> bool {
    |t: TrackView| t.id != id
}

/// The list after a change that the source accepted, and whether it can no longer be trusted.
pub open spec fn changed_list(e: ListView, added: bool, position: Option<usize>, front: bool, t: TrackView) -> (ListView, bool) {
    let (tracks, reload) = if added {
        if holds_track(e.tracks, t.id) {
            (e.tracks, false)
        } else if front {
            (seq![t] + e.tracks, false)
        } else {
            (e.tracks.push(t), false)
        }
    } else {
        match position {
            Some(row) => if row < e.tracks.len() && e.tracks[row as int].id == t.id {
                (e.tracks.remove(row as int), false)
            } else {
                (e.tracks, true)
            },
            None => (e.tracks.filter(other_id(t.id)), false),
        }
    };
    (
        ListView {
            tracks,
            generation: bumped(e.generation),
            persisted_len: tracks.len() as usize,
            ..e
        },
        reload,
    )
}

pub fn clone_tracks(v: &Vec<Track>) -> (r: Vec<Track>)
    ensures
        track_views(r@) == track_views(v@),
        r@.len() == v@.len(),
{
    let mut out: Vec<Track> = Vec::new();
    let mut i: usize = 0;
    while i < v.len()
        invariant
            i <= v@.len(),
            out@.len() == i,
            forall|j: int| 0 <= j < i ==> (#[trigger] out@[j])@ == v@[j]@,
        decreases v@.len() - i,
    {
        out.push(v[i].clone());
        i = i + 1;
    }
    assert(track_views(out@) =~= track_views(v@));
    out
}

fn at_address(t: &Track, source: &SourceId, uri: &str) -> (r: bool)
    ensures
        r == has_address(t@, source@, uri@),
{
    let ghost v = t@.renditions;
    let mut i: usize = 0;
    while i < t.renditions.len()
        invariant
            i <= t.renditions@.len(),
            v == t@.renditions,
            forall|j: int| 0 <= j < i ==> !((#[trigger] v[j]).source == source@ && v[j].uri == uri@),
        decreases t.renditions@.len() - i,
    {
        assert(v[i as int] == t.renditions@[i as int]@);
        if t.renditions[i].source.same(source) && crate::text::same_text(&t.renditions[i].uri, uri) {
            return true;
        }
        i = i + 1;
    }
    false
}

/// Whether a list is loaded, and what it then says of a track.
#[derive(Clone, Copy, Debug, PartialEq, Eq, Structural)]
pub enum Loaded {
    NotYet,
    /// It is complete; whether the track is in it.
    Complete(bool),
    /// It stopped short.
    Broken,
}

pub open spec fn loaded_of(e: ListView, id: TrackId) -> Loaded {
    if e.partial || e.browsing || e.ingesting {
        Loaded::NotYet
    } else if e.errored {
        Loaded::Broken
    } else {
        Loaded::Complete(holds_track(e.tracks, id))
    }
}

impl RemoteTracks {
    /// A list that nothing is known of.
    pub fn empty() -> (r: RemoteTracks)
        ensures
            r@ == (ListView {
                tracks: seq![],
                generation: 0,
                ingesting: false,
                browsing: false,
                partial: true,
                revalidated: true,
                persisted_len: 0,
                errored: false,
                consecutive_failures: 0,
                failed_at: None,
            }),
    {
        let r = RemoteTracks {
            tracks: Vec::new(),
            generation: 0,
            ingesting: false,
            browsing: false,
            partial: true,
            revalidated: true,
            persisted_len: 0,
            errored: false,
            consecutive_failures: 0,
            failed_at: None,
        };
        assert(r@.tracks =~= seq![]);
        r
    }

    /// A list that is read from the store and starts to be fetched.
    pub fn hydrated(tracks: Vec<Track>) -> (r: (RemoteTracks, Browse))
        ensures
            r.0@ == (ListView {
                tracks: track_views(tracks@),
                generation: 1,
                ingesting: false,
                browsing: true,
                partial: true,
                revalidated: tracks@.len() == 0,
                persisted_len: tracks@.len() as usize,
                errored: false,
                consecutive_failures: 0,
                failed_at: None,
            }),
            r.1 == (Browse {
                cached_len: tracks@.len() as usize,
                check: tracks@.len() > 0,
                retry: false,
            }),
    {
        let n: usize = tracks.len();
        (
            RemoteTracks {
                tracks,
                generation: 1,
                ingesting: false,
                browsing: true,
                partial: true,
                revalidated: n == 0,
                persisted_len: n,
                errored: false,
                consecutive_failures: 0,
                failed_at: None,
            },
            Browse { cached_len: n, check: n > 0, retry: false },
        )
    }

    /// Starts a fetch, unless the list is at rest. `want` is how many tracks are asked for.
    pub fn start_browse(&mut self, want: usize) -> (r: Option<Browse>)
        ensures
            if at_rest(old(self)@, want as int) {
                r is None && final(self)@ == old(self)@
            } else {
                &&& final(self)@ == reopened(old(self)@)
                &&& r == Some(
                    Browse {
                        cached_len: old(self)@.tracks.len() as usize,
                        check: !old(self)@.revalidated,
                        retry: !old(self)@.partial && old(self)@.errored,
                    },
                )
            },
    {
        if self.ingesting || self.browsing {
            return None;
        }
        if !self.partial && !self.errored {
            return None;
        }
        if !self.partial && (want <= self.tracks.len() || self.consecutive_failures >= MAX_PAGE_FAILURES) {
            return None;
        }
        let retry: bool = !self.partial && self.errored;
        if retry {
            self.partial = true;
            self.errored = false;
        }
        self.browsing = true;
        Some(Browse { cached_len: self.tracks.len(), check: !self.revalidated, retry })
    }

    /// The page could not be fetched.
    pub fn page_failed(&mut self, now: u64)
        ensures
            final(self)@ == failed_list(old(self)@, now),
    {
        self.browsing = false;
        self.partial = false;
        self.errored = true;
        self.consecutive_failures = self.consecutive_failures.saturating_add(1);
        self.failed_at = Some(now);
    }

    fn is_stale(&self, hits: &Vec<Track>, source: &SourceId, cached_len: usize) -> (r: bool)
        requires
            forall|i: int| 0 <= i < hits@.len() ==> (#[trigger] hits@[i]).renditions@.len() == 1,
        ensures
            r == stale(self@, track_views(hits@), source@, cached_len as nat),
    {
        if hits.len() < cached_len {
            return true;
        }
        let ghost e = self@;
        let ghost hv = track_views(hits@);
        let mut i: usize = 0;
        while i < cached_len
            invariant
                i <= cached_len <= hits@.len(),
                e == self@,
                hv == track_views(hits@),
                forall|i: int| 0 <= i < hits@.len() ==> (#[trigger] hits@[i]).renditions@.len() == 1,
                forall|j: int| 0 <= j < i ==> #[trigger] row_matches(e, hv, source@, j),
            decreases cached_len - i,
        {
            assert(hv[i as int] == hits@[i as int]@);
            assert(hv[i as int].renditions[0] == hits@[i as int].renditions@[0]@);
            if i >= self.tracks.len() {
                assert(!row_matches(e, hv, source@, i as int));
                return true;
            }
            assert(e.tracks[i as int] == self.tracks@[i as int]@);
            if !at_address(&self.tracks[i], source, &hits[i].rendition().uri) {
                assert(!row_matches(e, hv, source@, i as int));
                return true;
            }
            assert(row_matches(e, hv, source@, i as int));
            i = i + 1;
        }
        false
    }

    /// Takes a page: `hits` is the list as far as the source has it.
    pub fn page_landed(&mut self, hits: &Vec<Track>, partial: bool, errored: bool, b: Browse, source: &SourceId, now: u64) -> (r: Landing)
        requires
            forall|i: int| 0 <= i < hits@.len() ==> (#[trigger] hits@[i]).renditions@.len() == 1,
        ensures
            (final(self)@, r) == landed(old(self)@, track_views(hits@), partial, errored, b, source@, now),
    {
        if errored {
            self.page_failed(now);
            return Landing::Failed;
        }
        let stale_list: bool = b.check && !(hits.len() < b.cached_len && partial) && self.is_stale(
            hits,
            source,
            b.cached_len,
        );
        self.browsing = false;
        self.consecutive_failures = 0;
        if b.check {
            if hits.len() < b.cached_len && partial {
                return Landing::NotYet;
            }
            if stale_list {
                self.persisted_len = 0;
                self.ingesting = true;
                return Landing::Ingest(0);
            }
            self.revalidated = true;
        }
        if hits.len() <= b.cached_len {
            let moved: bool = self.partial != partial;
            self.partial = partial;
            let ended: bool = !partial && self.persisted_len < self.tracks.len();
            if ended {
                self.persisted_len = self.tracks.len();
            }
            return Landing::Settled { announce: moved || ended, persist: ended };
        }
        self.ingesting = true;
        Landing::Ingest(b.cached_len)
    }

    /// Takes the tracks that were folded into the library; says whether the list is to be saved.
    pub fn tracks_folded(&mut self, skip: usize, new: Vec<Track>, partial: bool) -> (save: bool)
        ensures
            (final(self)@, save) == folded_in(old(self)@, skip as nat, track_views(new@), partial),
    {
        if skip == 0 {
            self.tracks = new;
        } else {
            let mut new = new;
            let ghost was = self.tracks@;
            let ghost more = new@;
            self.tracks.append(&mut new);
            assert(track_views(self.tracks@) =~= track_views(was) + track_views(more));
        }
        self.generation = self.generation.wrapping_add(1);
        self.partial = partial;
        self.ingesting = false;
        self.revalidated = true;
        let n: usize = self.tracks.len();
        let save: bool = !partial || (n >= self.persisted_len && n - self.persisted_len >= PERSIST_BATCH);
        if save {
            self.persisted_len = n;
        }
        save
    }

    fn position_of(&self, id: TrackId) -> (r: Option<usize>)
        ensures
            match r {
                Some(i) => i < self.tracks@.len() && self@.tracks[i as int].id == id,
                None => !holds_track(self@.tracks, id),
            },
            r is Some ==> holds_track(self@.tracks, id),
    {
        let ghost v = self@.tracks;
        let mut i: usize = 0;
        while i < self.tracks.len()
            invariant
                i <= self.tracks@.len(),
                v == self@.tracks,
                forall|j: int| 0 <= j < i ==> (#[trigger] v[j]).id != id,
            decreases self.tracks@.len() - i,
        {
            assert(v[i as int] == self.tracks@[i as int]@);
            if self.tracks[i].id == id {
                return Some(i);
            }
            i = i + 1;
        }
        None
    }

    /// Whether the list holds a track.
    pub fn holds(&self, id: TrackId) -> (r: bool)
        ensures
            r == holds_track(self@.tracks, id),
    {
        self.position_of(id).is_some()
    }

    /// Takes a change that the source accepted; says whether the list can no longer be trusted.
    pub fn change(&mut self, added: bool, position: Option<usize>, front: bool, track: &Track) -> (reload: bool)
        ensures
            (final(self)@, reload) == changed_list(old(self)@, added, position, front, track@),
    {
        let ghost was = self.tracks@;
        let ghost v = track_views(was);
        let mut reload: bool = false;
        if added {
            if !self.holds(track.id) {
                if front {
                    self.tracks.insert(0, track.clone());
                    assert(track_views(self.tracks@) =~= seq![track@] + v);
                } else {
                    self.tracks.push(track.clone());
                    assert(track_views(self.tracks@) =~= v.push(track@));
                }
            }
        } else {
            match position {
                Some(row) => {
                    if row < self.tracks.len() && self.tracks[row].id == track.id {
                        assert(v[row as int] == was[row as int]@);
                        self.tracks.remove(row);
                        assert(track_views(self.tracks@) =~= v.remove(row as int));
                    } else {
                        if row < self.tracks.len() {
                            assert(v[row as int] == was[row as int]@);
                        }
                        reload = true;
                    }
                },
                None => {
                    self.drop_track(track.id);
                },
            }
        }
        self.generation = self.generation.wrapping_add(1);
        self.persisted_len = self.tracks.len();
        reload
    }

    fn drop_track(&mut self, id: TrackId)
        ensures
            final(self)@ == (ListView {
                tracks: old(self)@.tracks.filter(other_id(id)),
                ..old(self)@
            }),
    {
        let ghost v = track_views(self.tracks@);
        let ghost keep = other_id(id);
        let mut all: Vec<Track> = Vec::new();
        std::mem::swap(&mut all, &mut self.tracks);
        let mut out: Vec<Track> = Vec::new();
        let mut i: usize = 0;
        proof {
            reveal(Seq::filter);
            assert(track_views(out@) =~= v.take(0).filter(keep));
        }
        while i < all.len()
            invariant
                i <= all@.len(),
                v == track_views(all@),
                keep == other_id(id),
                track_views(out@) == v.take(i as int).filter(keep),
            decreases all@.len() - i,
        {
            proof {
                v.take(i as int).lemma_filter_push(v[i as int], keep);
                assert(v.take(i + 1) =~= v.take(i as int).push(v[i as int]));
                assert(v[i as int] == all@[i as int]@);
            }
            if all[i].id != id {
                let ghost before = out@;
                out.push(all[i].clone());
                assert(track_views(out@) =~= track_views(before).push(v[i as int]));
            }
            i = i + 1;
        }
        assert(v.take(i as int) =~= v);
        self.tracks = out;
    }

    /// Whether a row holds a track; without a row it always does.
    pub fn row_holds(&self, position: Option<usize>, id: TrackId) -> (r: bool)
        ensures
            r == (position matches Some(row) ==> row < self@.tracks.len() && self@.tracks[row as int].id == id),
    {
        match position {
            None => true,
            Some(row) => row < self.tracks.len() && self.tracks[row].id == id,
        }
    }

    /// Whether the list is loaded, and what it then says of a track.
    pub fn loaded(&self, id: TrackId) -> (r: Loaded)
        ensures
            r == loaded_of(self@, id),
    {
        if self.partial || self.browsing || self.ingesting {
            Loaded::NotYet
        } else if self.errored {
            Loaded::Broken
        } else {
            Loaded::Complete(self.holds(id))
        }
    }

    /// The identifiers of the list.
    pub fn ids(&self) -> (r: Vec<TrackId>)
        ensures
            r@ == list_ids(self@.tracks),
    {
        let mut out: Vec<TrackId> = Vec::new();
        let mut i: usize = 0;
        while i < self.tracks.len()
            invariant
                i <= self.tracks@.len(),
                out@.len() == i,
                forall|j: int| 0 <= j < i ==> out@[j] == self@.tracks[j].id,
            decreases self.tracks@.len() - i,
        {
            out.push(self.tracks[i].id);
            i = i + 1;
        }
        assert(out@ =~= list_ids(self@.tracks));
        out
    }
}

/// What folding a row of hits into the library comes to: the store, the tracks that the hits
/// belong to, and the tracks that are announced. A new track gets the identifier at its hit's
/// place.
pub open spec fn folded(s: StoreView, hits: Seq<TrackView>, ids: Seq<TrackId>) -> (StoreView, Seq<TrackView>, Seq<CoreEvent>)
    decreases hits.len(),
{
    if hits.len() == 0 {
        (s, seq![], seq![])
    } else {
        let (s1, v, ev) = folded(s, hits.drop_last(), ids.drop_last());
        let (s2, t, written) = ingested(s1, hits.last(), ids.last());
        (
            s2,
            match track_of(s2, t) {
                Some(x) => v.push(x),
                None => v,
            },
            if written {
                ev.push(CoreEvent::TrackUpdated(t))
            } else {
                ev
            },
        )
    }
}

/// Folds the hits from `skip` on into the library.
pub fn fold_hits(catalog: &mut Catalog, hits: &Vec<Track>, skip: usize, ids: &Vec<TrackId>, bus: &mut Bus) -> (r: Vec<Track>)
    requires
        skip <= hits@.len(),
        ids@.len() == hits@.len() - skip,
        forall|i: int| 0 <= i < hits@.len() ==> (#[trigger] hits@[i]).renditions@.len() == 1,
    ensures
        ({
            let (s, v, ev) = folded(old(catalog).store@, track_views(hits@).skip(skip as int), ids@);
            &&& final(catalog).store@ == s
            &&& track_views(r@) == v
            &&& final(bus)@ == old(bus)@ + ev
        }),
        final(catalog).playlists_gen == old(catalog).playlists_gen,
        final(catalog).removed_gen == old(catalog).removed_gen,
{
    let ghost hv = track_views(hits@).skip(skip as int);
    let ghost s = catalog.store@;
    let ghost before = bus@;
    let mut out: Vec<Track> = Vec::new();
    let mut i: usize = 0;
    let n: usize = ids.len();
    let total: usize = hits.len();
    proof {
        assert(hv.take(0) =~= seq![]);
        assert(ids@.take(0) =~= seq![]);
        assert(track_views(out@) =~= seq![]);
        assert(before + Seq::<CoreEvent>::empty() =~= before);
    }
    while i < n
        invariant
            i <= n == ids@.len(),
            skip + n == total == hits@.len(),
            hv == track_views(hits@).skip(skip as int),
            forall|i: int| 0 <= i < hits@.len() ==> (#[trigger] hits@[i]).renditions@.len() == 1,
            catalog.store@ == folded(s, hv.take(i as int), ids@.take(i as int)).0,
            track_views(out@) == folded(s, hv.take(i as int), ids@.take(i as int)).1,
            bus@ == before + folded(s, hv.take(i as int), ids@.take(i as int)).2,
            catalog.playlists_gen == old(catalog).playlists_gen,
            catalog.removed_gen == old(catalog).removed_gen,
        decreases n - i,
    {
        proof {
            assert(hv.take(i + 1).drop_last() =~= hv.take(i as int));
            assert(ids@.take(i + 1).drop_last() =~= ids@.take(i as int));
            assert(hv.take(i + 1).last() == hits@[skip + i]@);
            assert(ids@.take(i + 1).last() == ids@[i as int]);
        }
        let ghost mid = bus@;
        let ghost ev = folded(s, hv.take(i as int), ids@.take(i as int)).2;
        let id = catalog.ingest_with(&hits[skip + i], ids[i], bus);
        let ghost old_out = out@;
        if let Some(t) = catalog.store.get_track(id) {
            out.push(t);
            assert(track_views(out@) =~= track_views(old_out).push(t@));
        }
        proof {
            assert(before + ev.push(CoreEvent::TrackUpdated(id)) =~= (before + ev).push(CoreEvent::TrackUpdated(id)));
        }
        i = i + 1;
    }
    assert(hv.take(n as int) =~= hv);
    assert(ids@.take(n as int) =~= ids@);
    out
}

/// A row of new random identifiers.
pub fn new_ids(n: usize) -> (r: Vec<TrackId>)
    ensures
        r@.len() == n,
        forall|i: int| 0 <= i < n ==> random_uuid((#[trigger] r@[i]).0),
{
    let mut out: Vec<TrackId> = Vec::new();
    while out.len() < n
        invariant
            out@.len() <= n,
            forall|i: int| 0 <= i < out@.len() ==> random_uuid((#[trigger] out@[i]).0),
        decreases n - out@.len(),
    {
        out.push(TrackId::new());
    }
    out
}

/// A page that stopped short at a failure never changes the list or what is saved of it.
pub proof fn failures_keep_the_list(e: ListView, hits: Seq<TrackView>, partial: bool, b: Browse, source: Seq<char>, now: u64)
    ensures
        landed(e, hits, partial, true, b, source, now).0.tracks == e.tracks,
        landed(e, hits, partial, true, b, source, now).0.persisted_len == e.persisted_len,
        landed(e, hits, partial, true, b, source, now).0.generation == e.generation,
        failed_list(e, now).tracks == e.tracks,
{
}

/// A complete list is at rest, whatever is asked of it; one that failed too often is too.
pub proof fn frozen_lists_stay(e: ListView, want: int)
    requires
        !e.partial,
        !e.errored || e.consecutive_failures >= MAX_PAGE_FAILURES,
    ensures
        at_rest(e, want),
{
}

/// A list that failed is fetched again once more is asked for than it has, until it has failed
/// too often.
pub proof fn demand_reopens_a_failed_list(e: ListView, now: u64, want: int)
    requires
        !e.ingesting,
        e.consecutive_failures < MAX_PAGE_FAILURES - 1,
        want > e.tracks.len(),
    ensures
        !at_rest(failed_list(e, now), want),
        !reopened(failed_list(e, now)).errored,
{
}

/// One fetch runs at a time.
pub proof fn one_fetch_at_a_time(e: ListView, want: int, again: int)
    requires
        !at_rest(e, want),
    ensures
        at_rest(reopened(e), again),
{
}

/// Removing every occurrence of a track leaves none, and adding it gives one.
pub proof fn changes_take_hold(e: ListView, front: bool, t: TrackView)
    ensures
        !holds_track(changed_list(e, false, None, front, t).0.tracks, t.id),
        holds_track(changed_list(e, true, None, front, t).0.tracks, t.id),
{
    let v = e.tracks;
    let out = changed_list(e, false, None, front, t).0.tracks;
    assert forall|i: int| 0 <= i < out.len() implies (#[trigger] out[i]).id != t.id by {
        v.lemma_filter_pred(other_id(t.id), i);
    }
    if !holds_track(v, t.id) {
        let w = changed_list(e, true, None, front, t).0.tracks;
        if front {
            assert(w[0].id == t.id);
        } else {
            assert(w[v.len() as int].id == t.id);
        }
    }
}

} // verus!
