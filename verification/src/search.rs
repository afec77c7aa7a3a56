//! Searches over all sources at once.

use vstd::prelude::*;
use crate::catalog::{ingested, Catalog};
use crate::event::{Bus, CoreEvent};
use crate::idmap::IdMap;
use crate::queue::bumped;
use crate::traits::{error_message, BrowseNode, Error};
use crate::types::{ItemKind, SearchQuery, SourceId, Track, TrackId};

verus! {

/// The searches that were started, and which of them are still wanted.
pub struct Search {
    next: u64,
    live: IdMap<()>,
}

/// The number of the last search and the searches that are still wanted.
pub struct SearchView {
    pub last: u64,
    pub live: Set<u128>,
}

impl View for Search {
    type V = SearchView;

    closed spec fn view(&self) -> SearchView {
        SearchView { last: self.next, live: self.live@.dom() }
    }
}

/// The kinds of collections that a search asks for, albums before playlists.
pub open spec fn collections_of(kinds: Seq<ItemKind>) -> Seq<ItemKind> {
    (if kinds.contains(ItemKind::Album) {
        seq![ItemKind::Album]
    } else {
        seq![]
    }) + (if kinds.contains(ItemKind::Playlist) {
        seq![ItemKind::Playlist]
    } else {
        seq![]
    })
}

fn has_kind(kinds: &Vec<ItemKind>, kind: ItemKind) -> (r: bool)
    ensures
        r == kinds@.contains(kind),
{
    let mut i: usize = 0;
    while i < kinds.len()
        invariant
            i <= kinds@.len(),
            forall|j: int| 0 <= j < i ==> kinds@[j] != kind,
        decreases kinds@.len() - i,
    {
        if kinds[i] == kind {
            return true;
        }
        i = i + 1;
    }
    false
}

/// The kinds of collections to ask a source for once its tracks were found.
pub fn collections_wanted(q: &SearchQuery) -> (r: Vec<ItemKind>)
    ensures
        r@ == collections_of(q.kinds@),
{
    let mut out: Vec<ItemKind> = Vec::new();
    if has_kind(&q.kinds, ItemKind::Album) {
        out.push(ItemKind::Album);
    }
    if has_kind(&q.kinds, ItemKind::Playlist) {
        out.push(ItemKind::Playlist);
    }
    assert(out@ =~= collections_of(q.kinds@));
    out
}

impl Search {
    pub fn new() -> (r: Search)
        ensures
            r@.last == 0,
            r@.live == Set::<u128>::empty(),
    {
        let r = Search { next: 0, live: IdMap::new() };
        assert(r@.live =~= Set::empty());
        r
    }

    /// Starts a search: its number, which every event of it carries.
    pub fn run(&mut self) -> (id: u64)
        ensures
            id == bumped(old(self)@.last),
            final(self)@.last == id,
            final(self)@.live == old(self)@.live.insert(id as u128),
    {
        self.next = self.next.wrapping_add(1);
        self.live.insert(self.next as u128, ());
        assert(self@.live =~= old(self)@.live.insert(self.next as u128));
        self.next
    }

    /// Cancels a search: nothing more is reported for it.
    pub fn forget(&mut self, id: u64)
        ensures
            final(self)@.last == old(self)@.last,
            final(self)@.live == old(self)@.live.remove(id as u128),
    {
        self.live.remove(id as u128);
        assert(self@.live =~= old(self)@.live.remove(id as u128));
    }

    /// Whether a search is still wanted.
    pub fn wanted(&self, id: u64) -> (r: bool)
        ensures
            r == self@.live.contains(id as u128),
    {
        self.live.contains_key(id as u128)
    }

    /// Takes a track that a source found; `fresh` is the identifier that a new track gets.
    pub fn on_hit(&self, id: u64, hit: &Track, fresh: TrackId, catalog: &mut Catalog, bus: &mut Bus)
        requires
            hit.renditions@.len() == 1,
        ensures
            if self@.live.contains(id as u128) {
                let (s, t, written) = ingested(old(catalog).store@, hit@, fresh);
                &&& final(catalog).store@ == s
                &&& final(bus)@ == (if written {
                    old(bus)@.push(CoreEvent::TrackUpdated(t))
                } else {
                    old(bus)@
                }).push(CoreEvent::SearchHit { search: id, track: t })
            } else {
                &&& final(catalog).store@ == old(catalog).store@
                &&& final(bus)@ == old(bus)@
            },
    {
        if self.wanted(id) {
            let t = catalog.ingest_with(hit, fresh, bus);
            bus.send(CoreEvent::SearchHit { search: id, track: t });
        }
    }

    /// Takes a collection that a source found.
    pub fn on_collection(&self, id: u64, source: &SourceId, kind: ItemKind, name: String, node: BrowseNode, bus: &mut Bus)
        ensures
            if self@.live.contains(id as u128) {
                &&& final(bus)@.len() == old(bus)@.len() + 1
                &&& final(bus)@.drop_last() == old(bus)@
                &&& final(bus)@.last() matches CoreEvent::SearchCollection { search, source: s, kind: k, name: n, node: d }
                    && search == id && s@ == source@ && k == kind && n == name && d == node
            } else {
                final(bus)@ == old(bus)@
            },
    {
        if self.wanted(id) {
            bus.send(CoreEvent::SearchCollection { search: id, source: source.clone(), kind, name, node });
            assert(bus@.drop_last() =~= old(bus)@);
        }
    }

    /// Takes the end of a source's part in a search; of a search that was cancelled even a failure
    /// is not reported.
    pub fn on_done(&self, id: u64, source: &SourceId, result: Result<(), Error>, bus: &mut Bus)
        ensures
            if self@.live.contains(id as u128) {
                &&& final(bus)@.len() == old(bus)@.len() + 1
                &&& final(bus)@.drop_last() == old(bus)@
                &&& match result {
                    Ok(_) => final(bus)@.last() matches CoreEvent::SearchDone { search, source: s } && search == id
                        && s@ == source@,
                    Err(e) => final(bus)@.last() matches CoreEvent::BackgroundFailure { context, message } && context@
                        == source@ && message@ == "search: "@ + error_message(e),
                }
            } else {
                final(bus)@ == old(bus)@
            },
    {
        if !self.wanted(id) {
            return;
        }
        match result {
            Ok(_) => {
                bus.send(CoreEvent::SearchDone { search: id, source: source.clone() });
                assert(bus@.drop_last() =~= old(bus)@);
            },
            Err(e) => {
                let mut m = "search: ".to_owned();
                m.append(&e.message());
                bus.send(CoreEvent::BackgroundFailure { context: source.as_str().to_owned(), message: m });
                assert(bus@.drop_last() =~= old(bus)@);
            },
        }
    }
}

} // verus!
