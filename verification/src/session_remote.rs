//! What a session shows of the playlists of its sources, and its warnings.

use vstd::prelude::*;
use crate::folders::folder_views;
use crate::playback::w_warn;
use crate::remote::{list_ids, Browse};
use crate::session::{source_at, Session, SessionView};
use crate::session_events::{Fetch, FetchView};
use crate::traits::BrowseNode;
use crate::types::{track_views, ItemKind, SourceId, Track, TrackId};
use crate::view_cache::{
    changes_of, collection_views, folders_of, list_of, looked_at, row_pending, shown_rows, slice_of, track_pending,
    tracks_in, FolderKind, PendingRows, ResultSet, ViewCache, WINDOW_MARGIN,
};
use crate::warnings::unwell;

verus! {

pub open spec fn opt_fetch(f: Option<Fetch>) -> Option<FetchView> {
    match f {
        Some(f) => Some(f@),
        None => None,
    }
}

/// A session after `want` rows of a list were asked for, and the fetch that is to be made.
pub open spec fn s_look(v: SessionView, want: int, source: Seq<char>, node: Option<Seq<char>>) -> (SessionView, Option<FetchView>) {
    let (c, b) = looked_at(v.cache, v.w.s, source_at(v.sources, source, 0) is Some, want, source, node);
    (
        SessionView { cache: c, ..v },
        match b {
            Some(browse) => Some(FetchView::Tracks { source, node, browse }),
            None => None,
        },
    )
}

fn fetch_of(source: &SourceId, node: &BrowseNode, b: Option<Browse>) -> (r: Option<Fetch>)
    ensures
        opt_fetch(r) == (match b {
            Some(browse) => Some(FetchView::Tracks { source: source@, node: node@, browse }),
            None => None,
        }),
{
    match b {
        Some(browse) => Some(Fetch::Tracks { source: source.clone(), node: node.clone(), browse }),
        None => None,
    }
}

impl ResultSet {
    /// The tracks that were found, in the order in which they came.
    pub fn tracks(&self) -> (r: &Vec<Track>)
        ensures
            track_views(r@) == self@.tracks,
    {
        &self.tracks
    }

    /// The albums, artists and playlists that were found.
    pub fn collections(&self) -> (r: &Vec<(SourceId, ItemKind, String, BrowseNode)>)
        ensures
            collection_views(r@) == self@.collections,
    {
        &self.collections
    }
}

impl ViewCache {
    /// The playlists of a source as far as they are known.
    pub fn remote_playlists(&self, source: &SourceId) -> (r: Vec<(String, BrowseNode)>)
        ensures
            folder_views(r@) == (match folders_of(self@.playlists, source@) {
                Some(f) => f.folders,
                None => seq![],
            }),
    {
        self.remote_folders(FolderKind::Playlists, source)
    }

    /// The saved albums of a source as far as they are known.
    pub fn remote_albums(&self, source: &SourceId) -> (r: Vec<(String, BrowseNode)>)
        ensures
            folder_views(r@) == (match folders_of(self@.albums, source@) {
                Some(f) => f.folders,
                None => seq![],
            }),
    {
        self.remote_folders(FolderKind::Albums, source)
    }

    /// The tracks of which an addition or the removal of every occurrence is under way.
    pub fn remote_pending_ids(&self, source: &SourceId, node: &BrowseNode) -> (r: Vec<TrackId>)
        ensures
            forall|id: TrackId| #[trigger] r@.contains(id) <==> track_pending(changes_of(self@, source@, node@), id),
            r@.no_duplicates(),
    {
        self.remote_pending_rows(source, node).tracks
    }
}

impl Session {
    /// The playlists of a source as far as they are known.
    pub fn remote_playlists(&self, source: &SourceId) -> (r: Vec<(String, BrowseNode)>)
        ensures
            folder_views(r@) == (match folders_of(self@.cache.playlists, source@) {
                Some(f) => f.folders,
                None => seq![],
            }),
    {
        self.cache.remote_playlists(source)
    }

    /// How often the lists of playlists and albums have changed.
    pub fn remote_playlists_gen(&self) -> (r: u64)
        ensures
            r == self@.cache.folders_gen,
    {
        self.cache.remote_playlists_gen()
    }

    /// Whether a fetch of the folders of a source is running.
    pub fn remote_playlists_loading(&self, source: &SourceId) -> (r: bool)
        ensures
            r == ((folders_of(self@.cache.playlists, source@) matches Some(f) && f.browsing) || (folders_of(
                self@.cache.albums,
                source@,
            ) matches Some(f) && f.browsing)),
    {
        self.cache.remote_playlists_loading(source)
    }

    /// How often a list has changed; 0 until it is first looked at.
    pub fn remote_playlist_gen(&self, source: &SourceId, node: &BrowseNode) -> (r: u64)
        ensures
            r == (match list_of(self@.cache, source@, node@) {
                Some(l) => l.generation,
                None => 0,
            }),
    {
        self.cache.remote_playlist_gen(source, node)
    }

    /// Whether more of a list may come; true before anything has.
    pub fn remote_playlist_loading(&self, source: &SourceId, node: &BrowseNode) -> (r: bool)
        ensures
            r == (match list_of(self@.cache, source@, node@) {
                Some(l) => l.partial,
                None => true,
            }),
    {
        self.cache.remote_playlist_loading(source, node)
    }

    /// The tracks of the rows that are shown of a list, and the fetch that looking at it starts.
    pub fn remote_playlist_track_ids(&mut self, source: &SourceId, node: &BrowseNode) -> (r: (Vec<TrackId>, Option<Fetch>))
        ensures
            ({
                let (v, f) = s_look(old(self)@, 0, source@, node@);
                &&& final(self)@ == v
                &&& opt_fetch(r.1) == f
                &&& r.0@ == list_ids(
                    shown_rows(changes_of(v.cache, source@, node@), tracks_in(v.cache, source@, node@)),
                )
            }),
            final(self).playback == old(self).playback,
    {
        let known: bool = self.source(source).is_some();
        let (ids, b) = self.cache.remote_playlist_track_ids(source, node, known, &self.catalog.store);
        (ids, fetch_of(source, node, b))
    }

    /// How many rows are shown of a list, and the fetch that looking at it starts.
    pub fn remote_playlist_len(&mut self, source: &SourceId, node: &BrowseNode) -> (r: (usize, Option<Fetch>))
        ensures
            ({
                let (v, f) = s_look(old(self)@, 0, source@, node@);
                &&& final(self)@ == v
                &&& opt_fetch(r.1) == f
                &&& r.0 == shown_rows(
                    changes_of(v.cache, source@, node@),
                    tracks_in(v.cache, source@, node@),
                ).len()
            }),
            final(self).playback == old(self).playback,
    {
        let known: bool = self.source(source).is_some();
        let (n, b) = self.cache.remote_playlist_len(source, node, known, &self.catalog.store);
        (n, fetch_of(source, node, b))
    }

    /// At most `limit` of the rows that are shown of a list, from `offset` on, and the fetch that
    /// looking at them starts.
    pub fn remote_playlist_window(&mut self, source: &SourceId, node: &BrowseNode, offset: usize, limit: usize) -> (r: (Vec<Track>, Option<Fetch>))
        requires
            offset + limit + WINDOW_MARGIN <= usize::MAX,
        ensures
            ({
                let (v, f) = s_look(old(self)@, offset + limit + WINDOW_MARGIN, source@, node@);
                &&& final(self)@ == v
                &&& opt_fetch(r.1) == f
                &&& track_views(r.0@) == slice_of(
                    shown_rows(changes_of(v.cache, source@, node@), tracks_in(v.cache, source@, node@)),
                    offset as int,
                    limit as int,
                )
            }),
            final(self).playback == old(self).playback,
    {
        let known: bool = self.source(source).is_some();
        let (tracks, b) = self.cache.remote_playlist_window(source, node, offset, limit, known, &self.catalog.store);
        (tracks, fetch_of(source, node, b))
    }

    /// The tracks of which an addition or the removal of every occurrence is under way.
    pub fn remote_pending_ids(&self, source: &SourceId, node: &BrowseNode) -> (r: Vec<TrackId>)
        ensures
            forall|id: TrackId|
                #[trigger] r@.contains(id) <==> track_pending(changes_of(self@.cache, source@, node@), id),
            r@.no_duplicates(),
    {
        self.cache.remote_pending_ids(source, node)
    }

    /// What is shown as being changed in a list.
    pub fn remote_pending_rows(&self, source: &SourceId, node: &BrowseNode) -> (r: PendingRows)
        ensures
            ({
                let v = changes_of(self@.cache, source@, node@);
                &&& forall|id: TrackId| #[trigger] r.tracks@.contains(id) <==> track_pending(v, id)
                &&& forall|row: usize| #[trigger] r.rows@.contains(row) <==> row_pending(v, row)
                &&& r.tracks@.no_duplicates()
                &&& r.rows@.no_duplicates()
            }),
    {
        self.cache.remote_pending_rows(source, node)
    }

    /// Lists a failure among the warnings.
    pub fn warn(&mut self, context: &str, message: &str)
        ensures
            final(self)@ == (SessionView { w: w_warn(old(self)@.w, context@, message@), ..old(self)@ }),
    {
        self.playback.warnings.warn(context, message);
    }

    /// What the warnings button counts.
    pub fn warning_count(&self) -> (r: u64)
        requires
            self@.w.p.warnings.health.len() + self@.w.p.warnings.failures.len() <= u64::MAX,
        ensures
            r == unwell(self@.w.p.warnings.health) + self@.w.p.warnings.failures.len(),
    {
        self.playback.warnings.warning_count()
    }
}

} // verus!
