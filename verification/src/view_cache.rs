//! What the front-end shows of searches and remote playlists, kept so that drawing never waits
//! for a source. Times are milliseconds of a clock that never goes back.

use vstd::prelude::*;
use crate::catalog::Catalog;
use crate::event::{Bus, CoreEvent, MembershipOutcome};
use crate::folders::{
    clone_folders, folder_step, folder_views, folders_due, folders_landed, from_stored, to_store, Folders,
    FolderStep, FoldersView, PLAYLISTS_RETRY_FLOOR,
};
use crate::idmap::IdMap;
use crate::queue::bumped;
use crate::remote::{
    at_rest, changed_list, clone_tracks, failed_list, folded, folded_in, fold_hits, holds_track, landed, list_ids,
    loaded_of, reopened, Browse, Landing, ListView, Loaded, RemoteTracks,
};
use crate::scan::within;
use crate::store::{track_of, tracks_of, MemStore, StoreView};
use crate::strmap::StrMap;
use crate::text::{debug_text, quoted};
use crate::traits::{error_message, BrowseNode, Error};
use crate::types::{ItemKind, SourceId, Track, TrackId, TrackView, track_views};

verus! {

/// How far ahead of what is shown a list is asked for.
pub const WINDOW_MARGIN: usize = 50;

/// How often a change looks whether its list has loaded, and how long it waits for that.
pub const MEMBERSHIP_POLL: u64 = 250;

pub const MEMBERSHIP_LOAD_TIMEOUT: u64 = 300_000;

/// The key of a list in the cache.
pub open spec fn list_key_of(source: Seq<char>, node: Option<Seq<char>>) -> Seq<char> {
    match node {
        None => source + seq!['\0'],
        Some(p) => source + seq!['\0', '/'] + p,
    }
}

fn list_key(source: &SourceId, node: &BrowseNode) -> (r: String)
    ensures
        r@ == list_key_of(source@, node@),
{
    let mut s = source.as_str().to_owned();
    s.push('\0');
    if let BrowseNode::Path(p) = node {
        s.push('/');
        s.append(p);
        assert(s@ =~= list_key_of(source@, node@));
    }
    s
}

/// Different lists have different keys, for sources whose names hold no null character.
pub proof fn list_keys_are_distinct(s: Seq<char>, n: Option<Seq<char>>, t: Seq<char>, m: Option<Seq<char>>)
    requires
        !s.contains('\0'),
        !t.contains('\0'),
        list_key_of(s, n) == list_key_of(t, m),
    ensures
        s == t && n == m,
{
    let a = list_key_of(s, n);
    let b = list_key_of(t, m);
    assert(a[s.len() as int] == '\0');
    assert(b[t.len() as int] == '\0');
    if s.len() < t.len() {
        assert(t[s.len() as int] == b[s.len() as int]);
        assert(t.contains('\0'));
    }
    if t.len() < s.len() {
        assert(s[t.len() as int] == a[t.len() as int]);
        assert(s.contains('\0'));
    }
    assert(a.take(s.len() as int) =~= s);
    assert(b.take(t.len() as int) =~= t);
    assert(a.len() == s.len() + (if n is Some {
        2 + n->0.len()
    } else {
        1
    }));
    assert(b.len() == t.len() + (if m is Some {
        2 + m->0.len()
    } else {
        1
    }));
    if n is Some && m is Some {
        assert(a.skip(s.len() as int + 2) =~= n->0);
        assert(b.skip(t.len() as int + 2) =~= m->0);
    }
}

/// The key of a list in the store.
pub open spec fn store_key_of(source: Seq<char>, node: Option<Seq<char>>) -> Seq<char> {
    match node {
        None => source,
        Some(p) => source + seq![':'] + p,
    }
}

pub fn remote_playlist_cache_key(source: &SourceId, node: &BrowseNode) -> (r: String)
    ensures
        r@ == store_key_of(source@, node@),
{
    let mut s = source.as_str().to_owned();
    if let BrowseNode::Path(p) = node {
        s.push(':');
        s.append(p);
        assert(s@ =~= store_key_of(source@, node@));
    }
    s
}

/// What one search found.
pub struct ResultSet {
    pub query: String,
    pub tracks: Vec<Track>,
    pub collections: Vec<(SourceId, ItemKind, String, BrowseNode)>,
    /// How often something was added.
    pub generation: u64,
}

pub struct ResultView {
    pub query: Seq<char>,
    pub tracks: Seq<TrackView>,
    pub collections: Seq<(Seq<char>, ItemKind, Seq<char>, Option<Seq<char>>)>,
    pub generation: u64,
}

pub open spec fn collection_views(
    v: Seq<(SourceId, ItemKind, String, BrowseNode)>,
) -> Seq<(Seq<char>, ItemKind, Seq<char>, Option<Seq<char>>)> {
    v.map_values(|c: (SourceId, ItemKind, String, BrowseNode)| (c.0@, c.1, c.2@, c.3@))
}

impl View for ResultSet {
    type V = ResultView;

    open spec fn view(&self) -> ResultView {
        ResultView {
            query: self.query@,
            tracks: track_views(self.tracks@),
            collections: collection_views(self.collections@),
            generation: self.generation,
        }
    }
}

impl ResultSet {
    pub fn query(&self) -> (r: &str)
        ensures
            r@ == self@.query,
    {
        self.query.as_str()
    }

    /// The tracks that were found, in the order in which they came.
    pub fn track_ids(&self) -> (r: Vec<TrackId>)
        ensures
            r@ == list_ids(self@.tracks),
    {
        let mut out: Vec<TrackId> = Vec::new();
        let mut i: usize = 0;
        while i < self.tracks.len()
            invariant
                i <= self.tracks@.len(),
                out@.len() == i,
                forall|j: int| 0 <= j < i ==> out@[j] == self@.tracks[j].id,
            decreases self.tracks@.len() - i,
        {
            out.push(self.tracks[i].id);
            i = i + 1;
        }
        assert(out@ =~= list_ids(self@.tracks));
        out
    }

    pub fn generation(&self) -> (r: u64)
        ensures
            r == self@.generation,
    {
        self.generation
    }

    pub fn is_empty(&self) -> (r: bool)
        ensures
            r == (self@.tracks.len() == 0 && self@.collections.len() == 0),
    {
        self.tracks.len() == 0 && self.collections.len() == 0
    }
}

/// A change of a remote playlist that its source has not answered yet.
pub struct PendingChange {
    pub track: Track,
    pub add: bool,
    /// The one row that a removal means; without it every occurrence.
    pub position: Option<usize>,
    /// An addition goes to the head of the list.
    pub front: bool,
}

pub struct PendingView {
    pub track: TrackView,
    pub add: bool,
    pub position: Option<usize>,
    pub front: bool,
}

impl View for PendingChange {
    type V = PendingView;

    open spec fn view(&self) -> PendingView {
        PendingView { track: self.track@, add: self.add, position: self.position, front: self.front }
    }
}

pub open spec fn pending_views(v: Seq<PendingChange>) -> Seq<PendingView> {
    v.map_values(|c: PendingChange| c@)
}

/// What is to happen to a track in a remote playlist.
#[derive(Clone, Copy, Debug, PartialEq, Eq, Structural)]
pub enum Change {
    Add,
    /// Of one row, or of every occurrence.
    Remove(Option<usize>),
}

pub open spec fn position_of(c: Change) -> Option<usize> {
    match c {
        Change::Add => None,
        Change::Remove(p) => p,
    }
}

/// What is shown as being changed: every occurrence of a track, or single rows.
pub struct PendingRows {
    pub tracks: Vec<TrackId>,
    pub rows: Vec<usize>,
}

fn ids_of_rows(rows: &Vec<Track>) -> (r: Vec<TrackId>)
    ensures
        r@ == list_ids(track_views(rows@)),
{
    let ghost v = track_views(rows@);
    let mut out: Vec<TrackId> = Vec::new();
    let mut i: usize = 0;
    while i < rows.len()
        invariant
            i <= rows@.len(),
            v == track_views(rows@),
            out@.len() == i,
            forall|j: int| 0 <= j < i ==> out@[j] == v[j].id,
        decreases rows@.len() - i,
    {
        out.push(rows[i].id);
        i = i + 1;
    }
    assert(out@ =~= list_ids(v));
    out
}

/// Adds an identifier to a row that holds each once.
fn add_id(v: &mut Vec<TrackId>, id: TrackId)
    requires
        old(v)@.no_duplicates(),
    ensures
        final(v)@.no_duplicates(),
        forall|x: TrackId| #[trigger] final(v)@.contains(x) <==> old(v)@.contains(x) || x == id,
{
    let ghost was = v@;
    let n: usize = v.len();
    let mut i: usize = 0;
    while i < n
        invariant
            i <= n == v@.len(),
            v@ == was,
            was == old(v)@,
            was.no_duplicates(),
            forall|j: int| 0 <= j < i ==> was[j] != id,
        decreases n - i,
    {
        if v[i] == id {
            assert(was.contains(id));
            return;
        }
        i = i + 1;
    }
    v.push(id);
    proof {
        assert forall|x: TrackId| #[trigger] v@.contains(x) <==> was.contains(x) || x == id by {
            if was.contains(x) {
                let j = choose|j: int| 0 <= j < was.len() && was[j] == x;
                assert(v@[j] == x);
            }
            assert(v@[was.len() as int] == id);
        }
    }
}

/// Adds a number to a row that holds each once.
fn add_row(v: &mut Vec<usize>, row: usize)
    requires
        old(v)@.no_duplicates(),
    ensures
        final(v)@.no_duplicates(),
        forall|x: usize| #[trigger] final(v)@.contains(x) <==> old(v)@.contains(x) || x == row,
{
    let ghost was = v@;
    let n: usize = v.len();
    let mut i: usize = 0;
    while i < n
        invariant
            i <= n == v@.len(),
            v@ == was,
            was == old(v)@,
            was.no_duplicates(),
            forall|j: int| 0 <= j < i ==> was[j] != row,
        decreases n - i,
    {
        if v[i] == row {
            assert(was.contains(row));
            return;
        }
        i = i + 1;
    }
    v.push(row);
    proof {
        assert forall|x: usize| #[trigger] v@.contains(x) <==> was.contains(x) || x == row by {
            if was.contains(x) {
                let j = choose|j: int| 0 <= j < was.len() && was[j] == x;
                assert(v@[j] == x);
            }
            assert(v@[was.len() as int] == row);
        }
    }
}

impl PendingRows {
    pub fn has(&self, id: TrackId, row: usize) -> (r: bool)
        ensures
            r == (self.tracks@.contains(id) || self.rows@.contains(row)),
    {
        let mut i: usize = 0;
        while i < self.tracks.len()
            invariant
                i <= self.tracks@.len(),
                forall|j: int| 0 <= j < i ==> self.tracks@[j] != id,
            decreases self.tracks@.len() - i,
        {
            if self.tracks[i] == id {
                return true;
            }
            i = i + 1;
        }
        let mut i: usize = 0;
        while i < self.rows.len()
            invariant
                i <= self.rows@.len(),
                forall|j: int| 0 <= j < i ==> self.rows@[j] != row,
            decreases self.rows@.len() - i,
        {
            if self.rows[i] == row {
                return true;
            }
            i = i + 1;
        }
        false
    }
}

/// The tracks being added at the head or the tail of a list that it does not hold yet.
pub open spec fn adds(v: Seq<PendingView>, list: Seq<TrackView>, front: bool) -> Seq<TrackView>
    decreases v.len(),
{
    if v.len() == 0 {
        seq![]
    } else {
        let c = v.last();
        let rest = adds(v.drop_last(), list, front);
        if c.add && c.front == front && !holds_track(list, c.track.id) {
            rest.push(c.track)
        } else {
            rest
        }
    }
}

/// The rows that are shown of a list: what is being added at its head, the list, and what is
/// being added at its tail.
pub open spec fn shown_rows(v: Seq<PendingView>, list: Seq<TrackView>) -> Seq<TrackView> {
    adds(v, list, true) + list + adds(v, list, false)
}

/// At most `limit` rows from `offset` on.
pub open spec fn slice_of<T>(v: Seq<T>, offset: int, limit: int) -> Seq<T> {
    if offset >= v.len() {
        seq![]
    } else if offset + limit < v.len() {
        v.subrange(offset, offset + limit)
    } else {
        v.skip(offset)
    }
}

/// How a track stands in a list.
#[derive(Clone, Copy, Debug, PartialEq, Eq, Structural)]
pub enum Membership {
    Member,
    NotMember,
    PendingAdd,
    PendingRemove,
}

/// The first change of a track that is not answered yet.
pub open spec fn first_change(v: Seq<PendingView>, id: TrackId, i: int) -> Option<PendingView>
    decreases v.len() - i,
{
    if i < 0 || i >= v.len() {
        None
    } else if v[i].track.id == id {
        Some(v[i])
    } else {
        first_change(v, id, i + 1)
    }
}

pub open spec fn membership_of(v: Seq<PendingView>, list: Seq<TrackView>, id: TrackId) -> Membership {
    match first_change(v, id, 0) {
        Some(c) => if c.add {
            Membership::PendingAdd
        } else {
            Membership::PendingRemove
        },
        None => if holds_track(list, id) {
            Membership::Member
        } else {
            Membership::NotMember
        },
    }
}

/// How often a list holds a track.
pub open spec fn occurrences_of(v: Seq<TrackView>, id: TrackId) -> nat
    decreases v.len(),
{
    if v.len() == 0 {
        0
    } else {
        occurrences_of(v.drop_last(), id) + (if v.last().id == id {
            1nat
        } else {
            0
        })
    }
}

/// Whether two changes of one list get in each other's way: of one track, unless each means a
/// single row; and of two single rows.
pub open spec fn clash(c: PendingView, id: TrackId, position: Option<usize>) -> bool {
    (c.track.id == id && (c.position is None || position is None)) || (c.position is Some && position is Some)
}

pub open spec fn clashes(v: Seq<PendingView>, id: TrackId, position: Option<usize>) -> bool {
    exists|i: int| 0 <= i < v.len() && clash(#[trigger] v[i], id, position)
}

pub open spec fn other_change(id: TrackId, position: Option<usize>) -> spec_fn(PendingView) -> bool {
    |c: PendingView| !(c.track.id == id && c.position == position)
}

/// What is asked of a source for a change.
#[derive(Clone, Copy, Debug, PartialEq, Eq, Structural)]
pub enum Request {
    /// It holds already.
    Nothing,
    Add,
    Remove,
    /// The row is no longer that track's.
    Refused,
}

pub open spec fn request_of(add: bool, member: bool, row_holds: bool) -> Request {
    if add == member {
        Request::Nothing
    } else if add {
        Request::Add
    } else if row_holds {
        Request::Remove
    } else {
        Request::Refused
    }
}

/// What is asked of a source for a change, once the list has loaded.
pub fn request(add: bool, member: bool, row_holds: bool) -> (r: Request)
    ensures
        r == request_of(add, member, row_holds),
{
    if add == member {
        Request::Nothing
    } else if add {
        Request::Add
    } else if row_holds {
        Request::Remove
    } else {
        Request::Refused
    }
}

/// Whether a change waits on for its list to load.
#[derive(Debug)]
pub enum Await {
    Wait,
    Member(bool),
    Failed(Error),
}

/// Whether a change waits on for its list to load, and what the list then says.
pub fn await_membership(loaded: Option<Loaded>, now: u64, deadline: u64) -> (r: Await)
    ensures
        match loaded {
            Some(Loaded::Complete(m)) => r == Await::Member(m),
            Some(Loaded::Broken) => r matches Await::Failed(e) && error_message(e)
                == "the playlist didn't load completely"@,
            _ => if now >= deadline {
                r matches Await::Failed(e) && error_message(e) == "timed out waiting for the playlist to load"@
            } else {
                r == Await::Wait
            },
        },
{
    match loaded {
        Some(Loaded::Complete(m)) => Await::Member(m),
        Some(Loaded::Broken) => Await::Failed(Error::Other("the playlist didn't load completely".to_owned())),
        _ => if now >= deadline {
            Await::Failed(Error::Other("timed out waiting for the playlist to load".to_owned()))
        } else {
            Await::Wait
        },
    }
}

/// What is shown of searches and remote playlists.
pub struct ViewCache {
    /// By the number of the search.
    pub results: IdMap<ResultSet>,
    /// By source.
    pub playlists: StrMap<Folders>,
    pub albums: StrMap<Folders>,
    /// By source and place.
    pub lists: StrMap<RemoteTracks>,
    pub pending: StrMap<Vec<PendingChange>>,
    /// How often the folders of any source changed.
    pub folders_gen: u64,
}

pub struct CacheView {
    pub results: Map<u128, ResultView>,
    pub playlists: Map<Seq<char>, FoldersView>,
    pub albums: Map<Seq<char>, FoldersView>,
    pub lists: Map<Seq<char>, ListView>,
    pub pending: Map<Seq<char>, Seq<PendingView>>,
    pub folders_gen: u64,
}

impl View for ViewCache {
    type V = CacheView;

    open spec fn view(&self) -> CacheView {
        CacheView {
            results: self.results@.map_values(|r: ResultSet| r@),
            playlists: self.playlists@.map_values(|f: Folders| f@),
            albums: self.albums@.map_values(|f: Folders| f@),
            lists: self.lists@.map_values(|l: RemoteTracks| l@),
            pending: self.pending@.map_values(|v: Vec<PendingChange>| pending_views(v@)),
            folders_gen: self.folders_gen,
        }
    }
}

/// What is known of a list.
pub open spec fn list_of(c: CacheView, source: Seq<char>, node: Option<Seq<char>>) -> Option<ListView> {
    let k = list_key_of(source, node);
    if c.lists.dom().contains(k) {
        Some(c.lists[k])
    } else {
        None
    }
}

/// The tracks that are known of a list.
pub open spec fn tracks_in(c: CacheView, source: Seq<char>, node: Option<Seq<char>>) -> Seq<TrackView> {
    match list_of(c, source, node) {
        Some(l) => l.tracks,
        None => seq![],
    }
}

/// The changes of a list that are not answered yet.
pub open spec fn changes_of(c: CacheView, source: Seq<char>, node: Option<Seq<char>>) -> Seq<PendingView> {
    let k = list_key_of(source, node);
    if c.pending.dom().contains(k) {
        c.pending[k]
    } else {
        seq![]
    }
}

pub open spec fn with_list(c: CacheView, source: Seq<char>, node: Option<Seq<char>>, l: ListView) -> CacheView {
    CacheView { lists: c.lists.insert(list_key_of(source, node), l), ..c }
}

pub open spec fn with_changes(c: CacheView, source: Seq<char>, node: Option<Seq<char>>, v: Seq<PendingView>) -> CacheView {
    CacheView { pending: c.pending.insert(list_key_of(source, node), v), ..c }
}

impl ViewCache {
    pub fn new() -> (r: ViewCache)
        ensures
            r@ == (CacheView {
                results: Map::empty(),
                playlists: Map::empty(),
                albums: Map::empty(),
                lists: Map::empty(),
                pending: Map::empty(),
                folders_gen: 0,
            }),
    {
        let r = ViewCache {
            results: IdMap::new(),
            playlists: StrMap::new(),
            albums: StrMap::new(),
            lists: StrMap::new(),
            pending: StrMap::new(),
            folders_gen: 0,
        };
        assert(r@.results =~= Map::empty());
        assert(r@.playlists =~= Map::empty());
        assert(r@.albums =~= Map::empty());
        assert(r@.lists =~= Map::empty());
        assert(r@.pending =~= Map::empty());
        r
    }

    /// Starts an empty set for a search.
    pub fn begin_search(&mut self, id: u64, query: String)
        ensures
            final(self)@ == (CacheView {
                results: old(self)@.results.insert(
                    id as u128,
                    ResultView { query: query@, tracks: seq![], collections: seq![], generation: 0 },
                ),
                ..old(self)@
            }),
    {
        let set = ResultSet { query, tracks: Vec::new(), collections: Vec::new(), generation: 0 };
        assert(set@.tracks =~= seq![]);
        assert(set@.collections =~= seq![]);
        self.results.insert(id as u128, set);
        assert(self@.results =~= old(self)@.results.insert(id as u128, set@));
    }

    pub fn forget_search(&mut self, id: u64)
        ensures
            final(self)@ == (CacheView {
                results: old(self)@.results.remove(id as u128),
                ..old(self)@
            }),
    {
        self.results.remove(id as u128);
        assert(self@.results =~= old(self)@.results.remove(id as u128));
    }

    /// What a search found, if it is still wanted.
    pub fn results(&self, id: u64) -> (r: Option<&ResultSet>)
        ensures
            match r {
                Some(s) => self@.results.dom().contains(id as u128) && self@.results[id as u128] == s@,
                None => !self@.results.dom().contains(id as u128),
            },
    {
        self.results.get(id as u128)
    }

    /// Takes a collection that a search found; false where the search is no longer wanted.
    pub fn push_collection_result(&mut self, id: u64, source: SourceId, kind: ItemKind, name: String, node: BrowseNode) -> (r: bool)
        ensures
            r == old(self)@.results.dom().contains(id as u128),
            !r ==> final(self)@ == old(self)@,
            r ==> {
                let set = old(self)@.results[id as u128];
                final(self)@ == (CacheView {
                    results: old(self)@.results.insert(
                        id as u128,
                        ResultView {
                            collections: set.collections.push((source@, kind, name@, node@)),
                            generation: bumped(set.generation),
                            ..set
                        },
                    ),
                    ..old(self)@
                })
            },
    {
        match self.results.take(id as u128) {
            None => {
                assert(self@.results =~= old(self)@.results);
                false
            },
            Some(set) => {
                let mut set = set;
                let ghost was = set.collections@;
                set.collections.push((source, kind, name, node));
                set.generation = set.generation.wrapping_add(1);
                assert(collection_views(set.collections@) =~= collection_views(was).push(
                    (source@, kind, name@, node@),
                ));
                self.results.insert(id as u128, set);
                assert(self@.results =~= old(self)@.results.insert(id as u128, set@));
                true
            },
        }
    }

    /// Takes a track that a search found, once; false where the search is no longer wanted.
    pub fn push_result(&mut self, id: u64, track: TrackId, store: &MemStore) -> (r: bool)
        ensures
            r == old(self)@.results.dom().contains(id as u128),
            !r ==> final(self)@ == old(self)@,
            r ==> {
                let set = old(self)@.results[id as u128];
                final(self)@ == (CacheView {
                    results: old(self)@.results.insert(
                        id as u128,
                        if holds_track(set.tracks, track) || track_of(store@, track) is None {
                            set
                        } else {
                            ResultView {
                                tracks: set.tracks.push(store@.tracks[track.0]),
                                generation: bumped(set.generation),
                                ..set
                            }
                        },
                    ),
                    ..old(self)@
                })
            },
    {
        match self.results.take(id as u128) {
            None => {
                assert(self@.results =~= old(self)@.results);
                false
            },
            Some(set) => {
                let mut set = set;
                let ghost was = set@;
                if !has_track(&set.tracks, track) {
                    if let Some(t) = store.get_track(track) {
                        let ghost before = set.tracks@;
                        set.tracks.push(t);
                        set.generation = set.generation.wrapping_add(1);
                        assert(track_views(set.tracks@) =~= track_views(before).push(t@));
                    }
                }
                self.results.insert(id as u128, set);
                assert(self@.results =~= old(self)@.results.insert(id as u128, set@));
                true
            },
        }
    }

    /// How often a list has changed; 0 until it is first looked at.
    pub fn remote_playlist_gen(&self, source: &SourceId, node: &BrowseNode) -> (r: u64)
        ensures
            r == (match list_of(self@, source@, node@) {
                Some(l) => l.generation,
                None => 0,
            }),
    {
        match self.lists.get(&list_key(source, node)) {
            Some(l) => l.generation,
            None => 0,
        }
    }

    /// Whether more of a list may come; true before anything has.
    pub fn remote_playlist_loading(&self, source: &SourceId, node: &BrowseNode) -> (r: bool)
        ensures
            r == (match list_of(self@, source@, node@) {
                Some(l) => l.partial,
                None => true,
            }),
    {
        match self.lists.get(&list_key(source, node)) {
            Some(l) => l.partial,
            None => true,
        }
    }

    /// Whether a list stopped at a page that could not be fetched.
    pub fn remote_playlist_errored(&self, source: &SourceId, node: &BrowseNode) -> (r: bool)
        ensures
            r == (list_of(self@, source@, node@) matches Some(l) && l.errored && !l.partial),
    {
        match self.lists.get(&list_key(source, node)) {
            Some(l) => l.errored && !l.partial,
            None => false,
        }
    }

    /// The tracks of a list as the source has them: none before it was held against the source,
    /// and nothing that is only being added.
    pub fn confirmed_ids(&self, source: &SourceId, node: &BrowseNode) -> (r: Vec<TrackId>)
        ensures
            r@ == (match list_of(self@, source@, node@) {
                Some(l) => if l.revalidated {
                    list_ids(l.tracks)
                } else {
                    seq![]
                },
                None => seq![],
            }),
    {
        match self.lists.get(&list_key(source, node)) {
            Some(l) => if l.revalidated {
                l.ids()
            } else {
                Vec::new()
            },
            None => Vec::new(),
        }
    }

    /// The rows that are shown of a list, with what is being added at its head and its tail.
    pub fn rows(&self, source: &SourceId, node: &BrowseNode) -> (r: Vec<Track>)
        ensures
            track_views(r@) == shown_rows(
                changes_of(self@, source@, node@),
                tracks_in(self@, source@, node@),
            ),
    {
        let none: Vec<Track> = Vec::new();
        assert(track_views(none@) =~= seq![]);
        let tracks = match self.lists.get(&list_key(source, node)) {
            Some(l) => &l.tracks,
            None => &none,
        };
        self.rows_around(source, node, tracks)
    }

    /// The rows that are shown of a list with these tracks.
    fn rows_around(&self, source: &SourceId, node: &BrowseNode, tracks: &Vec<Track>) -> (r: Vec<Track>)
        ensures
            track_views(r@) == shown_rows(changes_of(self@, source@, node@), track_views(tracks@)),
    {
        let key = list_key(source, node);
        let ghost ch = changes_of(self@, source@, node@);
        let no_changes: Vec<PendingChange> = Vec::new();
        assert(pending_views(no_changes@) =~= seq![]);
        let changes = match self.pending.get(&key) {
            Some(v) => v,
            None => &no_changes,
        };
        assert(pending_views(changes@) == ch);
        let mut out = pending_adds(changes, tracks, true);
        let mut middle = clone_tracks(tracks);
        let mut back = pending_adds(changes, tracks, false);
        let ghost (a, b, c) = (out@, middle@, back@);
        out.append(&mut middle);
        out.append(&mut back);
        assert(track_views(out@) =~= track_views(a) + track_views(b) + track_views(c));
        out
    }

    /// The tracks of the rows that are shown.
    pub fn shown_ids(&self, source: &SourceId, node: &BrowseNode) -> (r: Vec<TrackId>)
        ensures
            r@ == list_ids(
                shown_rows(changes_of(self@, source@, node@), tracks_in(self@, source@, node@)),
            ),
    {
        ids_of_rows(&self.rows(source, node))
    }

    /// The tracks of the rows that a list shows once it is looked at.
    pub fn live_ids(&self, source: &SourceId, node: &BrowseNode, store: &MemStore) -> (r: Vec<TrackId>)
        ensures
            r@ == list_ids(shown_rows(changes_of(self@, source@, node@), kept_tracks(self@, store@, source@, node@))),
    {
        match self.lists.get(&list_key(source, node)) {
            Some(l) => ids_of_rows(&self.rows_around(source, node, &l.tracks)),
            None => {
                let ids = store.remote_playlist_ids(&remote_playlist_cache_key(source, node));
                let tracks = store.get_tracks(&ids);
                ids_of_rows(&self.rows_around(source, node, &tracks))
            },
        }
    }

    /// How many rows are shown.
    pub fn shown_len(&self, source: &SourceId, node: &BrowseNode) -> (r: usize)
        ensures
            r == shown_rows(changes_of(self@, source@, node@), tracks_in(self@, source@, node@)).len(),
    {
        let rows = self.rows(source, node);
        assert(track_views(rows@).len() == rows@.len());
        rows.len()
    }

    /// At most `limit` of the rows that are shown, from `offset` on.
    pub fn shown_window(&self, source: &SourceId, node: &BrowseNode, offset: usize, limit: usize) -> (r: Vec<Track>)
        ensures
            track_views(r@) == slice_of(
                shown_rows(changes_of(self@, source@, node@), tracks_in(self@, source@, node@)),
                offset as int,
                limit as int,
            ),
    {
        let rows = self.rows(source, node);
        let ghost v = track_views(rows@);
        let mut out: Vec<Track> = Vec::new();
        let n: usize = rows.len();
        if offset >= n {
            assert(track_views(out@) =~= seq![]);
            return out;
        }
        let end: usize = if limit < n - offset {
            offset + limit
        } else {
            n
        };
        let mut i: usize = offset;
        while i < end
            invariant
                offset <= i <= end <= n == rows@.len(),
                v == track_views(rows@),
                out@.len() == i - offset,
                forall|j: int| 0 <= j < out@.len() ==> (#[trigger] out@[j])@ == v[offset + j],
            decreases end - i,
        {
            out.push(rows[i].clone());
            i = i + 1;
        }
        assert(track_views(out@) =~= slice_of(v, offset as int, limit as int));
        out
    }

    /// What is shown as being changed.
    pub fn remote_pending_rows(&self, source: &SourceId, node: &BrowseNode) -> (r: PendingRows)
        ensures
            ({
                let v = changes_of(self@, source@, node@);
                &&& forall|id: TrackId| #[trigger] r.tracks@.contains(id) <==> track_pending(v, id)
                &&& forall|row: usize| #[trigger] r.rows@.contains(row) <==> row_pending(v, row)
                &&& r.tracks@.no_duplicates()
                &&& r.rows@.no_duplicates()
            }),
    {
        let ghost v = changes_of(self@, source@, node@);
        let mut out = PendingRows { tracks: Vec::new(), rows: Vec::new() };
        if let Some(changes) = self.pending.get(&list_key(source, node)) {
            let mut i: usize = 0;
            assert(v.take(0) =~= seq![]);
            while i < changes.len()
                invariant
                    i <= changes@.len(),
                    v == pending_views(changes@),
                    forall|id: TrackId| #[trigger] out.tracks@.contains(id) <==> track_pending(v.take(i as int), id),
                    forall|row: usize| #[trigger] out.rows@.contains(row) <==> row_pending(v.take(i as int), row),
                    out.tracks@.no_duplicates(),
                    out.rows@.no_duplicates(),
                decreases changes@.len() - i,
            {
                assert(v[i as int] == changes@[i as int]@);
                proof {
                    assert(v.take(i + 1) =~= v.take(i as int).push(v[i as int]));
                    lemma_pending_push(v.take(i as int), v[i as int]);
                }
                match changes[i].position {
                    Some(row) => {
                        add_row(&mut out.rows, row);
                    },
                    None => {
                        let id = changes[i].track.id;
                        add_id(&mut out.tracks, id);
                    },
                }
                i = i + 1;
            }
            assert(v.take(i as int) =~= v);
        }
        out
    }

    /// How a track stands in a list; a change that is not answered yet wins.
    pub fn remote_membership(&self, source: &SourceId, node: &BrowseNode, track: TrackId) -> (r: Membership)
        ensures
            r == membership_of(
                changes_of(self@, source@, node@),
                tracks_in(self@, source@, node@),
                track,
            ),
    {
        let key = list_key(source, node);
        let ghost v = changes_of(self@, source@, node@);
        if let Some(changes) = self.pending.get(&key) {
            let mut i: usize = 0;
            while i < changes.len()
                invariant
                    i <= changes@.len(),
                    v == pending_views(changes@),
                    v == changes_of(self@, source@, node@),
                    first_change(v, track, i as int) == first_change(v, track, 0),
                decreases changes@.len() - i,
            {
                assert(v[i as int] == changes@[i as int]@);
                if changes[i].track.id == track {
                    return if changes[i].add {
                        Membership::PendingAdd
                    } else {
                        Membership::PendingRemove
                    };
                }
                i = i + 1;
            }
        }
        let member: bool = match self.lists.get(&key) {
            Some(l) => l.holds(track),
            None => false,
        };
        if member {
            Membership::Member
        } else {
            Membership::NotMember
        }
    }

    /// How often a list holds a track, 0 while a change of it is not answered yet.
    pub fn remote_occurrences(&self, source: &SourceId, node: &BrowseNode, track: TrackId) -> (r: usize)
        ensures
            r == (if first_change(changes_of(self@, source@, node@), track, 0) is None {
                occurrences_of(tracks_in(self@, source@, node@), track)
            } else {
                0
            }),
    {
        if self.remote_membership(source, node, track) != Membership::Member {
            proof {
                lemma_no_occurrence(tracks_in(self@, source@, node@), track);
            }
            return 0;
        }
        match self.lists.get(&list_key(source, node)) {
            None => 0,
            Some(l) => {
                let ghost v = l@.tracks;
                let mut n: usize = 0;
                let mut i: usize = 0;
                assert(v.take(0) =~= seq![]);
                while i < l.tracks.len()
                    invariant
                        i <= l.tracks@.len(),
                        v == l@.tracks,
                        n <= i,
                        n == occurrences_of(v.take(i as int), track),
                    decreases l.tracks@.len() - i,
                {
                    assert(v.take(i + 1).drop_last() =~= v.take(i as int));
                    assert(v[i as int] == l.tracks@[i as int]@);
                    if l.tracks[i].id == track {
                        n = n + 1;
                    }
                    i = i + 1;
                }
                assert(v.take(i as int) =~= v);
                n
            },
        }
    }

    /// How a track stands in a list of liked tracks: nothing where it is not in it, else whether
    /// a change of it is not answered yet.
    pub fn liked_mark(&self, source: &SourceId, node: &BrowseNode, track: TrackId) -> (r: Option<bool>)
        ensures
            r == (match membership_of(
                changes_of(self@, source@, node@),
                tracks_in(self@, source@, node@),
                track,
            ) {
                Membership::Member => Some(false),
                Membership::NotMember => None,
                _ => Some(true),
            }),
    {
        match self.remote_membership(source, node, track) {
            Membership::Member => Some(false),
            Membership::NotMember => None,
            _ => Some(true),
        }
    }

    /// Starts a change of a list, unless it clashes with one that is not answered yet; says
    /// whether it was started.
    pub fn set_remote_membership(&mut self, source: &SourceId, node: &BrowseNode, track: &Track, change: Change, front: bool, bus: &mut Bus) -> (r: bool)
        ensures
            r == !clashes(changes_of(old(self)@, source@, node@), track@.id, position_of(change)),
            final(self)@ == with_changes(
                old(self)@,
                source@,
                node@,
                if r {
                    changes_of(old(self)@, source@, node@).push(
                        PendingView { track: track@, add: change is Add, position: position_of(change), front },
                    )
                } else {
                    changes_of(old(self)@, source@, node@)
                },
            ),
            final(bus)@ == (if r {
                old(bus)@.push(CoreEvent::PlaylistsChanged)
            } else {
                old(bus)@
            }),
    {
        let key = list_key(source, node);
        let ghost v = changes_of(self@, source@, node@);
        let position = match change {
            Change::Add => None,
            Change::Remove(p) => p,
        };
        let mut changes: Vec<PendingChange> = match self.pending.take(&key) {
            Some(c) => c,
            None => Vec::new(),
        };
        assert(pending_views(changes@) =~= v);
        let mut found: bool = false;
        let mut i: usize = 0;
        while i < changes.len()
            invariant
                i <= changes@.len(),
                v == pending_views(changes@),
                position == position_of(change),
                found == exists|j: int| 0 <= j < i && clash(#[trigger] v[j], track@.id, position),
            decreases changes@.len() - i,
        {
            assert(v[i as int] == changes@[i as int]@);
            let c = &changes[i];
            if (c.track.id == track.id && (c.position.is_none() || position.is_none())) || (c.position.is_some()
                && position.is_some()) {
                assert(clash(v[i as int], track@.id, position));
                found = true;
            }
            i = i + 1;
        }
        if !found {
            let add: bool = match change {
                Change::Add => true,
                Change::Remove(_) => false,
            };
            let ghost before = changes@;
            changes.push(PendingChange { track: track.clone(), add, position, front });
            assert(pending_views(changes@) =~= pending_views(before).push(
                PendingView { track: track@, add: change is Add, position: position_of(change), front },
            ));
            bus.send(CoreEvent::PlaylistsChanged);
        }
        self.pending.insert(key, changes);
        assert(self@.pending =~= old(self)@.pending.insert(list_key_of(source@, node@), pending_views(changes@)));
        !found
    }
}

/// Whether every occurrence of a track is being changed.
pub open spec fn track_pending(v: Seq<PendingView>, id: TrackId) -> bool {
    exists|i: int| 0 <= i < v.len() && (#[trigger] v[i]).position is None && v[i].track.id == id
}

/// Whether a single row is being changed.
pub open spec fn row_pending(v: Seq<PendingView>, row: usize) -> bool {
    exists|i: int| 0 <= i < v.len() && (#[trigger] v[i]).position == Some(row)
}

proof fn lemma_pending_push(v: Seq<PendingView>, c: PendingView)
    ensures
        forall|id: TrackId|
            #[trigger] track_pending(v.push(c), id) <==> track_pending(v, id) || (c.position is None && c.track.id == id),
        forall|row: usize| #[trigger] row_pending(v.push(c), row) <==> row_pending(v, row) || c.position == Some(row),
{
    let w = v.push(c);
    assert(w[v.len() as int] == c);
    assert forall|id: TrackId| #[trigger] track_pending(w, id) <==> track_pending(v, id) || (c.position is None && c.track.id
        == id) by {
        if track_pending(v, id) {
            let i = choose|i: int| 0 <= i < v.len() && (#[trigger] v[i]).position is None && v[i].track.id == id;
            assert(w[i] == v[i]);
        }
        if track_pending(w, id) {
            let i = choose|i: int| 0 <= i < w.len() && (#[trigger] w[i]).position is None && w[i].track.id == id;
            if i < v.len() {
                assert(v[i] == w[i]);
            }
        }
    }
    assert forall|row: usize| #[trigger] row_pending(w, row) <==> row_pending(v, row) || c.position == Some(row) by {
        if row_pending(v, row) {
            let i = choose|i: int| 0 <= i < v.len() && (#[trigger] v[i]).position == Some(row);
            assert(w[i] == v[i]);
        }
        if row_pending(w, row) {
            let i = choose|i: int| 0 <= i < w.len() && (#[trigger] w[i]).position == Some(row);
            if i < v.len() {
                assert(v[i] == w[i]);
            }
        }
    }
}

proof fn lemma_no_occurrence(v: Seq<TrackView>, id: TrackId)
    ensures
        !holds_track(v, id) ==> occurrences_of(v, id) == 0,
    decreases v.len(),
{
    if v.len() > 0 && !holds_track(v, id) {
        assert(v[v.len() - 1].id != id);
        if holds_track(v.drop_last(), id) {
            let i = choose|i: int| 0 <= i < v.drop_last().len() && (#[trigger] v.drop_last()[i]).id == id;
            assert(v[i].id == id);
        }
        lemma_no_occurrence(v.drop_last(), id);
    }
}

fn has_track(v: &Vec<Track>, id: TrackId) -> (r: bool)
    ensures
        r == holds_track(track_views(v@), id),
{
    let ghost w = track_views(v@);
    let mut i: usize = 0;
    while i < v.len()
        invariant
            i <= v@.len(),
            w == track_views(v@),
            forall|j: int| 0 <= j < i ==> (#[trigger] w[j]).id != id,
        decreases v@.len() - i,
    {
        assert(w[i as int] == v@[i as int]@);
        if v[i].id == id {
            return true;
        }
        i = i + 1;
    }
    false
}

fn pending_adds(changes: &Vec<PendingChange>, list: &Vec<Track>, front: bool) -> (r: Vec<Track>)
    ensures
        track_views(r@) == adds(pending_views(changes@), track_views(list@), front),
{
    let ghost v = pending_views(changes@);
    let ghost l = track_views(list@);
    let mut out: Vec<Track> = Vec::new();
    let mut i: usize = 0;
    assert(v.take(0) =~= seq![]);
    assert(track_views(out@) =~= seq![]);
    while i < changes.len()
        invariant
            i <= changes@.len(),
            v == pending_views(changes@),
            l == track_views(list@),
            track_views(out@) == adds(v.take(i as int), l, front),
        decreases changes@.len() - i,
    {
        assert(v.take(i + 1).drop_last() =~= v.take(i as int));
        assert(v[i as int] == changes@[i as int]@);
        let c = &changes[i];
        if c.add && c.front == front && !has_track(list, c.track.id) {
            let ghost before = out@;
            out.push(c.track.clone());
            assert(track_views(out@) =~= track_views(before).push(c.track@));
        }
        i = i + 1;
    }
    assert(v.take(i as int) =~= v);
    out
}

/// What is loaded of a list that is first looked at: what was saved of it.
pub open spec fn hydrated_list(s: StoreView, source: Seq<char>, node: Option<Seq<char>>) -> ListView {
    let k = store_key_of(source, node);
    let v = tracks_of(
        s,
        if s.remote_ids.dom().contains(k) {
            s.remote_ids[k]
        } else {
            seq![]
        },
    );
    ListView {
        tracks: v,
        generation: 1,
        ingesting: false,
        browsing: true,
        partial: true,
        revalidated: v.len() == 0,
        persisted_len: v.len() as usize,
        errored: false,
        consecutive_failures: 0,
        failed_at: None,
    }
}

/// How many rows are to be asked for so that a list that failed a while ago is tried again.
pub open spec fn retry_rows(c: CacheView, source: Seq<char>, node: Option<Seq<char>>, now: u64) -> usize {
    match list_of(c, source, node) {
        Some(l) => if l.errored && !l.partial && (l.failed_at matches Some(at) && !within(
            at,
            now,
            PLAYLISTS_RETRY_FLOOR,
        )) && l.tracks.len() < usize::MAX {
            (l.tracks.len() + 1) as usize
        } else {
            0
        },
        None => 0,
    }
}

/// The tracks of a list, or what was saved of one that was not looked at yet.
pub open spec fn kept_tracks(c: CacheView, s: StoreView, source: Seq<char>, node: Option<Seq<char>>) -> Seq<TrackView> {
    match list_of(c, source, node) {
        Some(l) => l.tracks,
        None => hydrated_list(s, source, node).tracks,
    }
}

/// The lists after `want` rows of one were asked for, and the fetch that is to be made. Without
/// the source nothing is fetched.
pub open spec fn looked_at(c: CacheView, s: StoreView, known: bool, want: int, source: Seq<char>, node: Option<Seq<char>>) -> (CacheView, Option<Browse>) {
    let (l, b) = ensured(s, list_of(c, source, node), want, source, node);
    if known || b is None {
        (with_list(c, source, node, l), b)
    } else {
        (with_list(c, source, node, ListView { browsing: false, ..l }), None)
    }
}

/// The list after it was asked for, and the fetch that is to be made.
pub open spec fn ensured(s: StoreView, list: Option<ListView>, want: int, source: Seq<char>, node: Option<Seq<char>>) -> (ListView, Option<Browse>) {
    match list {
        Some(l) => if at_rest(l, want) {
            (l, None)
        } else {
            (
                reopened(l),
                Some(
                    Browse {
                        cached_len: l.tracks.len() as usize,
                        check: !l.revalidated,
                        retry: !l.partial && l.errored,
                    },
                ),
            )
        },
        None => {
            let l = hydrated_list(s, source, node);
            (l, Some(Browse { cached_len: l.tracks.len() as usize, check: l.tracks.len() > 0, retry: false }))
        },
    }
}

/// The list that a page is for; one that is gone starts anew.
pub open spec fn list_or_new(c: CacheView, source: Seq<char>, node: Option<Seq<char>>) -> ListView {
    match list_of(c, source, node) {
        Some(l) => l,
        None => ListView {
            tracks: seq![],
            generation: 0,
            ingesting: false,
            browsing: false,
            partial: true,
            revalidated: true,
            persisted_len: 0,
            errored: false,
            consecutive_failures: 0,
            failed_at: None,
        },
    }
}

/// What is saved of a list after a page.
pub open spec fn saved_after(s: StoreView, key: Seq<char>, l: ListView, r: Landing) -> StoreView {
    match r {
        Landing::Ingest(skip) => if skip == 0 && l.persisted_len == 0 {
            StoreView { remote_ids: s.remote_ids.insert(key, seq![]), ..s }
        } else {
            s
        },
        Landing::Settled { persist, .. } => if persist {
            StoreView { remote_ids: s.remote_ids.insert(key, list_ids(l.tracks)), ..s }
        } else {
            s
        },
        _ => s,
    }
}

/// Whether the last event is a failure of a source's list, followed by word of a change.
pub open spec fn failure_told(before: Seq<CoreEvent>, after: Seq<CoreEvent>, source: Seq<char>, message: Seq<char>) -> bool {
    &&& after.len() == before.len() + 2
    &&& after.take(before.len() as int) == before
    &&& after[before.len() as int] matches CoreEvent::BackgroundFailure { context, message: m } && context@
        == source && m@ == message
    &&& after[before.len() as int + 1] == CoreEvent::PlaylistsChanged
}

impl ViewCache {
    /// Asks for `want` rows of a list: the fetch that is to be made, if any. A list that is first
    /// looked at starts with what was saved of it. Without the source nothing is fetched.
    pub fn ensure_tracks(&mut self, source: &SourceId, node: &BrowseNode, want: usize, has_source: bool, store: &MemStore) -> (r: Option<Browse>)
        ensures
            ({
                let (l, b) = ensured(
                    store@,
                    list_of(old(self)@, source@, node@),
                    want as int,
                    source@,
                    node@,
                );
                if has_source || b is None {
                    final(self)@ == with_list(old(self)@, source@, node@, l) && r == b
                } else {
                    final(self)@ == with_list(old(self)@, source@, node@, ListView { browsing: false, ..l })
                        && r is None
                }
            }),
    {
        let key = list_key(source, node);
        let (l, b) = match self.lists.take(&key) {
            Some(l) => {
                let mut l = l;
                let b = l.start_browse(want);
                (l, b)
            },
            None => {
                let ids = store.remote_playlist_ids(&remote_playlist_cache_key(source, node));
                let tracks = store.get_tracks(&ids);
                assert(track_views(tracks@).len() == tracks@.len());
                let (l, b) = RemoteTracks::hydrated(tracks);
                (l, Some(b))
            },
        };
        let mut l = l;
        let mut b = b;
        if b.is_some() && !has_source {
            l.browsing = false;
            b = None;
        }
        self.lists.insert(key, l);
        assert(self@.lists =~= old(self)@.lists.insert(list_key_of(source@, node@), l@));
        b
    }

    /// The tracks of the rows that are shown of a list, and the fetch that looking at it starts.
    /// No row is asked for: this is read with every key.
    pub fn remote_playlist_track_ids(&mut self, source: &SourceId, node: &BrowseNode, has_source: bool, store: &MemStore) -> (r: (Vec<TrackId>, Option<Browse>))
        ensures
            ({
                let (c, b) = looked_at(old(self)@, store@, has_source, 0, source@, node@);
                &&& final(self)@ == c
                &&& r.1 == b
                &&& r.0@ == list_ids(shown_rows(changes_of(c, source@, node@), tracks_in(c, source@, node@)))
            }),
    {
        let b = self.ensure_tracks(source, node, 0, has_source, store);
        (self.shown_ids(source, node), b)
    }

    /// How many rows are shown of a list, and the fetch that looking at it starts.
    pub fn remote_playlist_len(&mut self, source: &SourceId, node: &BrowseNode, has_source: bool, store: &MemStore) -> (r: (usize, Option<Browse>))
        ensures
            ({
                let (c, b) = looked_at(old(self)@, store@, has_source, 0, source@, node@);
                &&& final(self)@ == c
                &&& r.1 == b
                &&& r.0 == shown_rows(changes_of(c, source@, node@), tracks_in(c, source@, node@)).len()
            }),
    {
        let b = self.ensure_tracks(source, node, 0, has_source, store);
        (self.shown_len(source, node), b)
    }

    /// The tracks of a list as the source has them, and the fetch that looking at it starts.
    pub fn remote_playlist_confirmed_ids(&mut self, source: &SourceId, node: &BrowseNode, has_source: bool, store: &MemStore) -> (r: (Vec<TrackId>, Option<Browse>))
        ensures
            ({
                let (c, b) = looked_at(old(self)@, store@, has_source, 0, source@, node@);
                &&& final(self)@ == c
                &&& r.1 == b
                &&& r.0@ == (match list_of(c, source@, node@) {
                    Some(l) => if l.revalidated {
                        list_ids(l.tracks)
                    } else {
                        seq![]
                    },
                    None => seq![],
                })
            }),
    {
        let b = self.ensure_tracks(source, node, 0, has_source, store);
        (self.confirmed_ids(source, node), b)
    }

    /// At most `limit` of the rows that are shown of a list, from `offset` on, and the fetch that
    /// looking at them starts: rows are asked for before the last one that is loaded comes into
    /// sight.
    pub fn remote_playlist_window(&mut self, source: &SourceId, node: &BrowseNode, offset: usize, limit: usize, has_source: bool, store: &MemStore) -> (r: (Vec<Track>, Option<Browse>))
        requires
            offset + limit + WINDOW_MARGIN <= usize::MAX,
        ensures
            ({
                let (c, b) = looked_at(
                    old(self)@,
                    store@,
                    has_source,
                    offset + limit + WINDOW_MARGIN,
                    source@,
                    node@,
                );
                &&& final(self)@ == c
                &&& r.1 == b
                &&& track_views(r.0@) == slice_of(
                    shown_rows(changes_of(c, source@, node@), tracks_in(c, source@, node@)),
                    offset as int,
                    limit as int,
                )
            }),
    {
        let b = self.ensure_tracks(source, node, offset + limit + WINDOW_MARGIN, has_source, store);
        (self.shown_window(source, node, offset, limit), b)
    }

    /// How many rows are to be asked for so that a list that failed a while ago is tried again.
    pub fn retry_want(&self, source: &SourceId, node: &BrowseNode, now: u64) -> (r: usize)
        ensures
            r == retry_rows(self@, source@, node@, now),
    {
        match self.lists.get(&list_key(source, node)) {
            None => 0,
            Some(l) => {
                let due: bool = match l.failed_at {
                    Some(at) => now.saturating_sub(at) >= PLAYLISTS_RETRY_FLOOR,
                    None => false,
                };
                if l.errored && !l.partial && due && l.tracks.len() < usize::MAX {
                    l.tracks.len() + 1
                } else {
                    0
                }
            },
        }
    }

    /// Starts a list, or goes on with it, without asking for any of its rows. One that failed is
    /// tried again after a while.
    pub fn ensure_remote_playlist_loading(&mut self, source: &SourceId, node: &BrowseNode, now: u64, has_source: bool, store: &MemStore) -> (r: Option<Browse>)
        ensures
            ({
                let (l, b) = ensured(
                    store@,
                    list_of(old(self)@, source@, node@),
                    retry_rows(old(self)@, source@, node@, now) as int,
                    source@,
                    node@,
                );
                if has_source || b is None {
                    final(self)@ == with_list(old(self)@, source@, node@, l) && r == b
                } else {
                    final(self)@ == with_list(old(self)@, source@, node@, ListView { browsing: false, ..l })
                        && r is None
                }
            }),
    {
        let want: usize = self.retry_want(source, node, now);
        self.ensure_tracks(source, node, want, has_source, store)
    }

    /// A page of a list could not be fetched at all.
    pub fn page_failed(&mut self, source: &SourceId, node: &BrowseNode, error: &Error, now: u64, bus: &mut Bus)
        ensures
            final(self)@ == (match list_of(old(self)@, source@, node@) {
                Some(l) => with_list(old(self)@, source@, node@, failed_list(l, now)),
                None => old(self)@,
            }),
            failure_told(
                old(bus)@,
                final(bus)@,
                source@,
                store_key_of(source@, node@) + ": "@ + error_message(*error),
            ),
    {
        let mut m = remote_playlist_cache_key(source, node);
        m.append(": ");
        m.append(&error.message());
        self.fail_list(source, node, now, m, bus);
    }

    fn fail_list(&mut self, source: &SourceId, node: &BrowseNode, now: u64, message: String, bus: &mut Bus)
        ensures
            final(self)@ == (match list_of(old(self)@, source@, node@) {
                Some(l) => with_list(old(self)@, source@, node@, failed_list(l, now)),
                None => old(self)@,
            }),
            failure_told(old(bus)@, final(bus)@, source@, message@),
    {
        let key = list_key(source, node);
        match self.lists.take(&key) {
            Some(l) => {
                let mut l = l;
                l.page_failed(now);
                self.lists.insert(key, l);
                assert(self@.lists =~= old(self)@.lists.insert(list_key_of(source@, node@), l@));
            },
            None => {
                assert(self@.lists =~= old(self)@.lists);
            },
        }
        bus.send(CoreEvent::BackgroundFailure { context: source.as_str().to_owned(), message });
        bus.send(CoreEvent::PlaylistsChanged);
        assert(bus@.take(old(bus)@.len() as int) =~= old(bus)@);
    }

    /// Takes a page of a list: `hits` is the list as far as the source has it.
    pub fn page_landed(&mut self, source: &SourceId, node: &BrowseNode, hits: &Vec<Track>, partial: bool, errored: bool, b: Browse, now: u64, store: &mut MemStore, bus: &mut Bus) -> (r: Landing)
        requires
            forall|i: int| 0 <= i < hits@.len() ==> (#[trigger] hits@[i]).renditions@.len() == 1,
        ensures
            errored ==> {
                &&& r == Landing::Failed
                &&& final(self)@ == (match list_of(old(self)@, source@, node@) {
                    Some(l) => with_list(old(self)@, source@, node@, failed_list(l, now)),
                    None => old(self)@,
                })
                &&& final(store)@ == old(store)@
                &&& failure_told(
                    old(bus)@,
                    final(bus)@,
                    source@,
                    store_key_of(source@, node@) + ": playlist fetch failed partway through"@,
                )
            },
            !errored ==> {
                let (l, landing) = landed(
                    list_or_new(old(self)@, source@, node@),
                    track_views(hits@),
                    partial,
                    errored,
                    b,
                    source@,
                    now,
                );
                &&& r == landing
                &&& final(self)@ == with_list(old(self)@, source@, node@, l)
                &&& final(store)@ == saved_after(old(store)@, store_key_of(source@, node@), l, landing)
                &&& final(bus)@ == (if landing matches Landing::Settled { announce, .. } && announce {
                    old(bus)@.push(CoreEvent::PlaylistsChanged)
                } else {
                    old(bus)@
                })
            },
    {
        if errored {
            let mut m = remote_playlist_cache_key(source, node);
            m.append(": playlist fetch failed partway through");
            self.fail_list(source, node, now, m, bus);
            return Landing::Failed;
        }
        let key = list_key(source, node);
        let mut l = match self.lists.take(&key) {
            Some(l) => l,
            None => RemoteTracks::empty(),
        };
        let r = l.page_landed(hits, partial, errored, b, source, now);
        let store_key = remote_playlist_cache_key(source, node);
        match r {
            Landing::Ingest(skip) => {
                if skip == 0 && l.persisted_len == 0 {
                    let none: Vec<TrackId> = Vec::new();
                    assert(none@ =~= seq![]);
                    store.set_remote_playlist_ids(&store_key, &none);
                }
            },
            Landing::Settled { announce, persist } => {
                if persist {
                    store.set_remote_playlist_ids(&store_key, &l.ids());
                }
                if announce {
                    bus.send(CoreEvent::PlaylistsChanged);
                }
            },
            _ => {},
        }
        self.lists.insert(key, l);
        assert(self@.lists =~= old(self)@.lists.insert(list_key_of(source@, node@), l@));
        r
    }

    /// Folds the tracks of a page from `skip` on into the library and the list. A new track gets
    /// the identifier at its place in `ids`.
    pub fn fold_page(&mut self, source: &SourceId, node: &BrowseNode, hits: &Vec<Track>, skip: usize, partial: bool, ids: &Vec<TrackId>, catalog: &mut Catalog, bus: &mut Bus)
        requires
            skip <= hits@.len(),
            ids@.len() == hits@.len() - skip,
            forall|i: int| 0 <= i < hits@.len() ==> (#[trigger] hits@[i]).renditions@.len() == 1,
        ensures
            ({
                let (s, new, ev) = folded(
                    old(catalog).store@,
                    track_views(hits@).skip(skip as int),
                    ids@,
                );
                let (l, save) = folded_in(
                    list_or_new(old(self)@, source@, node@),
                    skip as nat,
                    new,
                    partial,
                );
                &&& final(self)@ == with_list(old(self)@, source@, node@, l)
                &&& final(catalog).store@ == (if save {
                    StoreView {
                        remote_ids: s.remote_ids.insert(store_key_of(source@, node@), list_ids(l.tracks)),
                        ..s
                    }
                } else {
                    s
                })
                &&& final(bus)@ == (old(bus)@ + ev).push(CoreEvent::PlaylistsChanged)
            }),
    {
        let new = fold_hits(catalog, hits, skip, ids, bus);
        let key = list_key(source, node);
        let mut l = match self.lists.take(&key) {
            Some(l) => l,
            None => RemoteTracks::empty(),
        };
        let save: bool = l.tracks_folded(skip, new, partial);
        if save {
            catalog.store.set_remote_playlist_ids(&remote_playlist_cache_key(source, node), &l.ids());
        }
        self.lists.insert(key, l);
        assert(self@.lists =~= old(self)@.lists.insert(list_key_of(source@, node@), l@));
        bus.send(CoreEvent::PlaylistsChanged);
    }

    /// What a list says of a track once it has loaded; nothing is known of a list that nobody
    /// looked at.
    pub fn loaded(&self, source: &SourceId, node: &BrowseNode, track: TrackId) -> (r: Option<Loaded>)
        ensures
            r == (match list_of(self@, source@, node@) {
                Some(l) => Some(loaded_of(l, track)),
                None => None,
            }),
    {
        match self.lists.get(&list_key(source, node)) {
            Some(l) => Some(l.loaded(track)),
            None => None,
        }
    }

    /// Whether a row of a list is still a track's.
    pub fn row_holds(&self, source: &SourceId, node: &BrowseNode, position: Option<usize>, track: TrackId) -> (r: bool)
        ensures
            r == (match position {
                None => true,
                Some(row) => {
                    let v = tracks_in(self@, source@, node@);
                    row < v.len() && v[row as int].id == track
                },
            }),
    {
        if position.is_none() {
            return true;
        }
        match self.lists.get(&list_key(source, node)) {
            Some(l) => l.row_holds(position, track),
            None => false,
        }
    }
}

/// The list after a change was answered, and whether it is to be loaded anew.
pub open spec fn answered(list: Option<ListView>, ok: Option<bool>, unsupported: bool, position: Option<usize>, front: bool, t: TrackView) -> (Option<ListView>, bool) {
    match (ok, list) {
        (Some(added), Some(l)) => {
            let (m, reload) = changed_list(l, added, position, front, t);
            (Some(m), reload)
        },
        (Some(_), None) => (None, false),
        (None, l) => (l, position is Some && !unsupported),
    }
}

/// What is said of a change that was answered.
pub open spec fn change_text(name: Seq<char>, platform: Seq<char>, liked: bool, add: bool, outcome: Result<bool, Error>) -> Seq<char> {
    let q = debug_text(name);
    match outcome {
        Ok(true) => if liked {
            "Liked "@ + q + " on "@ + platform
        } else {
            "Added "@ + q + " to playlist"@
        },
        Ok(false) => if liked {
            "Removed "@ + q + " from Liked Songs"@
        } else {
            "Removed "@ + q + " from playlist"@
        },
        Err(e) => (if !liked {
            "Can't toggle "@ + q
        } else if add {
            "Couldn't like "@ + q + " on "@ + platform
        } else {
            "Couldn't unlike "@ + q + " on "@ + platform
        }) + ": "@ + error_message(e),
    }
}

fn change_message(name: &str, platform: &str, liked: bool, add: bool, outcome: &Result<bool, Error>) -> (r: String)
    ensures
        r@ == change_text(name@, platform@, liked, add, *outcome),
{
    let q = quoted(name);
    let mut s;
    match outcome {
        Ok(true) => {
            if liked {
                s = "Liked ".to_owned();
                s.append(&q);
                s.append(" on ");
                s.append(platform);
            } else {
                s = "Added ".to_owned();
                s.append(&q);
                s.append(" to playlist");
            }
        },
        Ok(false) => {
            s = "Removed ".to_owned();
            s.append(&q);
            if liked {
                s.append(" from Liked Songs");
            } else {
                s.append(" from playlist");
            }
        },
        Err(e) => {
            if !liked {
                s = "Can't toggle ".to_owned();
                s.append(&q);
            } else {
                s = if add {
                    "Couldn't like ".to_owned()
                } else {
                    "Couldn't unlike ".to_owned()
                };
                s.append(&q);
                s.append(" on ");
                s.append(platform);
            }
            s.append(": ");
            s.append(&e.message());
        },
    }
    s
}

/// An outcome says this of a change that settled, or of one that failed.
pub open spec fn told(o: MembershipOutcome, settled: bool, text: Seq<char>) -> bool {
    match o {
        MembershipOutcome::Changed(m) => settled && m@ == text,
        MembershipOutcome::Failed(m) => !settled && m@ == text,
    }
}

pub open spec fn ok_of(r: Result<bool, Error>) -> Option<bool> {
    match r {
        Ok(b) => Some(b),
        Err(_) => None,
    }
}

impl ViewCache {
    /// Takes a source's answer to a change: whether the track is in now, or why it failed. The
    /// list follows, or is forgotten where it can no longer be trusted; whether it was is
    /// returned.
    pub fn finish_change(&mut self, source: &SourceId, node: &BrowseNode, track: &Track, change: Change, front: bool, liked: bool, outcome: Result<bool, Error>, store: &mut MemStore, bus: &mut Bus) -> (reload: bool)
        ensures
            ({
                let k = store_key_of(source@, node@);
                let position = position_of(change);
                let (l, again) = answered(
                    list_of(old(self)@, source@, node@),
                    ok_of(outcome),
                    outcome matches Err(Error::Unsupported(_)),
                    position,
                    front,
                    track@,
                );
                let c = with_changes(
                    old(self)@,
                    source@,
                    node@,
                    changes_of(old(self)@, source@, node@).filter(other_change(track@.id, position)),
                );
                let n = old(bus)@.len() as int;
                &&& reload == again
                &&& final(self)@ == (if again || l is None {
                    CacheView { lists: c.lists.remove(list_key_of(source@, node@)), ..c }
                } else {
                    with_list(c, source@, node@, l->0)
                })
                &&& final(store)@ == (if again {
                    StoreView { remote_ids: old(store)@.remote_ids.insert(k, seq![]), ..old(store)@ }
                } else if outcome is Ok && l is Some {
                    StoreView {
                        remote_ids: old(store)@.remote_ids.insert(k, list_ids(l->0.tracks)),
                        ..old(store)@
                    }
                } else {
                    old(store)@
                })
                &&& final(bus)@.take(n) == old(bus)@
                &&& final(bus)@.len() == n + (if again {
                    3int
                } else {
                    2
                })
                &&& again ==> (final(bus)@[n] matches CoreEvent::BackgroundFailure { context, message } && context@
                    == source@ && message@ == k + ": the playlist changed, reloading it"@)
                &&& final(bus)@[final(bus)@.len() - 2] == CoreEvent::PlaylistsChanged
                &&& if liked {
                    final(bus)@.last() matches CoreEvent::LikeResult { track: id, like, outcome: o } && id == track@.id
                        && like == (change is Add) && told(
                        o,
                        outcome is Ok,
                        change_text(crate::types::track_name(track@), source@, true, change is Add, outcome),
                    )
                } else {
                    final(bus)@.last() matches CoreEvent::MembershipResult(o) && told(
                        o,
                        outcome is Ok,
                        change_text(crate::types::track_name(track@), source@, false, change is Add, outcome),
                    )
                }
            }),
    {
        let key = list_key(source, node);
        let ghost n = bus@.len() as int;
        let position = match change {
            Change::Add => None,
            Change::Remove(p) => p,
        };
        let changes: Vec<PendingChange> = match self.pending.take(&key) {
            Some(c) => c,
            None => Vec::new(),
        };
        assert(pending_views(changes@) =~= changes_of(old(self)@, source@, node@));
        let left = drop_change(changes, track.id, position);
        self.pending.insert(key.clone(), left);
        assert(self@.pending =~= old(self)@.pending.insert(list_key_of(source@, node@), pending_views(left@)));
        let store_key = remote_playlist_cache_key(source, node);
        let mut reload: bool = false;
        match self.lists.take(&key) {
            None => {
                if let Err(e) = &outcome {
                    reload = position.is_some() && !is_unsupported(e);
                }
                assert(self@.lists =~= old(self)@.lists.remove(list_key_of(source@, node@)));
                assert(self@.lists =~= old(self)@.lists);
            },
            Some(l) => {
                let mut l = l;
                match &outcome {
                    Ok(added) => {
                        reload = l.change(*added, position, front, track);
                        if !reload {
                            store.set_remote_playlist_ids(&store_key, &l.ids());
                        }
                    },
                    Err(e) => {
                        reload = position.is_some() && !is_unsupported(e);
                    },
                }
                if !reload {
                    self.lists.insert(key, l);
                    assert(self@.lists =~= old(self)@.lists.insert(list_key_of(source@, node@), l@));
                } else {
                    assert(self@.lists =~= old(self)@.lists.remove(list_key_of(source@, node@)));
                }
            },
        }
        if reload {
            let none: Vec<TrackId> = Vec::new();
            assert(none@ =~= seq![]);
            store.set_remote_playlist_ids(&store_key, &none);
            let mut m = store_key;
            m.append(": the playlist changed, reloading it");
            bus.send(CoreEvent::BackgroundFailure { context: source.as_str().to_owned(), message: m });
        }
        bus.send(CoreEvent::PlaylistsChanged);
        let add: bool = match change {
            Change::Add => true,
            Change::Remove(_) => false,
        };
        let message = change_message(&track.display_name(), source.as_str(), liked, add, &outcome);
        let told = if outcome.is_ok() {
            MembershipOutcome::Changed(message)
        } else {
            MembershipOutcome::Failed(message)
        };
        if liked {
            bus.send(CoreEvent::LikeResult { track: track.id, like: add, outcome: told });
        } else {
            bus.send(CoreEvent::MembershipResult(told));
        }
        assert(bus@.take(n) =~= old(bus)@);
        reload
    }
}

fn is_unsupported(e: &Error) -> (r: bool)
    ensures
        r == (e matches Error::Unsupported(_)),
{
    match e {
        Error::Unsupported(_) => true,
        _ => false,
    }
}

fn drop_change(changes: Vec<PendingChange>, id: TrackId, position: Option<usize>) -> (r: Vec<PendingChange>)
    ensures
        pending_views(r@) == pending_views(changes@).filter(other_change(id, position)),
{
    let ghost v = pending_views(changes@);
    let ghost keep = other_change(id, position);
    let mut changes = changes;
    let mut out: Vec<PendingChange> = Vec::new();
    proof {
        reveal(Seq::filter);
        assert(pending_views(out@) =~= v.take(0).filter(keep));
    }
    let mut i: usize = 0;
    while i < changes.len()
        invariant
            i <= changes@.len(),
            v == pending_views(changes@),
            keep == other_change(id, position),
            pending_views(out@) == v.take(i as int).filter(keep),
        decreases changes@.len() - i,
    {
        proof {
            v.take(i as int).lemma_filter_push(v[i as int], keep);
            assert(v.take(i + 1) =~= v.take(i as int).push(v[i as int]));
            assert(v[i as int] == changes@[i as int]@);
        }
        let c = &changes[i];
        if !(c.track.id == id && c.position == position) {
            let ghost before = out@;
            out.push(PendingChange { track: c.track.clone(), add: c.add, position: c.position, front: c.front });
            assert(pending_views(out@) =~= pending_views(before).push(v[i as int]));
        }
        i = i + 1;
    }
    assert(v.take(i as int) =~= v);
    out
}

/// The folders of a source, or none.
pub open spec fn folders_of(m: Map<Seq<char>, FoldersView>, source: Seq<char>) -> Option<FoldersView> {
    if m.dom().contains(source) {
        Some(m[source])
    } else {
        None
    }
}

/// The folders of a source that are first looked at: what was stored.
pub open spec fn hydrated_folders(s: StoreView, key: Seq<char>) -> FoldersView {
    FoldersView {
        folders: from_stored(
            if s.folders.dom().contains(key) {
                s.folders[key]
            } else {
                seq![]
            },
        ),
        generation: 1,
        browsing: false,
        settled: false,
        last_attempt: None,
    }
}

/// The kinds of folders that a source has.
#[derive(Clone, Copy, Debug, PartialEq, Eq, Structural)]
pub enum FolderKind {
    Playlists,
    Albums,
}

/// The key of stored folders.
pub open spec fn folder_key_of(source: Seq<char>, kind: FolderKind) -> Seq<char> {
    match kind {
        FolderKind::Playlists => source,
        FolderKind::Albums => source + "#albums"@,
    }
}

pub open spec fn kind_word(kind: FolderKind) -> Seq<char> {
    match kind {
        FolderKind::Playlists => "playlists"@,
        FolderKind::Albums => "albums"@,
    }
}

pub open spec fn folder_map(c: CacheView, kind: FolderKind) -> Map<Seq<char>, FoldersView> {
    match kind {
        FolderKind::Playlists => c.playlists,
        FolderKind::Albums => c.albums,
    }
}

pub open spec fn with_folders(c: CacheView, kind: FolderKind, source: Seq<char>, f: FoldersView) -> CacheView {
    match kind {
        FolderKind::Playlists => CacheView { playlists: c.playlists.insert(source, f), ..c },
        FolderKind::Albums => CacheView { albums: c.albums.insert(source, f), ..c },
    }
}

pub fn folder_key(source: &SourceId, kind: FolderKind) -> (r: String)
    ensures
        r@ == folder_key_of(source@, kind),
{
    let mut s = source.as_str().to_owned();
    if kind == FolderKind::Albums {
        s.append("#albums");
    }
    s
}

/// The folders with their last attempt forgotten.
pub open spec fn retriable(m: Map<Seq<char>, FoldersView>, source: Seq<char>) -> Map<Seq<char>, FoldersView> {
    if m.dom().contains(source) {
        m.insert(source, FoldersView { last_attempt: None, ..m[source] })
    } else {
        m
    }
}

impl ViewCache {
    fn take_folders(&mut self, kind: FolderKind, source: &SourceId) -> (r: Option<Folders>)
        ensures
            match r {
                Some(f) => folders_of(folder_map(old(self)@, kind), source@) == Some(f@),
                None => folders_of(folder_map(old(self)@, kind), source@) is None,
            },
            final(self)@ == (match kind {
                FolderKind::Playlists => CacheView {
                    playlists: old(self)@.playlists.remove(source@),
                    ..old(self)@
                },
                FolderKind::Albums => CacheView { albums: old(self)@.albums.remove(source@), ..old(self)@ },
            }),
    {
        match kind {
            FolderKind::Playlists => {
                let r = self.playlists.take(source.as_str());
                assert(self@.playlists =~= old(self)@.playlists.remove(source@));
                r
            },
            FolderKind::Albums => {
                let r = self.albums.take(source.as_str());
                assert(self@.albums =~= old(self)@.albums.remove(source@));
                r
            },
        }
    }

    fn put_folders(&mut self, kind: FolderKind, source: &SourceId, f: Folders)
        ensures
            final(self)@ == with_folders(old(self)@, kind, source@, f@),
    {
        match kind {
            FolderKind::Playlists => {
                self.playlists.insert(source.as_str().to_owned(), f);
                assert(self@.playlists =~= old(self)@.playlists.insert(source@, f@));
            },
            FolderKind::Albums => {
                self.albums.insert(source.as_str().to_owned(), f);
                assert(self@.albums =~= old(self)@.albums.insert(source@, f@));
            },
        }
    }

    /// The folders of a source as far as they are known.
    pub fn remote_folders(&self, kind: FolderKind, source: &SourceId) -> (r: Vec<(String, BrowseNode)>)
        ensures
            folder_views(r@) == (match folders_of(folder_map(self@, kind), source@) {
                Some(f) => f.folders,
                None => seq![],
            }),
    {
        let f = match kind {
            FolderKind::Playlists => self.playlists.get(source.as_str()),
            FolderKind::Albums => self.albums.get(source.as_str()),
        };
        match f {
            Some(f) => clone_folders(&f.folders),
            None => {
                let none: Vec<(String, BrowseNode)> = Vec::new();
                assert(folder_views(none@) =~= seq![]);
                none
            },
        }
    }

    /// How often the folders of any source have changed.
    pub fn remote_playlists_gen(&self) -> (r: u64)
        ensures
            r == self@.folders_gen,
    {
        self.folders_gen
    }

    /// Lets the folders of a source be fetched again at once, unless they have settled.
    pub fn invalidate_remote_playlists(&mut self, source: &SourceId)
        ensures
            final(self)@ == (CacheView {
                playlists: retriable(old(self)@.playlists, source@),
                albums: retriable(old(self)@.albums, source@),
                ..old(self)@
            }),
    {
        if let Some(f) = self.take_folders(FolderKind::Playlists, source) {
            let mut f = f;
            f.last_attempt = None;
            self.put_folders(FolderKind::Playlists, source, f);
        }
        assert(self@.playlists =~= retriable(old(self)@.playlists, source@));
        if let Some(f) = self.take_folders(FolderKind::Albums, source) {
            let mut f = f;
            f.last_attempt = None;
            self.put_folders(FolderKind::Albums, source, f);
        }
        assert(self@.albums =~= retriable(old(self)@.albums, source@));
    }

    /// Whether a fetch of the folders of a source is to be made now. Folders that are first
    /// looked at start with what was stored.
    pub fn ensure_folders(&mut self, kind: FolderKind, source: &SourceId, now: u64, store: &MemStore) -> (r: bool)
        ensures
            ({
                let known = folders_of(folder_map(old(self)@, kind), source@);
                let f = match known {
                    Some(f) => f,
                    None => hydrated_folders(store@, folder_key_of(source@, kind)),
                };
                &&& r == folders_due(f, now)
                &&& final(self)@ == (CacheView {
                    folders_gen: if known is None {
                        bumped(old(self)@.folders_gen)
                    } else {
                        old(self)@.folders_gen
                    },
                    ..with_folders(
                        old(self)@,
                        kind,
                        source@,
                        if r {
                            FoldersView { browsing: true, last_attempt: Some(now), ..f }
                        } else {
                            f
                        },
                    )
                })
            }),
    {
        let mut f = match self.take_folders(kind, source) {
            Some(f) => f,
            None => {
                self.folders_gen = self.folders_gen.wrapping_add(1);
                Folders::hydrated(&store.remote_playlist_folders(&folder_key(source, kind)))
            },
        };
        let r = f.start(now);
        self.put_folders(kind, source, f);
        assert(self@.playlists =~= folder_map(
            with_folders(old(self)@, kind, source@, f@),
            FolderKind::Playlists,
        ));
        assert(self@.albums =~= folder_map(with_folders(old(self)@, kind, source@, f@), FolderKind::Albums));
        r
    }

    /// Takes an answer to a fetch of folders. `settles` says whether a complete answer that holds
    /// something ends the matter; after a complete answer what is known is stored.
    pub fn folders_landed(&mut self, kind: FolderKind, source: &SourceId, new: &Vec<(String, BrowseNode)>, partial: bool, errored: bool, settles: bool, store: &mut MemStore, bus: &mut Bus) -> (r: FolderStep)
        requires
            folders_of(folder_map(old(self)@, kind), source@) is Some,
        ensures
            ({
                let f = folders_of(folder_map(old(self)@, kind), source@)->0;
                let g = folders_landed(f, folder_views(new@), partial, errored, settles);
                &&& r == folder_step(partial, errored)
                &&& final(self)@ == (CacheView {
                    folders_gen: if g.generation != f.generation {
                        bumped(old(self)@.folders_gen)
                    } else {
                        old(self)@.folders_gen
                    },
                    ..with_folders(old(self)@, kind, source@, g)
                })
                &&& final(store)@ == (if r == FolderStep::Done {
                    StoreView {
                        folders: old(store)@.folders.insert(
                            folder_key_of(source@, kind),
                            to_store(g.folders),
                        ),
                        ..old(store)@
                    }
                } else {
                    old(store)@
                })
            }),
            final(bus)@ == old(bus)@.push(CoreEvent::PlaylistsChanged),
    {
        let mut f = match self.take_folders(kind, source) {
            Some(f) => f,
            None => {
                return FolderStep::Failed;
            },
        };
        let before: u64 = f.generation;
        let r = f.landed(new, partial, errored, settles);
        if f.generation != before {
            self.folders_gen = self.folders_gen.wrapping_add(1);
        }
        bus.send(CoreEvent::PlaylistsChanged);
        if r == FolderStep::Done {
            store.set_remote_playlist_folders(&folder_key(source, kind), &f.storable());
        }
        self.put_folders(kind, source, f);
        assert(self@.playlists =~= folder_map(
            with_folders(old(self)@, kind, source@, f@),
            FolderKind::Playlists,
        ));
        assert(self@.albums =~= folder_map(with_folders(old(self)@, kind, source@, f@), FolderKind::Albums));
        r
    }

    /// Ends a fetch of folders, with why it failed if it did.
    pub fn folders_done(&mut self, kind: FolderKind, source: &SourceId, failure: Option<String>, bus: &mut Bus)
        ensures
            final(self)@ == (match folders_of(folder_map(old(self)@, kind), source@) {
                Some(f) => with_folders(old(self)@, kind, source@, FoldersView { browsing: false, ..f }),
                None => old(self)@,
            }),
            match failure {
                None => final(bus)@ == old(bus)@.push(CoreEvent::PlaylistsChanged),
                Some(m) => failure_told(old(bus)@, final(bus)@, source@, kind_word(kind) + ": "@ + m@),
            },
    {
        match self.take_folders(kind, source) {
            Some(f) => {
                let mut f = f;
                f.browsing = false;
                self.put_folders(kind, source, f);
                assert(self@.playlists =~= folder_map(
                    with_folders(old(self)@, kind, source@, f@),
                    FolderKind::Playlists,
                ));
                assert(self@.albums =~= folder_map(
                    with_folders(old(self)@, kind, source@, f@),
                    FolderKind::Albums,
                ));
            },
            None => {
                assert(self@.playlists =~= old(self)@.playlists);
                assert(self@.albums =~= old(self)@.albums);
            },
        }
        if let Some(m) = failure {
            let mut text = match kind {
                FolderKind::Playlists => "playlists".to_owned(),
                FolderKind::Albums => "albums".to_owned(),
            };
            text.append(": ");
            text.append(&m);
            bus.send(CoreEvent::BackgroundFailure { context: source.as_str().to_owned(), message: text });
        }
        bus.send(CoreEvent::PlaylistsChanged);
        assert(bus@.take(old(bus)@.len() as int) =~= old(bus)@);
    }

    /// Whether a fetch of the folders of a source is running.
    pub fn remote_playlists_loading(&self, source: &SourceId) -> (r: bool)
        ensures
            r == ((folders_of(self@.playlists, source@) matches Some(f) && f.browsing) || (folders_of(
                self@.albums,
                source@,
            ) matches Some(f) && f.browsing)),
    {
        let a: bool = match self.playlists.get(source.as_str()) {
            Some(f) => f.browsing,
            None => false,
        };
        let b: bool = match self.albums.get(source.as_str()) {
            Some(f) => f.browsing,
            None => false,
        };
        a || b
    }
}

/// The tracks with every copy of one replaced.
pub open spec fn all_refreshed(v: Seq<TrackView>, id: TrackId, fresh: TrackView) -> Seq<TrackView> {
    v.map_values(
        |t: TrackView|
            if t.id == id {
                fresh
            } else {
                t
            },
    )
}

pub open spec fn refreshed_results(id: TrackId, fresh: TrackView) -> spec_fn(ResultView) -> ResultView {
    |r: ResultView| ResultView { tracks: all_refreshed(r.tracks, id, fresh), ..r }
}

pub open spec fn refreshed_lists(id: TrackId, fresh: TrackView) -> spec_fn(ListView) -> ListView {
    |l: ListView| ListView { tracks: all_refreshed(l.tracks, id, fresh), ..l }
}

fn refresh_all(v: &mut Vec<Track>, id: TrackId, fresh: &Track)
    ensures
        track_views(final(v)@) == all_refreshed(track_views(old(v)@), id, fresh@),
{
    let ghost was = track_views(v@);
    let n: usize = v.len();
    let mut i: usize = 0;
    while i < n
        invariant
            i <= n == v@.len() == was.len(),
            forall|j: int| 0 <= j < i ==> (#[trigger] v@[j])@ == all_refreshed(was, id, fresh@)[j],
            forall|j: int| i <= j < n ==> (#[trigger] v@[j])@ == was[j],
        decreases n - i,
    {
        if v[i].id == id {
            v.set(i, fresh.clone());
        }
        i = i + 1;
    }
    assert(track_views(v@) =~= all_refreshed(was, id, fresh@));
}

impl ViewCache {
    /// A track was written: every copy that is shown follows.
    pub fn refresh_cached_track(&mut self, id: TrackId, store: &MemStore)
        ensures
            final(self)@ == (match track_of(store@, id) {
                None => old(self)@,
                Some(fresh) => CacheView {
                    results: old(self)@.results.map_values(refreshed_results(id, fresh)),
                    lists: old(self)@.lists.map_values(refreshed_lists(id, fresh)),
                    ..old(self)@
                },
            }),
    {
        let fresh = match store.get_track(id) {
            Some(t) => t,
            None => {
                return;
            },
        };
        self.refresh_results(id, &fresh);
        self.refresh_lists(id, &fresh);
    }

    fn refresh_results(&mut self, id: TrackId, fresh: &Track)
        ensures
            final(self)@ == (CacheView {
                results: old(self)@.results.map_values(refreshed_results(id, fresh@)),
                ..old(self)@
            }),
    {
        let ghost was = self@.results;
        let ghost f = refreshed_results(id, fresh@);
        let mut all: IdMap<ResultSet> = IdMap::new();
        std::mem::swap(&mut all, &mut self.results);
        let mut out: IdMap<ResultSet> = IdMap::new();
        proof {
            use_type_invariant(&all);
            all.keys_are_the_domain();
        }
        let ghost keys = all.keys();
        let mut ids: Vec<u128> = Vec::new();
        let mut i: usize = 0;
        while i < all.len()
            invariant
                i <= keys.len(),
                keys == all.keys(),
                ids@ == keys.take(i as int),
            decreases keys.len() - i,
        {
            ids.push(all.key_at(i));
            assert(keys.take(i + 1) =~= keys.take(i as int).push(keys[i as int]));
            i = i + 1;
        }
        assert(ids@ =~= keys);
        assert(all@.map_values(|r: ResultSet| r@) =~= was);
        assert forall|j: int| 0 <= j < keys.len() implies all@.dom().contains(#[trigger] keys[j]) && all@[keys[j]]@
            == was[keys[j]] by {
            assert(keys.contains(keys[j]));
        }
        let mut i: usize = 0;
        while i < ids.len()
            invariant
                i <= ids@.len(),
                ids@ == keys,
                keys.no_duplicates(),
                f == refreshed_results(id, fresh@),
                forall|j: int| i <= j < keys.len() ==> all@.dom().contains(#[trigger] keys[j]) && all@[keys[j]]@
                    == was[keys[j]],
                forall|j: int| 0 <= j < i ==> out@.dom().contains(#[trigger] keys[j]) && out@[keys[j]]@ == f(
                    was[keys[j]],
                ),
                forall|k: u128| #[trigger] out@.dom().contains(k) ==> keys.contains(k),
            decreases ids@.len() - i,
        {
            assert(all@.dom().contains(keys[i as int]));
            if let Some(set) = all.take(ids[i]) {
                let mut set = set;
                refresh_all(&mut set.tracks, id, fresh);
                out.insert(ids[i], set);
                assert(keys.contains(keys[i as int]));
                assert(out@[keys[i as int]]@ == f(was[keys[i as int]]));
            }
            i = i + 1;
        }
        proof {
            assert forall|k: u128| out@.dom().contains(k) <==> was.dom().contains(k) by {
                if was.dom().contains(k) {
                    assert(keys.contains(k));
                    let j = choose|j: int| 0 <= j < keys.len() && keys[j] == k;
                    assert(out@.dom().contains(keys[j]));
                }
                if out@.dom().contains(k) {
                    assert(keys.contains(k));
                }
            }
            assert forall|k: u128| out@.dom().contains(k) implies out@[k]@ == f(was[k]) by {
                assert(keys.contains(k));
                let j = choose|j: int| 0 <= j < keys.len() && keys[j] == k;
                assert(out@[keys[j]]@ == f(was[keys[j]]));
            }
        }
        self.results = out;
        assert(self@.results =~= was.map_values(f));
    }

    fn refresh_lists(&mut self, id: TrackId, fresh: &Track)
        ensures
            final(self)@ == (CacheView {
                lists: old(self)@.lists.map_values(refreshed_lists(id, fresh@)),
                ..old(self)@
            }),
    {
        let ghost was = self@.lists;
        let ghost f = refreshed_lists(id, fresh@);
        let mut all: StrMap<RemoteTracks> = StrMap::new();
        std::mem::swap(&mut all, &mut self.lists);
        let mut out: StrMap<RemoteTracks> = StrMap::new();
        proof {
            use_type_invariant(&all);
            all.keys_are_the_domain();
        }
        let ghost keys = all.keys();
        let mut names: Vec<String> = Vec::new();
        let mut i: usize = 0;
        while i < all.len()
            invariant
                i <= keys.len(),
                keys == all.keys(),
                names@.len() == i,
                forall|j: int| 0 <= j < i ==> (#[trigger] names@[j])@ == keys[j],
            decreases keys.len() - i,
        {
            names.push(all.key_at(i).clone());
            i = i + 1;
        }
        assert(all@.map_values(|l: RemoteTracks| l@) =~= was);
        assert forall|j: int| 0 <= j < keys.len() implies all@.dom().contains(#[trigger] keys[j]) && all@[keys[j]]@
            == was[keys[j]] by {
            assert(keys.contains(keys[j]));
        }
        let mut i: usize = 0;
        while i < names.len()
            invariant
                i <= names@.len() == keys.len(),
                forall|j: int| 0 <= j < keys.len() ==> (#[trigger] names@[j])@ == keys[j],
                keys.no_duplicates(),
                f == refreshed_lists(id, fresh@),
                forall|j: int| i <= j < keys.len() ==> all@.dom().contains(#[trigger] keys[j]) && all@[keys[j]]@
                    == was[keys[j]],
                forall|j: int| 0 <= j < i ==> out@.dom().contains(#[trigger] keys[j]) && out@[keys[j]]@ == f(
                    was[keys[j]],
                ),
                forall|k: Seq<char>| #[trigger] out@.dom().contains(k) ==> keys.contains(k),
            decreases names@.len() - i,
        {
            assert(all@.dom().contains(keys[i as int]));
            assert(names@[i as int]@ == keys[i as int]);
            if let Some(l) = all.take(&names[i]) {
                let mut l = l;
                refresh_all(&mut l.tracks, id, fresh);
                out.insert(names[i].clone(), l);
                assert(keys.contains(keys[i as int]));
                assert(out@[keys[i as int]]@ == f(was[keys[i as int]]));
            }
            i = i + 1;
        }
        proof {
            assert forall|k: Seq<char>| out@.dom().contains(k) <==> was.dom().contains(k) by {
                if was.dom().contains(k) {
                    assert(keys.contains(k));
                    let j = choose|j: int| 0 <= j < keys.len() && keys[j] == k;
                    assert(out@.dom().contains(keys[j]));
                }
                if out@.dom().contains(k) {
                    assert(keys.contains(k));
                }
            }
            assert forall|k: Seq<char>| out@.dom().contains(k) implies out@[k]@ == f(was[k]) by {
                assert(keys.contains(k));
                let j = choose|j: int| 0 <= j < keys.len() && keys[j] == k;
                assert(out@[keys[j]]@ == f(was[keys[j]]));
            }
        }
        self.lists = out;
        assert(self@.lists =~= was.map_values(f));
    }
}

/// A change that was started makes the track read as being changed, and shuts out another change
/// of the same track.
pub proof fn started_changes_show(v: Seq<PendingView>, t: TrackView, add: bool, position: Option<usize>, front: bool, list: Seq<TrackView>)
    requires
        !clashes(v, t.id, position),
        position is None,
    ensures
        ({
            let w = v.push(PendingView { track: t, add, position, front });
            &&& membership_of(w, list, t.id) == (if add {
                Membership::PendingAdd
            } else {
                Membership::PendingRemove
            })
            &&& forall|p: Option<usize>| #[trigger] clashes(w, t.id, p)
        }),
{
    let c = PendingView { track: t, add, position, front };
    let w = v.push(c);
    let n = v.len() as int;
    assert forall|p: Option<usize>| #[trigger] clashes(w, t.id, p) by {
        assert(w[n] == c);
        assert(clash(w[n], t.id, p));
    }
    assert forall|i: int| 0 <= i < n implies (#[trigger] w[i]).track.id != t.id by {
        assert(w[i] == v[i]);
        assert(!clash(v[i], t.id, position));
    }
    lemma_first_change(w, t.id, 0, n);
}

proof fn lemma_first_change(w: Seq<PendingView>, id: TrackId, i: int, n: int)
    requires
        0 <= i <= n < w.len(),
        w[n].track.id == id,
        forall|j: int| i <= j < n ==> (#[trigger] w[j]).track.id != id,
    ensures
        first_change(w, id, i) == Some(w[n]),
    decreases n - i,
{
    if i < n {
        lemma_first_change(w, id, i + 1, n);
    }
}

/// The rows that are shown hold every row of the list, in its order.
pub proof fn shown_rows_hold_the_list(v: Seq<PendingView>, list: Seq<TrackView>)
    ensures
        ({
            let n = adds(v, list, true).len() as int;
            shown_rows(v, list).subrange(n, n + list.len()) == list
        }),
        v.len() == 0 ==> shown_rows(v, list) == list,
{
    let n = adds(v, list, true).len() as int;
    assert(shown_rows(v, list).subrange(n, n + list.len()) =~= list);
    if v.len() == 0 {
        assert(shown_rows(v, list) =~= list);
    }
}

} // verus!
