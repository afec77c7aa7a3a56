//! What a front-end reads of a running player.

use vstd::prelude::*;
use crate::env::Env;
use crate::hotkeys::{opt_target, HotkeyTarget, HotkeyView};
use crate::playback::NOW_PLAYING_PLAYLIST_ID;
use crate::queue::{ids_of, window_of};
use crate::remote::list_ids;
use crate::session::{Session, SessionView, HISTORY_PLAYLIST_ID, QUEUE_PLAYLIST_ID};
use crate::store::{opt_track, playlist_of, track_of, tracks_of};
use crate::traits::PlayerStatus;
use crate::types::{clone_ids, opt_text, Playlist, PlaylistId, PlaylistView, Track, TrackId, track_views};
use crate::view_cache::ResultView;

verus! {

/// The tracks of the queue as it is shown: the one that plays first.
pub open spec fn shown_queue(v: SessionView) -> Seq<TrackId> {
    match v.w.p.queue.current {
        Some(id) => seq![id] + v.w.p.queue.queue,
        None => v.w.p.queue.queue,
    }
}

/// The tracks of the list that plays.
pub open spec fn context_tracks(v: SessionView) -> Seq<TrackId> {
    match v.w.p.context {
        Some(x) => x.tracks,
        None => seq![],
    }
}

/// The playlist that plays.
pub open spec fn playlist_playing(v: SessionView) -> Option<HotkeyView> {
    match v.w.p.context {
        Some(x) => match x.remote {
            Some((s, n)) => Some(HotkeyView::Remote(s, n)),
            None => match x.local {
                Some(id) => Some(HotkeyView::Local(id)),
                None => None,
            },
        },
        None => None,
    }
}

/// The identifiers that no playlist of the user has.
pub open spec fn reserved(id: u128) -> bool {
    id == QUEUE_PLAYLIST_ID || id == HISTORY_PLAYLIST_ID || id == NOW_PLAYING_PLAYLIST_ID
}

pub open spec fn playlist_views(v: Seq<Playlist>) -> Seq<PlaylistView> {
    v.map_values(|p: Playlist| p@)
}

/// Whether a row shows the playlists of the user, each once, under identifiers in some order.
pub open spec fn lists_playlists(m: Map<u128, PlaylistView>, ids: Seq<u128>, row: Seq<PlaylistView>) -> bool {
    &&& ids.no_duplicates()
    &&& forall|id: u128| ids.contains(id) <==> m.dom().contains(id) && !reserved(id)
    &&& row == ids.map_values(|id: u128| m[id])
}

pub open spec fn items_in(v: SessionView, id: PlaylistId) -> Seq<TrackId> {
    match playlist_of(v.w.s, id) {
        Some(p) => p.items,
        None => seq![],
    }
}

/// The results that are shown.
pub open spec fn shown_results(v: SessionView) -> Option<ResultView> {
    if v.cache.results.dom().contains(v.shown_search as u128) {
        Some(v.cache.results[v.shown_search as u128])
    } else {
        None
    }
}

/// What played last, and of which playlist.
pub struct LastPlayed {
    pub track: TrackId,
    pub playlist: Option<HotkeyTarget>,
}

/// Which list rows are of.
pub enum ListRef {
    /// The list that plays.
    Context,
    Playlist(HotkeyTarget),
    Other,
}

/// The distance of two places.
pub open spec fn apart(i: int, j: int) -> int {
    if i <= j {
        j - i
    } else {
        i - j
    }
}

/// Whether a row is the one that plays: the first of its track, or the nearest to the place that
/// plays where that is known.
pub open spec fn is_playing_row(ids: Seq<TrackId>, id: TrackId, anchor: Option<usize>, i: int) -> bool {
    &&& 0 <= i < ids.len() && ids[i] == id
    &&& forall|j: int|
        0 <= j < ids.len() && #[trigger] ids[j] == id ==> match anchor {
            Some(a) => apart(i, a as int) < apart(j, a as int) || (apart(i, a as int) == apart(j, a as int) && i <= j),
            None => i <= j,
        }
}

/// The place in its list that plays, where rows are of that list.
pub open spec fn anchor_of(v: SessionView, own: ListRef) -> Option<usize> {
    match (v.w.p.context, v.w.p.now_playing) {
        (Some(x), Some(id)) => if x.index < x.tracks.len() && x.tracks[x.index as int] == id && (match own {
            ListRef::Context => true,
            ListRef::Playlist(t) => playlist_playing(v) == Some(t@),
            ListRef::Other => false,
        }) {
            Some(x.index)
        } else {
            None
        },
        _ => None,
    }
}

fn cut(ids: &Vec<TrackId>, offset: usize, limit: usize) -> (r: Vec<TrackId>)
    ensures
        r@ == window_of(ids@, offset as nat, limit as nat),
{
    let n: usize = ids.len();
    let mut out: Vec<TrackId> = Vec::new();
    if offset >= n {
        return out;
    }
    let count: usize = if n - offset <= limit {
        n - offset
    } else {
        limit
    };
    let mut i: usize = 0;
    while i < count
        invariant
            n == ids@.len(),
            offset < n,
            i <= count <= n - offset,
            out@ == ids@.subrange(offset as int, offset + i),
        decreases count - i,
    {
        out.push(ids[offset + i]);
        i = i + 1;
    }
    assert(out@ =~= window_of(ids@, offset as nat, limit as nat));
    out
}

impl Session {
    /// The tracks of a row of identifiers; those that are not there are left out.
    pub fn tracks_for(&self, ids: &Vec<TrackId>) -> (r: Vec<Track>)
        ensures
            track_views(r@) == tracks_of(self@.w.s, ids@),
    {
        self.catalog.store.get_tracks(ids)
    }

    /// The tracks that the shown search found.
    pub fn results_ids(&self) -> (r: Vec<TrackId>)
        ensures
            r@ == (match shown_results(self@) {
                Some(s) => list_ids(s.tracks),
                None => seq![],
            }),
    {
        match self.cache.results(self.search_generation) {
            Some(s) => s.track_ids(),
            None => Vec::new(),
        }
    }

    pub fn results_len(&self) -> (r: usize)
        ensures
            r == (match shown_results(self@) {
                Some(s) => s.tracks.len(),
                None => 0,
            }),
    {
        match self.cache.results(self.search_generation) {
            Some(s) => {
                assert(s@.tracks.len() == s.tracks@.len());
                s.tracks.len()
            },
            None => 0,
        }
    }

    /// At most `limit` of the tracks that the shown search found, from `offset` on.
    pub fn results_window(&self, offset: usize, limit: usize) -> (r: Vec<Track>)
        ensures
            track_views(r@) == (match shown_results(self@) {
                Some(s) => window_of(s.tracks, offset as nat, limit as nat),
                None => seq![],
            }),
    {
        let mut out: Vec<Track> = Vec::new();
        assert(track_views(out@) =~= seq![]);
        if let Some(s) = self.cache.results(self.search_generation) {
            let n: usize = s.tracks.len();
            let ghost v = s@.tracks;
            if offset < n {
                let count: usize = if n - offset <= limit {
                    n - offset
                } else {
                    limit
                };
                let mut i: usize = 0;
                while i < count
                    invariant
                        n == s.tracks@.len(),
                        v == s@.tracks,
                        offset < n,
                        i <= count <= n - offset,
                        out@.len() == i,
                        forall|j: int| 0 <= j < i ==> (#[trigger] out@[j])@ == v[offset + j],
                    decreases count - i,
                {
                    assert(v[offset + i] == s.tracks@[offset + i]@);
                    out.push(s.tracks[offset + i].clone());
                    i = i + 1;
                }
                assert(track_views(out@) =~= window_of(v, offset as nat, limit as nat));
            }
        }
        out
    }

    /// What the shown search looks for.
    pub fn results_query(&self) -> (r: Option<&str>)
        ensures
            match r {
                Some(q) => shown_results(self@) matches Some(s) && s.query == q@,
                None => shown_results(self@) is None,
            },
    {
        match self.cache.results(self.search_generation) {
            Some(s) => Some(s.query()),
            None => None,
        }
    }

    /// Moves when the shown search has found more; 0 without one.
    pub fn results_gen(&self) -> (r: u64)
        ensures
            r == (match shown_results(self@) {
                Some(s) => s.generation,
                None => 0,
            }),
    {
        match self.cache.results(self.search_generation) {
            Some(s) => s.generation(),
            None => 0,
        }
    }

    /// The tracks of the queue as it is shown.
    pub fn queue_ids(&self) -> (r: Vec<TrackId>)
        ensures
            r@ == shown_queue(self@),
    {
        let rest = self.playback.queue.snapshot();
        match self.playback.queue.get_current() {
            None => rest,
            Some(id) => {
                let mut out: Vec<TrackId> = Vec::new();
                out.push(id);
                let mut i: usize = 0;
                while i < rest.len()
                    invariant
                        i <= rest@.len(),
                        out@ == seq![id] + rest@.take(i as int),
                    decreases rest@.len() - i,
                {
                    out.push(rest[i]);
                    assert(rest@.take(i + 1) =~= rest@.take(i as int).push(rest@[i as int]));
                    i = i + 1;
                    assert(out@ =~= seq![id] + rest@.take(i as int));
                }
                assert(rest@.take(i as int) =~= rest@);
                out
            },
        }
    }

    pub fn queue_len(&self) -> (r: usize)
        requires
            shown_queue(self@).len() <= usize::MAX,
        ensures
            r == shown_queue(self@).len(),
    {
        if self.playback.queue.get_current().is_some() {
            self.playback.queue.len() + 1
        } else {
            self.playback.queue.len()
        }
    }

    /// At most `limit` tracks of the queue as it is shown, from `offset` on.
    pub fn queue_window(&self, offset: usize, limit: usize) -> (r: Vec<Track>)
        ensures
            track_views(r@) == tracks_of(self@.w.s, window_of(shown_queue(self@), offset as nat, limit as nat)),
    {
        self.catalog.store.get_tracks(&cut(&self.queue_ids(), offset, limit))
    }

    /// The played tracks, the latest first.
    pub fn history_ids(&self) -> (r: Vec<TrackId>)
        ensures
            r@ == ids_of(self@.w.p.queue.history).reverse(),
    {
        let v = self.playback.queue.history_snapshot();
        let n: usize = v.len();
        let mut out: Vec<TrackId> = Vec::new();
        let mut i: usize = 0;
        while i < n
            invariant
                i <= n == v@.len(),
                out@.len() == i,
                forall|j: int| 0 <= j < i ==> out@[j] == v@.reverse()[j],
            decreases n - i,
        {
            out.push(v[n - 1 - i]);
            i = i + 1;
        }
        assert(out@ =~= v@.reverse());
        out
    }

    /// At most `limit` of the played tracks, the latest first, from `offset` on.
    pub fn history_window(&self, offset: usize, limit: usize) -> (r: Vec<Track>)
        ensures
            track_views(r@) == tracks_of(
                self@.w.s,
                window_of(ids_of(self@.w.p.queue.history).reverse(), offset as nat, limit as nat),
            ),
    {
        self.catalog.store.get_tracks(&self.playback.queue.history_window(offset, limit))
    }

    /// The playlists of the user, each once.
    pub fn playlists(&self) -> (r: Vec<Playlist>)
        ensures
            exists|ids: Seq<u128>| #[trigger]
                lists_playlists(self@.w.s.playlists, ids, playlist_views(r@)),
    {
        let ids = self.catalog.store.playlist_ids();
        let ghost m = self@.w.s.playlists;
        let ghost mut kept = Seq::<u128>::empty();
        let mut out: Vec<Playlist> = Vec::new();
        let mut i: usize = 0;
        while i < ids.len()
            invariant
                i <= ids@.len(),
                m == self@.w.s.playlists,
                forall|id: u128| m.dom().contains(id) <==> ids@.contains(PlaylistId(id)),
                ids@.no_duplicates(),
                kept.len() == out@.len(),
                kept.no_duplicates(),
                forall|j: int| 0 <= j < out@.len() ==> (#[trigger] out@[j])@ == m[kept[j]],
                forall|id: u128| #[trigger]
                    kept.contains(id) <==> ids@.take(i as int).contains(PlaylistId(id)) && !reserved(id),
            decreases ids@.len() - i,
        {
            let id = ids[i];
            proof {
                assert(ids@.contains(ids@[i as int]));
                assert(m.dom().contains(id.0));
                assert(ids@.take(i + 1) =~= ids@.take(i as int).push(id));
                assert(id == PlaylistId(id.0));
                assert(!ids@.take(i as int).contains(PlaylistId(id.0)));
                assert forall|k: u128| #[trigger] ids@.take(i + 1).contains(PlaylistId(k)) <==> ids@.take(i as int).contains(
                    PlaylistId(k),
                ) || k == id.0 by {
                    if k == id.0 {
                        assert(ids@.take(i + 1)[i as int] == PlaylistId(k));
                    }
                    if ids@.take(i as int).contains(PlaylistId(k)) {
                        let j = choose|j: int| 0 <= j < i && ids@.take(i as int)[j] == PlaylistId(k);
                        assert(ids@.take(i + 1)[j] == PlaylistId(k));
                    }
                }
            }
            if id.0 != QUEUE_PLAYLIST_ID && id.0 != HISTORY_PLAYLIST_ID && id.0 != NOW_PLAYING_PLAYLIST_ID {
                if let Some(p) = self.catalog.store.get_playlist(id) {
                    let ghost before = kept;
                    out.push(p);
                    proof {
                        kept = kept.push(id.0);
                        assert(!before.contains(id.0));
                        assert forall|k: u128| kept.contains(k) <==> before.contains(k) || k == id.0 by {
                            if k == id.0 {
                                assert(kept[before.len() as int] == k);
                            }
                            if before.contains(k) {
                                let j = choose|j: int| 0 <= j < before.len() && before[j] == k;
                                assert(kept[j] == k);
                            }
                        }
                    }
                }
            }
            i = i + 1;
        }
        proof {
            assert(ids@.take(i as int) =~= ids@);
            assert forall|id: u128| kept.contains(id) <==> m.dom().contains(id) && !reserved(id) by {}
            assert(playlist_views(out@) =~= kept.map_values(|id: u128| m[id]));
            assert(lists_playlists(m, kept, playlist_views(out@)));
        }
        out
    }

    /// The tracks of a playlist.
    pub fn playlist_track_ids(&self, id: PlaylistId) -> (r: Vec<TrackId>)
        ensures
            r@ == items_in(self@, id),
    {
        match self.catalog.store.get_playlist(id) {
            Some(p) => p.items,
            None => Vec::new(),
        }
    }

    pub fn playlist_len(&self, id: PlaylistId) -> (r: usize)
        ensures
            r == items_in(self@, id).len(),
    {
        match self.catalog.store.get_playlist(id) {
            Some(p) => p.items.len(),
            None => 0,
        }
    }

    /// At most `limit` tracks of a playlist, from `offset` on.
    pub fn playlist_window(&self, id: PlaylistId, offset: usize, limit: usize) -> (r: Vec<Track>)
        ensures
            track_views(r@) == tracks_of(
                self@.w.s,
                window_of(items_in(self@, id), offset as nat, limit as nat),
            ),
    {
        self.catalog.store.get_tracks(&cut(&self.playlist_track_ids(id), offset, limit))
    }

    /// The tracks of the list that plays, or played last.
    pub fn playing_context_ids(&self) -> (r: Vec<TrackId>)
        ensures
            r@ == context_tracks(self@),
    {
        match &self.playback.context {
            Some(x) => clone_ids(&x.tracks),
            None => Vec::new(),
        }
    }

    pub fn playing_context_len(&self) -> (r: usize)
        ensures
            r == context_tracks(self@).len(),
    {
        match &self.playback.context {
            Some(x) => x.tracks.len(),
            None => 0,
        }
    }

    pub fn playing_context_name(&self) -> (r: Option<String>)
        ensures
            opt_text(r) == (match self@.w.p.context {
                Some(x) => x.name,
                None => None,
            }),
    {
        match &self.playback.context {
            Some(x) => match &x.name {
                Some(n) => Some(n.clone()),
                None => None,
            },
            None => None,
        }
    }

    pub fn playing_context_window(&self, offset: usize, limit: usize) -> (r: Vec<Track>)
        ensures
            track_views(r@) == tracks_of(
                self@.w.s,
                window_of(context_tracks(self@), offset as nat, limit as nat),
            ),
    {
        self.catalog.store.get_tracks(&cut(&self.playing_context_ids(), offset, limit))
    }

    /// The playlist that plays, if it is one.
    pub fn playing_playlist(&self) -> (r: Option<HotkeyTarget>)
        ensures
            opt_target(r) == playlist_playing(self@),
    {
        match &self.playback.context {
            None => None,
            Some(x) => match &x.remote {
                Some((s, n)) => Some(HotkeyTarget::Remote(s.clone(), n.clone())),
                None => match x.local {
                    Some(id) => Some(HotkeyTarget::Local(id)),
                    None => None,
                },
            },
        }
    }

    /// What plays, and of which playlist.
    pub fn last_played(&self) -> (r: Option<LastPlayed>)
        ensures
            match r {
                Some(l) => self@.w.p.now_playing == Some(l.track) && opt_target(l.playlist)
                    == playlist_playing(self@),
                None => self@.w.p.now_playing is None,
            },
    {
        match self.playback.now_playing {
            Some(track) => Some(LastPlayed { track, playlist: self.playing_playlist() }),
            None => None,
        }
    }

    pub fn now_playing_id(&self) -> (r: Option<TrackId>)
        ensures
            r == self@.w.p.now_playing,
    {
        self.playback.now_playing
    }

    pub fn now_playing(&self) -> (r: Option<Track>)
        ensures
            opt_track(r) == (match self@.w.p.now_playing {
                Some(id) => track_of(self@.w.s, id),
                None => None,
            }),
    {
        match self.playback.now_playing {
            Some(id) => self.catalog.store.get_track(id),
            None => None,
        }
    }

    fn anchor(&self, own: &ListRef) -> (r: Option<usize>)
        ensures
            r == anchor_of(self@, *own),
    {
        let id = match self.playback.now_playing {
            Some(id) => id,
            None => {
                return None;
            },
        };
        match &self.playback.context {
            None => None,
            Some(x) => {
                if x.index < x.tracks.len() && x.tracks[x.index] == id {
                    let mine: bool = match own {
                        ListRef::Context => true,
                        ListRef::Playlist(t) => match self.playing_playlist() {
                            Some(p) => p.same(t),
                            None => false,
                        },
                        ListRef::Other => false,
                    };
                    if mine {
                        Some(x.index)
                    } else {
                        None
                    }
                } else {
                    None
                }
            },
        }
    }

    /// The row that plays, of rows as they are shown.
    pub fn playing_row(&self, ids: &Vec<TrackId>, own: &ListRef) -> (r: Option<usize>)
        ensures
            match (self@.w.p.now_playing, r) {
                (Some(id), Some(i)) => is_playing_row(ids@, id, anchor_of(self@, *own), i as int),
                (Some(id), None) => !ids@.contains(id),
                (None, _) => r is None,
            },
    {
        let id = match self.playback.now_playing {
            Some(id) => id,
            None => {
                return None;
            },
        };
        let anchor = self.anchor(own);
        let mut best: Option<usize> = None;
        let mut i: usize = 0;
        while i < ids.len()
            invariant
                i <= ids@.len(),
                match best {
                    Some(b) => {
                        &&& b < i && ids@[b as int] == id
                        &&& forall|j: int|
                            0 <= j < i && #[trigger] ids@[j] == id ==> match anchor {
                                Some(a) => apart(b as int, a as int) < apart(j, a as int) || (apart(b as int, a as int)
                                    == apart(j, a as int) && b <= j),
                                None => b <= j,
                            }
                    },
                    None => forall|j: int| 0 <= j < i ==> ids@[j] != id,
                },
            decreases ids@.len() - i,
        {
            if ids[i] == id {
                match (best, anchor) {
                    (None, _) => {
                        best = Some(i);
                    },
                    (Some(b), Some(a)) => {
                        if gap(i, a) < gap(b, a) {
                            best = Some(i);
                        }
                    },
                    (Some(_), None) => {},
                }
            }
            i = i + 1;
        }
        best
    }

    /// Whether the order by chance is on.
    pub fn shuffle(&self) -> (r: bool)
        ensures
            r == self@.w.p.queue.shuffle,
    {
        self.playback.queue.get_shuffle()
    }

    /// Whether the audio of a track is on disk.
    pub fn is_track_cached(&self, track: &Track, env: &Env) -> (r: bool)
        ensures
            r == (crate::env::cached_file(env@, track@.renditions, 0) is Some),
    {
        env.is_track_cached(track)
    }

    /// What is shown of the player.
    pub fn player_status(&self) -> (r: PlayerStatus)
        ensures
            r == (PlayerStatus {
                state: self@.w.p.state,
                position_ms: self@.w.p.progress.0,
                duration_ms: self@.w.p.progress.1,
                buffering: false,
                download_pct: None,
            }),
    {
        PlayerStatus {
            state: self.playback.state,
            position_ms: self.playback.progress.0,
            duration_ms: self.playback.progress.1,
            buffering: false,
            download_pct: None,
        }
    }
}

fn gap(i: usize, j: usize) -> (r: usize)
    ensures
        r == apart(i as int, j as int),
{
    if i <= j {
        j - i
    } else {
        i - j
    }
}

} // verus!
