//! Tracks into playlists and out of them, and likes.

use vstd::prelude::*;
use crate::command::{request_views, Command, Dispatch, DispatchView, Request, RequestView};
use crate::event::CoreEvent;
use crate::folders::folder_views;
use crate::hotkeys::HotkeyTarget;
use crate::playback::World;
use crate::queue::bumped;
use crate::session::{facts_views, node_views, source_at, synthetic_in, Session, SessionView, SourceFacts, SourceView};
use crate::session_views::items_in;
use crate::store::{playlist_of, track_of, StoreView};
use crate::text::{append_decimal, append_str, debug_text, decimal, quoted, string_of};
use crate::traits::{BrowseNode, Error};
use crate::types::{
    opt_text, track_name, Playlist, PlaylistId, PlaylistView, RenditionView, SourceId, Track, TrackId, TrackView,
};
use crate::view_cache::{
    changes_of, clashes, first_change, folders_of, membership_of, occurrences_of, position_of, tracks_in, with_changes,
    CacheView, Change, FolderKind, Membership, PendingView,
};

verus! {

/// A playlist is written, and everything that follows from its tracks hears of it.
pub open spec fn s_save(v: SessionView, p: PlaylistView) -> SessionView {
    SessionView {
        w: World {
            s: StoreView { playlists: v.w.s.playlists.insert(p.id.0, p), ..v.w.s },
            ev: v.w.ev.push(CoreEvent::PlaylistsChanged),
            ..v.w
        },
        playlists_gen: bumped(v.playlists_gen),
        memo_dirty: true,
        ..v
    }
}

pub open spec fn other_track(id: TrackId) -> spec_fn(TrackId) -> bool {
    |t: TrackId| t != id
}

/// A track is put into a playlist that lacks it; of one that holds it a row is taken out, or
/// every occurrence. Nothing comes of it where the playlist or the track is not there.
pub open spec fn s_toggle_local(v: SessionView, track: TrackId, playlist: PlaylistId, position: Option<usize>) -> (SessionView, Option<DispatchView>) {
    match (playlist_of(v.w.s, playlist), track_of(v.w.s, track)) {
        (Some(p), Some(t)) => {
            let name = track_name(t);
            let added = !p.items.contains(track);
            let done = DispatchView::MembershipSet { track: name, playlist: p.name, added };
            if added {
                (s_save(v, PlaylistView { items: p.items.push(track), ..p }), Some(done))
            } else {
                match position {
                    Some(row) => if row < p.items.len() && p.items[row as int] == track {
                        (s_save(v, PlaylistView { items: p.items.remove(row as int), ..p }), Some(done))
                    } else {
                        (v, Some(DispatchView::Refused(debug_text(name) + " is no longer at that row"@)))
                    },
                    None => (
                        s_save(v, PlaylistView { items: p.items.filter(other_track(track)), ..p }),
                        Some(done),
                    ),
                }
            }
        },
        _ => (v, None),
    }
}

/// How often a remote playlist holds a track for sure.
pub open spec fn settled_in(c: CacheView, source: Seq<char>, node: Option<Seq<char>>, id: TrackId) -> nat {
    if first_change(changes_of(c, source, node), id, 0) is None {
        occurrences_of(tracks_in(c, source, node), id)
    } else {
        0
    }
}

/// The address of a track on a source.
pub open spec fn uri_on(v: Seq<RenditionView>, source: Seq<char>, i: int) -> Option<Seq<char>>
    decreases v.len() - i,
{
    if i < 0 || i >= v.len() {
        None
    } else if v[i].source == source {
        Some(v[i].uri)
    } else {
        uri_on(v, source, i + 1)
    }
}

/// Whether additions to a playlist go to its head.
pub open spec fn adds_at_head(v: Seq<SourceView>, source: Seq<char>, node: Option<Seq<char>>) -> bool {
    match source_at(v, source, 0) {
        Some(i) => v[i].adds_first.contains(node),
        None => false,
    }
}

pub open spec fn is_liked_list(v: Seq<SourceView>, source: Seq<char>, node: Option<Seq<char>>) -> bool {
    match source_at(v, source, 0) {
        Some(i) => v[i].liked == Some(node),
        None => false,
    }
}

/// A change of a remote playlist starts, unless it clashes with one that is not answered yet.
pub open spec fn s_change(v: SessionView, t: TrackView, source: Seq<char>, node: Option<Seq<char>>, uri: Seq<char>, change: Change) -> (SessionView, bool, Seq<RequestView>) {
    let pending = changes_of(v.cache, source, node);
    let front = adds_at_head(v.sources, source, node);
    if clashes(pending, t.id, position_of(change)) {
        (SessionView { cache: with_changes(v.cache, source, node, pending), ..v }, false, seq![])
    } else {
        (
            SessionView {
                cache: with_changes(
                    v.cache,
                    source,
                    node,
                    pending.push(PendingView { track: t, add: change is Add, position: position_of(change), front }),
                ),
                w: World { ev: v.w.ev.push(CoreEvent::PlaylistsChanged), ..v.w },
                ..v
            },
            true,
            seq![
                RequestView::ChangeRemote {
                    source,
                    node,
                    track: t.id,
                    uri,
                    change,
                    front,
                    liked: is_liked_list(v.sources, source, node),
                },
            ],
        )
    }
}

pub open spec fn cant_toggle(name: Seq<char>, why: Seq<char>) -> DispatchView {
    DispatchView::Refused("Can't toggle "@ + debug_text(name) + ": "@ + why)
}

/// A track is put into a remote playlist, or taken out of it; only one that it holds for sure is
/// taken out.
pub open spec fn s_toggle_remote(v: SessionView, track: TrackId, source: Seq<char>, node: Option<Seq<char>>, position: Option<usize>) -> (SessionView, DispatchView, Seq<RequestView>) {
    match track_of(v.w.s, track) {
        None => (v, DispatchView::Handled, seq![]),
        Some(t) => {
            let name = track_name(t);
            if source_at(v.sources, source, 0) is None {
                (v, cant_toggle(name, source + " isn't available"@), seq![])
            } else if synthetic_in(v.sources, source, node) {
                (v, cant_toggle(name, "Liked Songs isn't a hotkey playlist — use the like key"@), seq![])
            } else {
                match uri_on(t.renditions, source, 0) {
                    None => (v, cant_toggle(name, "track isn't on "@ + source), seq![]),
                    Some(uri) => {
                        let change = if settled_in(v.cache, source, node, track) == 0 {
                            Change::Add
                        } else {
                            Change::Remove(position)
                        };
                        let (v1, started, reqs) = s_change(v, t, source, node, uri, change);
                        if started {
                            (SessionView { memo_dirty: true, ..v1 }, DispatchView::Handled, reqs)
                        } else {
                            (
                                v1,
                                DispatchView::Refused("Still updating "@ + debug_text(name) + " in that playlist"@),
                                seq![],
                            )
                        }
                    },
                }
            }
        },
    }
}

/// Whether a source is among targets.
pub open spec fn has_target(v: Seq<(Seq<char>, Option<Seq<char>>, Seq<char>)>, source: Seq<char>) -> bool {
    exists|i: int| 0 <= i < v.len() && (#[trigger] v[i]).0 == source
}

/// Where the first `n` renditions of a track can be liked: each source once, with its list of
/// liked tracks and the address of the track there.
pub open spec fn liked_lists(sources: Seq<SourceView>, v: Seq<RenditionView>, n: int) -> Seq<(Seq<char>, Option<Seq<char>>, Seq<char>)>
    decreases n,
{
    if n <= 0 || n > v.len() {
        seq![]
    } else {
        let head = liked_lists(sources, v, n - 1);
        let r = v[n - 1];
        match source_at(sources, r.source, 0) {
            Some(i) => match sources[i].liked {
                Some(node) => if has_target(head, r.source) {
                    head
                } else {
                    head.push((r.source, node, r.uri))
                },
                None => head,
            },
            None => head,
        }
    }
}

/// Whether a track is in one of its lists of liked tracks for sure.
pub open spec fn liked_in(v: SessionView, t: TrackView) -> bool {
    exists|i: int|
        0 <= i < liked_lists(v.sources, t.renditions, t.renditions.len() as int).len() && {
            let x = #[trigger] liked_lists(v.sources, t.renditions, t.renditions.len() as int)[i];
            settled_in(v.cache, x.0, x.1, t.id) > 0
        }
}

/// The first `n` lists are changed; says whether any change started.
pub open spec fn s_change_all(v: SessionView, t: TrackView, targets: Seq<(Seq<char>, Option<Seq<char>>, Seq<char>)>, change: Change, n: int) -> (SessionView, bool, Seq<RequestView>)
    decreases n,
{
    if n <= 0 || n > targets.len() {
        (v, false, seq![])
    } else {
        let (v1, started, reqs) = s_change_all(v, t, targets, change, n - 1);
        let x = targets[n - 1];
        let (v2, more, req) = s_change(v1, t, x.0, x.1, x.2, change);
        (v2, started || more, reqs + req)
    }
}

/// A track is liked wherever it can be, or unliked where it is liked.
#[verifier::opaque]
pub open spec fn s_like(v: SessionView, track: TrackId) -> (SessionView, DispatchView, Seq<RequestView>) {
    match track_of(v.w.s, track) {
        None => (v, DispatchView::Handled, seq![]),
        Some(t) => {
            let name = track_name(t);
            let like = !liked_in(v, t);
            let targets = liked_lists(v.sources, t.renditions, t.renditions.len() as int);
            if targets.len() == 0 {
                (
                    v,
                    DispatchView::Refused(
                        "Can't "@ + (if like {
                            "like"@
                        } else {
                            "unlike"@
                        }) + " "@ + debug_text(name) + ": no liked-songs source for this track"@,
                    ),
                    seq![],
                )
            } else {
                let change = if like {
                    Change::Add
                } else {
                    Change::Remove(None)
                };
                let (v1, started, reqs) = s_change_all(v, t, targets, change, targets.len() as int);
                if started {
                    (v1, DispatchView::Handled, reqs)
                } else {
                    (
                        v1,
                        DispatchView::Refused("Still updating "@ + debug_text(name) + " in Liked Songs"@),
                        seq![],
                    )
                }
            }
        },
    }
}

fn has_id(v: &Vec<TrackId>, id: TrackId) -> (r: bool)
    ensures
        r == v@.contains(id),
{
    let mut i: usize = 0;
    while i < v.len()
        invariant
            i <= v@.len(),
            forall|j: int| 0 <= j < i ==> v@[j] != id,
        decreases v@.len() - i,
    {
        if v[i] == id {
            return true;
        }
        i = i + 1;
    }
    false
}

fn without(v: &Vec<TrackId>, id: TrackId) -> (r: Vec<TrackId>)
    ensures
        r@ == v@.filter(other_track(id)),
{
    let ghost keep = other_track(id);
    let mut out: Vec<TrackId> = Vec::new();
    let mut i: usize = 0;
    proof {
        reveal(Seq::filter);
        assert(out@ =~= v@.take(0).filter(keep));
    }
    while i < v.len()
        invariant
            i <= v@.len(),
            keep == other_track(id),
            out@ == v@.take(i as int).filter(keep),
        decreases v@.len() - i,
    {
        proof {
            v@.take(i as int).lemma_filter_push(v@[i as int], keep);
            assert(v@.take(i + 1) =~= v@.take(i as int).push(v@[i as int]));
        }
        if v[i] != id {
            out.push(v[i]);
        }
        i = i + 1;
    }
    assert(v@.take(i as int) =~= v@);
    out
}

fn has_node(v: &Vec<BrowseNode>, node: &BrowseNode) -> (r: bool)
    ensures
        r == node_views(v@).contains(node@),
{
    let ghost w = node_views(v@);
    let mut i: usize = 0;
    while i < v.len()
        invariant
            i <= v@.len(),
            w == node_views(v@),
            forall|j: int| 0 <= j < i ==> w[j] != node@,
        decreases v@.len() - i,
    {
        assert(w[i as int] == v@[i as int]@);
        if v[i].same(node) {
            assert(w.contains(node@));
            return true;
        }
        i = i + 1;
    }
    false
}

fn address(t: &Track, source: &SourceId) -> (r: Option<String>)
    ensures
        opt_text(r) == uri_on(t@.renditions, source@, 0),
{
    let ghost v = t@.renditions;
    let mut i: usize = 0;
    while i < t.renditions.len()
        invariant
            i <= t.renditions@.len(),
            v == t@.renditions,
            uri_on(v, source@, i as int) == uri_on(v, source@, 0),
        decreases t.renditions@.len() - i,
    {
        assert(v[i as int] == t.renditions@[i as int]@);
        if t.renditions[i].source.same(source) {
            return Some(t.renditions[i].uri.clone());
        }
        i = i + 1;
    }
    None
}

fn refused_toggle(name: &str, why: &str) -> (r: Dispatch)
    ensures
        r@ == cant_toggle(name@, why@),
{
    let mut m = "Can't toggle ".to_owned();
    m.append(&quoted(name));
    m.append(": ");
    m.append(why);
    Dispatch::Refused(m)
}

impl Session {
    pub(crate) fn source(&self, id: &SourceId) -> (r: Option<&SourceFacts>)
        ensures
            match r {
                Some(s) => source_at(self@.sources, id@, 0) is Some && s@ == self@.sources[source_at(
                    self@.sources,
                    id@,
                    0,
                )->0],
                None => source_at(self@.sources, id@, 0) is None,
            },
    {
        let ghost v = self@.sources;
        let mut i: usize = 0;
        while i < self.sources.len()
            invariant
                i <= self.sources@.len(),
                v == facts_views(self.sources@),
                v == self@.sources,
                source_at(v, id@, i as int) == source_at(v, id@, 0),
            decreases self.sources@.len() - i,
        {
            assert(v[i as int] == self.sources@[i as int]@);
            if self.sources[i].id.same(id) {
                return Some(&self.sources[i]);
            }
            i = i + 1;
        }
        None
    }

    /// Whether a place of a source is no real playlist.
    pub fn is_synthetic_playlist(&self, source: &SourceId, node: &BrowseNode) -> (r: bool)
        ensures
            r == synthetic_in(self@.sources, source@, node@),
    {
        match self.source(source) {
            Some(s) => has_node(&s.synthetic, node),
            None => false,
        }
    }

    /// Writes a playlist; everything that follows from its tracks hears of it.
    pub(crate) fn save_playlist(&mut self, p: &Playlist)
        ensures
            final(self)@ == s_save(old(self)@, p@),
            final(self).playback == old(self).playback,
    {
        self.catalog.save_playlist(p);
        self.memo.dirty = true;
        self.bus.send(CoreEvent::PlaylistsChanged);
    }

    fn toggle_local(&mut self, track: TrackId, playlist: PlaylistId, position: Option<usize>) -> (r: Result<Dispatch, Error>)
        ensures
            ({
                let (v, d) = s_toggle_local(old(self)@, track, playlist, position);
                &&& final(self)@ == v
                &&& match r {
                    Ok(x) => d == Some(x@),
                    Err(e) => d is None && e is NotFound,
                }
            }),
            final(self).playback == old(self).playback,
    {
        let p = match self.catalog.store.get_playlist(playlist) {
            Some(p) => p,
            None => {
                return Err(Error::NotFound);
            },
        };
        let t = match self.catalog.store.get_track(track) {
            Some(t) => t,
            None => {
                return Err(Error::NotFound);
            },
        };
        let mut p = p;
        let name = t.display_name();
        let added: bool = !has_id(&p.items, track);
        if added {
            p.items.push(track);
        } else {
            match position {
                Some(row) => {
                    if row >= p.items.len() || p.items[row] != track {
                        let mut m = quoted(&name);
                        m.append(" is no longer at that row");
                        return Ok(Dispatch::Refused(m));
                    }
                    p.items.remove(row);
                },
                None => {
                    p.items = without(&p.items, track);
                },
            }
        }
        self.save_playlist(&p);
        Ok(Dispatch::MembershipSet { track: name, playlist: p.name, added })
    }

    fn change_remote(&mut self, t: &Track, source: &SourceId, node: &BrowseNode, uri: String, change: Change, requests: &mut Vec<Request>) -> (started: bool)
        ensures
            ({
                let (v, ok, reqs) = s_change(old(self)@, t@, source@, node@, uri@, change);
                &&& final(self)@ == v
                &&& started == ok
                &&& request_views(final(requests)@) == request_views(old(requests)@) + reqs
            }),
            final(self).playback == old(self).playback,
    {
        let mut front: bool = false;
        let mut liked: bool = false;
        if let Some(s) = self.source(source) {
            front = has_node(&s.adds_first, node);
            liked = match &s.liked {
                Some(n) => n.same(node),
                None => false,
            };
        }
        let started = self.cache.set_remote_membership(source, node, t, change, front, &mut self.bus);
        if started {
            let ghost before = requests@;
            let req = Request::ChangeRemote {
                source: source.clone(),
                node: node.clone(),
                track: t.id,
                uri,
                change,
                front,
                liked,
            };
            requests.push(req);
            assert(request_views(requests@) =~= request_views(before) + seq![req@]);
        } else {
            assert(request_views(requests@) + Seq::<RequestView>::empty() =~= request_views(requests@));
        }
        started
    }

    fn toggle_remote(&mut self, track: TrackId, source: &SourceId, node: &BrowseNode, position: Option<usize>, requests: &mut Vec<Request>) -> (r: Dispatch)
        ensures
            ({
                let (v, d, reqs) = s_toggle_remote(old(self)@, track, source@, node@, position);
                &&& final(self)@ == v
                &&& r@ == d
                &&& request_views(final(requests)@) == request_views(old(requests)@) + reqs
            }),
            final(self).playback == old(self).playback,
    {
        assert(request_views(requests@) + Seq::<RequestView>::empty() =~= request_views(requests@));
        let t = match self.catalog.store.get_track(track) {
            Some(t) => t,
            None => {
                return Dispatch::Handled;
            },
        };
        let name = t.display_name();
        if self.source(source).is_none() {
            let mut why = source.as_str().to_owned();
            why.append(" isn't available");
            return refused_toggle(&name, &why);
        }
        if self.is_synthetic_playlist(source, node) {
            return refused_toggle(&name, "Liked Songs isn't a hotkey playlist — use the like key");
        }
        let uri = match address(&t, source) {
            Some(u) => u,
            None => {
                let mut why = "track isn't on ".to_owned();
                why.append(source.as_str());
                return refused_toggle(&name, &why);
            },
        };
        let change = if self.cache.remote_occurrences(source, node, track) == 0 {
            Change::Add
        } else {
            Change::Remove(position)
        };
        assert(t@.id == t.id);
        if !self.change_remote(&t, source, node, uri, change, requests) {
            let mut m = "Still updating ".to_owned();
            m.append(&quoted(&name));
            m.append(" in that playlist");
            return Dispatch::Refused(m);
        }
        self.memo.dirty = true;
        Dispatch::Handled
    }
}


/// Where a track can be liked: a source, its list of liked tracks, and the track's address there.
pub struct LikedTarget {
    pub source: SourceId,
    pub node: BrowseNode,
    pub uri: String,
}

pub open spec fn target_views(v: Seq<LikedTarget>) -> Seq<(Seq<char>, Option<Seq<char>>, Seq<char>)> {
    v.map_values(|t: LikedTarget| (t.source@, t.node@, t.uri@))
}

fn among_targets(v: &Vec<LikedTarget>, source: &SourceId) -> (r: bool)
    ensures
        r == has_target(target_views(v@), source@),
{
    let ghost w = target_views(v@);
    let mut i: usize = 0;
    while i < v.len()
        invariant
            i <= v@.len(),
            w == target_views(v@),
            forall|j: int| 0 <= j < i ==> (#[trigger] w[j]).0 != source@,
        decreases v@.len() - i,
    {
        assert(w[i as int].0 == v@[i as int].source@);
        if v[i].source.same(source) {
            return true;
        }
        i = i + 1;
    }
    false
}

impl Session {
    /// Where a track can be liked.
    pub fn liked_targets(&self, t: &Track) -> (r: Vec<LikedTarget>)
        ensures
            target_views(r@) == liked_lists(self@.sources, t@.renditions, t@.renditions.len() as int),
    {
        let ghost rv = t@.renditions;
        let ghost sv = self@.sources;
        let mut out: Vec<LikedTarget> = Vec::new();
        let mut i: usize = 0;
        assert(target_views(out@) =~= seq![]);
        while i < t.renditions.len()
            invariant
                i <= t.renditions@.len(),
                rv == t@.renditions,
                sv == self@.sources,
                target_views(out@) == liked_lists(sv, rv, i as int),
            decreases t.renditions@.len() - i,
        {
            let r = &t.renditions[i];
            assert(rv[i as int] == r@);
            if let Some(s) = self.source(&r.source) {
                if let Some(node) = &s.liked {
                    if !among_targets(&out, &r.source) {
                        let ghost before = out@;
                        let x = LikedTarget { source: r.source.clone(), node: node.clone(), uri: r.uri.clone() };
                        out.push(x);
                        assert(target_views(out@) =~= target_views(before).push((x.source@, x.node@, x.uri@)));
                    }
                }
            }
            i = i + 1;
        }
        out
    }

    fn is_liked(&self, t: &Track) -> (r: bool)
        ensures
            r == liked_in(self@, t@),
    {
        let targets = self.liked_targets(t);
        let ghost w = target_views(targets@);
        let mut i: usize = 0;
        while i < targets.len()
            invariant
                i <= targets@.len(),
                w == target_views(targets@),
                w == liked_lists(self@.sources, t@.renditions, t@.renditions.len() as int),
                forall|j: int| 0 <= j < i ==> settled_in(self@.cache, (#[trigger] w[j]).0, w[j].1, t@.id) == 0,
            decreases targets@.len() - i,
        {
            let x = &targets[i];
            assert(w[i as int] == (x.source@, x.node@, x.uri@));
            if self.cache.remote_occurrences(&x.source, &x.node, t.id) > 0 {
                return true;
            }
            i = i + 1;
        }
        false
    }

    /// Likes a track wherever it can be, or unlikes it where it is liked.
    pub(crate) fn set_liked(&mut self, track: TrackId, requests: &mut Vec<Request>) -> (r: Dispatch)
        ensures
            ({
                let (v, d, reqs) = s_like(old(self)@, track);
                &&& final(self)@ == v
                &&& r@ == d
                &&& request_views(final(requests)@) == request_views(old(requests)@) + reqs
            }),
            final(self).playback == old(self).playback,
    {
        reveal(s_like);
        assert(request_views(requests@) + Seq::<RequestView>::empty() =~= request_views(requests@));
        let t = match self.catalog.store.get_track(track) {
            Some(t) => t,
            None => {
                return Dispatch::Handled;
            },
        };
        let targets = self.liked_targets(&t);
        let ghost w = target_views(targets@);
        assert(w.len() == targets@.len());
        let name = t.display_name();
        let like: bool = !self.is_liked(&t);
        if targets.len() == 0 {
            let mut m = "Can't ".to_owned();
            m.append(if like {
                "like"
            } else {
                "unlike"
            });
            m.append(" ");
            m.append(&quoted(&name));
            m.append(": no liked-songs source for this track");
            return Dispatch::Refused(m);
        }
        let change = if like {
            Change::Add
        } else {
            Change::Remove(None)
        };
        let ghost v0 = self@;
        let mut started: bool = false;
        let mut fresh: Vec<Request> = Vec::new();
        let mut i: usize = 0;
        assert(request_views(fresh@) =~= seq![]);
        while i < targets.len()
            invariant
                i <= targets@.len(),
                w == target_views(targets@),
                self.playback == old(self).playback,
                (self@, started, request_views(fresh@)) == s_change_all(v0, t@, w, change, i as int),
            decreases targets@.len() - i,
        {
            let x = &targets[i];
            assert(w[i as int] == (x.source@, x.node@, x.uri@));
            let more: bool = self.change_remote(&t, &x.source, &x.node, x.uri.clone(), change, &mut fresh);
            started = started || more;
            i = i + 1;
        }
        if !started {
            let mut m = "Still updating ".to_owned();
            m.append(&quoted(&name));
            m.append(" in Liked Songs");
            return Dispatch::Refused(m);
        }
        let ghost before = requests@;
        let ghost added = fresh@;
        requests.append(&mut fresh);
        assert(request_views(requests@) =~= request_views(before) + request_views(added));
        Dispatch::Handled
    }

    /// Puts a track into a playlist, or takes it out.
    pub(crate) fn toggle_playlist_membership(&mut self, track: TrackId, target: &HotkeyTarget, position: Option<usize>, requests: &mut Vec<Request>) -> (r: Result<Dispatch, Error>)
        ensures
            ({
                let (v, d, reqs) = s_toggle(old(self)@, track, *target, position);
                &&& final(self)@ == v
                &&& match r {
                    Ok(x) => d == Some(x@),
                    Err(e) => d is None && e is NotFound,
                }
                &&& request_views(final(requests)@) == request_views(old(requests)@) + reqs
            }),
            final(self).playback == old(self).playback,
    {
        reveal(s_toggle);
        assert(request_views(requests@) + Seq::<RequestView>::empty() =~= request_views(requests@));
        match target {
            HotkeyTarget::Local(id) => self.toggle_local(track, *id, position),
            HotkeyTarget::Remote(source, node) => Ok(self.toggle_remote(track, source, node, position, requests)),
            HotkeyTarget::Builtin(_) => Ok(Dispatch::Handled),
        }
    }

    fn occurrences(&self, track: TrackId, target: &HotkeyTarget) -> (r: usize)
        ensures
            r == occurrences_in(self@, track, *target),
    {
        match target {
            HotkeyTarget::Local(id) => {
                let v = self.playlist_track_ids(*id);
                let mut n: usize = 0;
                let mut i: usize = 0;
                assert(v@.take(0) =~= seq![]);
                while i < v.len()
                    invariant
                        i <= v@.len(),
                        n <= i,
                        n == times_in(v@.take(i as int), track),
                    decreases v@.len() - i,
                {
                    assert(v@.take(i + 1).drop_last() =~= v@.take(i as int));
                    if v[i] == track {
                        n = n + 1;
                    }
                    i = i + 1;
                }
                assert(v@.take(i as int) =~= v@);
                n
            },
            HotkeyTarget::Remote(source, node) => self.cache.remote_occurrences(source, node, track),
            HotkeyTarget::Builtin(_) => 0,
        }
    }

    fn target_name(&self, target: &HotkeyTarget) -> (r: Option<String>)
        ensures
            opt_text(r) == name_of_target(self@, *target),
    {
        match target {
            HotkeyTarget::Local(id) => match self.catalog.store.get_playlist(*id) {
                Some(p) => Some(p.name),
                None => None,
            },
            HotkeyTarget::Remote(source, node) => {
                let folders = self.cache.remote_folders(FolderKind::Playlists, source);
                let ghost w = folder_views(folders@);
                let mut i: usize = 0;
                while i < folders.len()
                    invariant
                        i <= folders@.len(),
                        w == folder_views(folders@),
                        name_of_target(self@, *target) == folder_name(w, node@, 0),
                        folder_name(w, node@, i as int) == folder_name(w, node@, 0),
                    decreases folders@.len() - i,
                {
                    assert(w[i as int] == (folders@[i as int].0@, folders@[i as int].1@));
                    if folders[i].1.same(node) {
                        return Some(folders[i].0.clone());
                    }
                    i = i + 1;
                }
                None
            },
            HotkeyTarget::Builtin(_) => None,
        }
    }

    /// What to ask before a command that takes a track out of a list.
    pub fn removal_prompt(&self, cmd: &Command) -> (r: Option<String>)
        requires
            cmd matches Command::TogglePlaylistMembership { position: Some(row), .. } ==> row < usize::MAX,
        ensures
            opt_text(r) == prompt_for(self@, *cmd),
    {
        match cmd {
            Command::TogglePlaylistMembership { track, playlist, position } => {
                let count: usize = self.occurrences(*track, playlist);
                let t = match self.catalog.store.get_track(*track) {
                    Some(t) => t,
                    None => {
                        return None;
                    },
                };
                let from = match self.target_name(playlist) {
                    Some(n) => n,
                    None => {
                        return None;
                    },
                };
                if count == 0 {
                    return None;
                }
                let name = t.display_name();
                let mut v: Vec<char> = Vec::new();
                match position {
                    Some(row) => {
                        append_str(&mut v, "Remove ");
                        append_str(&mut v, &quoted(&name));
                        append_str(&mut v, " (row ");
                        append_decimal(&mut v, (*row + 1) as u64);
                        append_str(&mut v, ") from ");
                    },
                    None => {
                        if count == 1 {
                            append_str(&mut v, "Remove ");
                            append_str(&mut v, &quoted(&name));
                            append_str(&mut v, " from ");
                        } else {
                            append_str(&mut v, "Remove all ");
                            append_decimal(&mut v, count as u64);
                            append_str(&mut v, " occurrences of ");
                            append_str(&mut v, &quoted(&name));
                            append_str(&mut v, " from ");
                        }
                    },
                }
                append_str(&mut v, &quoted(&from));
                append_str(&mut v, "?");
                assert(v@ =~= removal_text(name@, from@, count as nat, *position));
                Some(string_of(&v))
            },
            Command::Like(track) => {
                let t = match self.catalog.store.get_track(*track) {
                    Some(t) => t,
                    None => {
                        return None;
                    },
                };
                if self.is_liked(&t) {
                    let mut m = "Remove ".to_owned();
                    m.append(&quoted(&t.display_name()));
                    m.append(" from Liked Songs?");
                    Some(m)
                } else {
                    None
                }
            },
            _ => None,
        }
    }

    /// How a track stands in the lists of liked tracks: nothing where it is in none, else whether
    /// a change of it is not answered yet.
    pub fn liked_mark(&self, track: TrackId) -> (r: Option<bool>)
        ensures
            r is Some <==> exists|i: int| 0 <= i < self@.sources.len() && #[trigger] marked(self@, i, track) is Some,
            r matches Some(pending) ==> (pending <==> exists|i: int|
                0 <= i < self@.sources.len() && #[trigger] marked(self@, i, track) == Some(true)),
    {
        let mut found: Option<bool> = None;
        let mut i: usize = 0;
        let ghost v = self@.sources;
        while i < self.sources.len()
            invariant
                i <= self.sources@.len(),
                v == self@.sources,
                v == facts_views(self.sources@),
                found is Some <==> exists|j: int| 0 <= j < i && #[trigger] marked(self@, j, track) is Some,
                found matches Some(pending) ==> (pending <==> exists|j: int|
                    0 <= j < i && #[trigger] marked(self@, j, track) == Some(true)),
            decreases self.sources@.len() - i,
        {
            assert(v[i as int] == self.sources@[i as int]@);
            let mark: Option<bool> = match &self.sources[i].liked {
                Some(node) => self.cache.liked_mark(&self.sources[i].id, node, track),
                None => None,
            };
            assert(mark == marked(self@, i as int, track));
            if let Some(m) = mark {
                found = match found {
                    Some(f) => Some(f || m),
                    None => Some(m),
                };
            }
            i = i + 1;
        }
        found
    }
}

/// How a track stands in the list of liked tracks of one source.
pub open spec fn marked(v: SessionView, i: int, track: TrackId) -> Option<bool> {
    match v.sources[i].liked {
        Some(node) => match membership_of(
            changes_of(v.cache, v.sources[i].id, node),
            tracks_in(v.cache, v.sources[i].id, node),
            track,
        ) {
            Membership::Member => Some(false),
            Membership::NotMember => None,
            _ => Some(true),
        },
        None => None,
    }
}

/// A track is put into a playlist, or taken out.
#[verifier::opaque]
pub open spec fn s_toggle(v: SessionView, track: TrackId, target: HotkeyTarget, position: Option<usize>) -> (SessionView, Option<DispatchView>, Seq<RequestView>) {
    match target {
        HotkeyTarget::Local(id) => {
            let (v1, d) = s_toggle_local(v, track, id, position);
            (v1, d, seq![])
        },
        HotkeyTarget::Remote(source, node) => {
            let (v1, d, reqs) = s_toggle_remote(v, track, source@, node@, position);
            (v1, Some(d), reqs)
        },
        HotkeyTarget::Builtin(_) => (v, Some(DispatchView::Handled), seq![]),
    }
}

/// How often a row holds a track.
pub open spec fn times_in(v: Seq<TrackId>, id: TrackId) -> nat
    decreases v.len(),
{
    if v.len() == 0 {
        0
    } else {
        times_in(v.drop_last(), id) + (if v.last() == id {
            1nat
        } else {
            0
        })
    }
}

pub open spec fn occurrences_in(v: SessionView, track: TrackId, target: HotkeyTarget) -> nat {
    match target {
        HotkeyTarget::Local(id) => times_in(items_in(v, id), track),
        HotkeyTarget::Remote(source, node) => settled_in(v.cache, source@, node@, track),
        HotkeyTarget::Builtin(_) => 0,
    }
}

/// The name of the first folder at a place, from `i` on.
pub open spec fn folder_name(w: Seq<(Seq<char>, Option<Seq<char>>)>, node: Option<Seq<char>>, i: int) -> Option<Seq<char>>
    decreases w.len() - i,
{
    if i < 0 || i >= w.len() {
        None
    } else if w[i].1 == node {
        Some(w[i].0)
    } else {
        folder_name(w, node, i + 1)
    }
}

pub open spec fn name_of_target(v: SessionView, target: HotkeyTarget) -> Option<Seq<char>> {
    match target {
        HotkeyTarget::Local(id) => match playlist_of(v.w.s, id) {
            Some(p) => Some(p.name),
            None => None,
        },
        HotkeyTarget::Remote(source, node) => match folders_of(v.cache.playlists, source@) {
            Some(f) => folder_name(f.folders, node@, 0),
            None => None,
        },
        HotkeyTarget::Builtin(_) => None,
    }
}

pub open spec fn removal_text(name: Seq<char>, from: Seq<char>, count: nat, position: Option<usize>) -> Seq<char> {
    (match position {
        Some(row) => "Remove "@ + debug_text(name) + " (row "@ + decimal((row + 1) as nat) + ") from "@,
        None => if count == 1 {
            "Remove "@ + debug_text(name) + " from "@
        } else {
            "Remove all "@ + decimal(count) + " occurrences of "@ + debug_text(name) + " from "@
        },
    }) + debug_text(from) + "?"@
}

/// The question before a command that takes a track out of a list.
pub open spec fn prompt_for(v: SessionView, cmd: Command) -> Option<Seq<char>> {
    match cmd {
        Command::TogglePlaylistMembership { track, playlist, position } => match (
            track_of(v.w.s, track),
            name_of_target(v, playlist),
        ) {
            (Some(t), Some(from)) => if occurrences_in(v, track, playlist) == 0 {
                None
            } else {
                Some(removal_text(track_name(t), from, occurrences_in(v, track, playlist), position))
            },
            _ => None,
        },
        Command::Like(track) => match track_of(v.w.s, track) {
            Some(t) => if liked_in(v, t) {
                Some("Remove "@ + debug_text(track_name(t)) + " from Liked Songs?"@)
            } else {
                None
            },
            None => None,
        },
        _ => None,
    }
}

} // verus!
