//! What the player makes of a command.

use vstd::prelude::*;
use crate::catalog::{advanced, extra_sources, holders, linked, parted};
use crate::command::{request_views, Command, Dispatch, DispatchView, Request, RequestView};
use crate::env::{Env, EnvView};
use crate::event::CoreEvent;
use crate::exchange::{export_doc, export_message, exported, exported_text};
use crate::membership::{s_like, s_save, s_toggle};
use crate::playback::{w_play_now, ContextView, PlaybackContext, PlaybackView, World};
use crate::player_events::{w_next, w_play_context, w_previous};
use crate::playlist_m3u::{doc_lines, unlines, write_m3u, DocView, MetaView};
use crate::queue::{bumped, requeued, QueueView};
use crate::search::SearchView;
use crate::session::{touched, Session, SessionView};
use crate::store::{playlist_of, track_of, tracks_of};
use crate::strmap::StrMap;
use crate::text::str_views;
use crate::traits::Error;
use crate::types::{opt_text, Playlist, PlaylistId, PlaylistView, TrackId};
use crate::view_cache::{CacheView, ResultView};

verus! {

pub open spec fn in_world(v: SessionView, w: World) -> SessionView {
    SessionView { w, ..v }
}

pub open spec fn in_queue(w: World, q: QueueView, ev: Seq<CoreEvent>) -> World {
    World { p: PlaybackView { queue: q, ..w.p }, ev, ..w }
}

/// Whether the user says what plays: only what playback moved on to by itself counts as failed in
/// a row.
pub open spec fn steers(cmd: Command) -> bool {
    cmd is Play || cmd is PlayContext || cmd is Next || cmd is Previous
}

pub open spec fn s_begin(v: SessionView, cmd: Command) -> SessionView {
    let v1 = touched(v);
    if steers(cmd) {
        in_world(v1, World { p: PlaybackView { load_failures: 0, ..v1.w.p }, ..v1.w })
    } else {
        v1
    }
}

/// A search starts; what the one before it found is no longer shown.
pub open spec fn s_search(v: SessionView, text: Seq<char>) -> SessionView {
    let id = bumped(v.searches.last);
    SessionView {
        cache: CacheView {
            results: v.cache.results.remove(v.shown_search as u128).insert(
                id as u128,
                ResultView { query: text, tracks: seq![], collections: seq![], generation: 0 },
            ),
            ..v.cache
        },
        searches: SearchView { last: id, live: v.searches.live.insert(id as u128) },
        shown_search: id,
        ..v
    }
}

#[verifier::opaque]
pub open spec fn s_play(v: SessionView, e: EnvView, id: TrackId) -> SessionView {
    in_world(v, w_play_now(v.w, e, id))
}

#[verifier::opaque]
pub open spec fn s_play_list(v: SessionView, e: EnvView, x: ContextView) -> SessionView {
    in_world(v, w_play_context(v.w, e, x))
}

#[verifier::opaque]
pub open spec fn s_next(v: SessionView, e: EnvView) -> SessionView {
    in_world(v, w_next(v.w, e, v.cache))
}

#[verifier::opaque]
pub open spec fn s_previous(v: SessionView, e: EnvView) -> SessionView {
    in_world(v, w_previous(v.w, e))
}

/// Nothing is loaded: the front of the queue starts.
pub open spec fn w_start_queue(w: World) -> World {
    let q = w.p.queue;
    if q.current is None && q.queue.len() > 0 {
        in_queue(
            w,
            QueueView { current: Some(q.queue[0]), ..requeued(q, q.queue.drop_first()) },
            w.ev.push(CoreEvent::QueueChanged).push(CoreEvent::PlayRequested(q.queue[0])),
        )
    } else {
        w
    }
}

/// Two tracks become one.
#[verifier::opaque]
pub open spec fn s_link(v: SessionView, a: TrackId, b: TrackId) -> (SessionView, bool) {
    if a == b {
        (SessionView { memo_dirty: true, ..v }, true)
    } else if track_of(v.w.s, a) is Some && track_of(v.w.s, b) is Some {
        (
            SessionView {
                w: World {
                    s: linked(v.w.s, a, b),
                    ev: v.w.ev.push(CoreEvent::TrackUpdated(a)),
                    ..v.w
                },
                removed_gen: bumped(v.removed_gen),
                playlists_gen: advanced(v.playlists_gen, holders(v.w.s, b).len()) as u64,
                memo_dirty: true,
                ..v
            },
            true,
        )
    } else {
        (v, false)
    }
}

/// A track keeps its first rendition only. It is announced once for each source that a rendition
/// was taken off from.
#[verifier::opaque]
pub open spec fn s_unlink(v: SessionView, id: TrackId) -> (SessionView, bool) {
    match track_of(v.w.s, id) {
        Some(t) => (
            in_world(
                v,
                World {
                    s: parted(v.w.s, t),
                    ev: v.w.ev + Seq::new(
                        extra_sources(t.renditions, t.renditions.len() as int).len(),
                        |i: int| CoreEvent::TrackUpdated(id),
                    ),
                    ..v.w
                },
            ),
            true,
        ),
        None => (v, false),
    }
}

/// What is said of an export and the file that is written, where the playlist is there.
#[verifier::opaque]
pub open spec fn export_of(v: SessionView, e: EnvView, tempos: Map<Seq<char>, String>, id: PlaylistId, path: Seq<char>) -> Option<(DispatchView, RequestView)> {
    match playlist_of(v.w.s, id) {
        Some(p) => {
            let x = exported(p.items, tracks_of(v.w.s, p.items), e, tempos);
            let doc = DocView {
                playlist: MetaView { id: Some(p.id.0), name: p.name, notes: p.notes },
                entries: x.entries,
            };
            Some(
                (
                    DispatchView::Done(exported_text(path, x.entries.len(), x.gaps)),
                    RequestView::WriteFile { path, text: unlines(doc_lines(doc)) },
                ),
            )
        },
        None => None,
    }
}

pub open spec fn s_exported(v: SessionView, x: Option<(DispatchView, RequestView)>) -> (SessionView, Option<DispatchView>, Seq<RequestView>) {
    match x {
        Some((d, r)) => (v, Some(d), seq![r]),
        None => (v, None, seq![]),
    }
}

pub open spec fn answered(ok: bool) -> Option<DispatchView> {
    if ok {
        Some(DispatchView::Handled)
    } else {
        None
    }
}

/// The name of the file that a playlist is exported to.
pub open spec fn export_path(v: SessionView, id: PlaylistId) -> Seq<char> {
    match playlist_of(v.w.s, id) {
        Some(p) => p.name + ".m3u8"@,
        None => seq![],
    }
}

/// What a command comes to once it is counted: the player after it, the answer, or nothing where
/// what it names is not there, and what is left to be done outside.
pub open spec fn s_run(v: SessionView, e: EnvView, tempos: Map<Seq<char>, String>, fresh: PlaylistId, cmd: Command) -> (SessionView, Option<DispatchView>, Seq<RequestView>) {
    let handled = Some(DispatchView::Handled);
    let q = v.w.p.queue;
    match cmd {
        Command::Search(text) => (
            s_search(v, text@),
            handled,
            seq![RequestView::RunSearch { search: bumped(v.searches.last), query: text@ }],
        ),
        Command::Play(id) => (s_play(v, e, id), handled, seq![]),
        Command::PlayContext { tracks, index, remote, local, name } => (
            s_play_list(
                v,
                e,
                ContextView {
                    tracks: tracks@,
                    index,
                    remote: match remote {
                        Some((s, n)) => Some((s@, n@)),
                        None => None,
                    },
                    local,
                    name: opt_text(name),
                    shuffle_bag: seq![],
                },
            ),
            handled,
            seq![],
        ),
        Command::Enqueue(id) => (
            in_world(
                v,
                in_queue(v.w, requeued(q, q.queue.push(id)), v.w.ev.push(CoreEvent::QueueChanged)),
            ),
            Some(DispatchView::Queued(q.queue.len() + 1)),
            seq![],
        ),
        Command::Wedge(id) => (
            in_world(
                v,
                in_queue(v.w, requeued(q, seq![id] + q.queue), v.w.ev.push(CoreEvent::QueueChanged)),
            ),
            Some(DispatchView::Wedged(q.queue.len() + 1)),
            seq![],
        ),
        Command::PlayPause => match v.w.p.player {
            Some(p) => (v, handled, seq![RequestView::TogglePlayer(p)]),
            None => (in_world(v, w_start_queue(v.w)), handled, seq![]),
        },
        Command::Next => (s_next(v, e), handled, seq![]),
        Command::Previous => {
            let v1 = s_previous(v, e);
            (
                v1,
                if q.history.len() > 1 && v.w.p.now_playing is Some {
                    Some(DispatchView::Wedged(v1.w.p.queue.queue.len()))
                } else {
                    handled
                },
                seq![],
            )
        },
        Command::Seek(delta) => match v.w.p.player {
            Some(p) => (v, handled, seq![RequestView::SeekPlayer { player: p, delta }]),
            None => (v, handled, seq![]),
        },
        Command::Volume(delta) => (v, handled, seq![RequestView::ChangeVolume(delta)]),
        Command::NewPlaylist(name) => (
            s_save(v, PlaylistView { id: fresh, name: name@, notes: ""@, items: seq![] }),
            Some(DispatchView::PlaylistCreated(fresh)),
            seq![],
        ),
        Command::AddToPlaylist { track, playlist } => match playlist_of(v.w.s, playlist) {
            Some(p) => (s_save(v, PlaylistView { items: p.items.push(track), ..p }), handled, seq![]),
            None => (v, None, seq![]),
        },
        Command::TogglePlaylistMembership { track, playlist, position } => s_toggle(v, track, playlist, position),
        Command::LinkPick(id) => match v.link_pick {
            None => (SessionView { link_pick: Some(id), ..v }, Some(DispatchView::LinkPending), seq![]),
            Some(first) => {
                let (v1, ok) = s_link(SessionView { link_pick: None, ..v }, first, id);
                (v1, answered(ok), seq![])
            },
        },
        Command::Unlink(id) => {
            let (v1, ok) = s_unlink(v, id);
            (v1, answered(ok), seq![])
        },
        Command::Like(track) => {
            let (v1, d, reqs) = s_like(v, track);
            (v1, Some(d), reqs)
        },
        Command::ExportM3u(id) => s_exported(v, export_of(v, e, tempos, id, export_path(v, id))),
        Command::ExportM3uTo { playlist, path } => s_exported(v, export_of(v, e, tempos, playlist, path@)),
        Command::ImportM3u(path) => (v, handled, seq![RequestView::ReadPlaylist(path@)]),
        Command::AddUri(uri) => (v, handled, seq![RequestView::ResolveUri(uri@)]),
        Command::AddFilesToPlaylist { playlist, paths } => (
            v,
            handled,
            seq![RequestView::FindFiles { playlist, paths: str_views(paths@) }],
        ),
        Command::ClearQueue => (
            in_world(
                v,
                in_queue(
                    v.w,
                    QueueView { current: None, ..requeued(q, seq![]) },
                    v.w.ev.push(CoreEvent::QueueChanged).push(CoreEvent::QueueChanged),
                ),
            ),
            handled,
            seq![],
        ),
        Command::ToggleScan => (v, handled, seq![RequestView::ToggleScan]),
        Command::ToggleShuffle => (
            in_world(v, in_queue(v.w, QueueView { shuffle: !q.shuffle, ..q }, v.w.ev)),
            Some(DispatchView::ShuffleSet(!q.shuffle)),
            seq![],
        ),
        Command::Update => (
            v,
            Some(DispatchView::Done("checking for updates..."@)),
            seq![RequestView::Update],
        ),
        Command::Quit => (v, Some(DispatchView::Quit), seq![]),
    }
}

pub open spec fn s_dispatch(v: SessionView, e: EnvView, tempos: Map<Seq<char>, String>, fresh: PlaylistId, cmd: Command) -> (SessionView, Option<DispatchView>, Seq<RequestView>) {
    s_run(s_begin(v, cmd), e, tempos, fresh, cmd)
}

impl Session {
    fn run_search(&mut self, text: String) -> (id: u64)
        ensures
            final(self)@ == s_search(old(self)@, text@),
            id == bumped(old(self)@.searches.last),
            final(self).playback == old(self).playback,
    {
        self.cache.forget_search(self.search_generation);
        let id: u64 = self.search.run();
        self.cache.begin_search(id, text);
        self.search_generation = id;
        id
    }

    fn pick_link(&mut self, id: TrackId) -> (r: Result<Dispatch, Error>)
        ensures
            ({
                let (v, d, _) = match old(self)@.link_pick {
                    None => (
                        SessionView { link_pick: Some(id), ..old(self)@ },
                        Some(DispatchView::LinkPending),
                        Seq::<RequestView>::empty(),
                    ),
                    Some(first) => {
                        let (v1, ok) = s_link(SessionView { link_pick: None, ..old(self)@ }, first, id);
                        (v1, answered(ok), Seq::<RequestView>::empty())
                    },
                };
                &&& final(self)@ == v
                &&& match r {
                    Ok(x) => d == Some(x@),
                    Err(e) => d is None && e is NotFound,
                }
            }),
            final(self).playback == old(self).playback,
    {
        reveal(s_link);
        match self.link_pick {
            None => {
                self.link_pick = Some(id);
                Ok(Dispatch::LinkPending)
            },
            Some(first) => {
                self.link_pick = None;
                match self.catalog.link(first, id, &mut self.bus) {
                    Ok(_) => {
                        self.memo.dirty = true;
                        Ok(Dispatch::Handled)
                    },
                    Err(e) => Err(e),
                }
            },
        }
    }

    fn unlink_extra(&mut self, id: TrackId) -> (r: Result<Dispatch, Error>)
        ensures
            ({
                let (v, ok) = s_unlink(old(self)@, id);
                &&& final(self)@ == v
                &&& match r {
                    Ok(x) => ok && x@ == DispatchView::Handled,
                    Err(e) => !ok && e is NotFound,
                }
            }),
            final(self).playback == old(self).playback,
    {
        reveal(s_unlink);
        match self.catalog.unlink_rest(id, &mut self.bus) {
            Ok(_) => Ok(Dispatch::Handled),
            Err(e) => Err(e),
        }
    }

    fn export(&self, id: PlaylistId, path: String, env: &Env, tempos: &StrMap<String>) -> (r: Option<(Dispatch, Request)>)
        ensures
            match r {
                Some((d, q)) => export_of(self@, env@, tempos@, id, path@) == Some((d@, q@)),
                None => export_of(self@, env@, tempos@, id, path@) is None,
            },
    {
        reveal(export_of);
        match self.catalog.store.get_playlist(id) {
            None => None,
            Some(p) => {
                let (doc, gaps) = export_doc(&p, &self.catalog.store, env, tempos);
                assert(doc@.entries.len() == doc.entries@.len());
                let message = export_message(&path, doc.entries.len(), &gaps);
                let text = write_m3u(&doc);
                Some((Dispatch::Done(message), Request::WriteFile { path, text }))
            },
        }
    }
}

/// The answer to a command, and what is left to be done outside.
pub struct Reply {
    pub dispatch: Dispatch,
    pub requests: Vec<Request>,
}

pub open spec fn replied(r: Result<Reply, Error>, d: Option<DispatchView>, reqs: Seq<RequestView>) -> bool {
    match r {
        Ok(x) => d == Some(x.dispatch@) && request_views(x.requests@) == reqs,
        Err(e) => d is None && e is NotFound,
    }
}

fn alone(dispatch: Dispatch) -> (r: Result<Reply, Error>)
    ensures
        replied(r, Some(dispatch@), seq![]),
{
    let requests: Vec<Request> = Vec::new();
    assert(request_views(requests@) =~= seq![]);
    Ok(Reply { dispatch, requests })
}

fn with_request(dispatch: Dispatch, request: Request) -> (r: Result<Reply, Error>)
    ensures
        replied(r, Some(dispatch@), seq![request@]),
{
    let mut requests: Vec<Request> = Vec::new();
    requests.push(request);
    assert(request_views(requests@) =~= seq![request@]);
    Ok(Reply { dispatch, requests })
}

fn of_result(r: Result<Dispatch, Error>, requests: Vec<Request>) -> (x: Result<Reply, Error>)
    ensures
        match r {
            Ok(d) => x matches Ok(y) && y.dispatch@ == d@ && y.requests@ == requests@,
            Err(e) => x == Err::<Reply, Error>(e),
        },
{
    match r {
        Ok(dispatch) => Ok(Reply { dispatch, requests }),
        Err(e) => Err(e),
    }
}

impl Session {
    fn play_list(&mut self, x: PlaybackContext, env: &Env)
        requires
            old(self).wf(),
        ensures
            final(self).wf(),
            final(self)@ == s_play_list(old(self)@, env@, x@),
    {
        reveal(s_play_list);
        self.playback.play_context(x, env, &mut self.catalog, &mut self.bus);
    }

    fn play(&mut self, id: TrackId, env: &Env)
        requires
            old(self).wf(),
        ensures
            final(self).wf(),
            final(self)@ == s_play(old(self)@, env@, id),
    {
        reveal(s_play);
        self.playback.play_now(id, env, &self.catalog, &mut self.bus);
    }

    fn next(&mut self, env: &Env)
        requires
            old(self).wf(),
        ensures
            final(self).wf(),
            final(self)@ == s_next(old(self)@, env@),
    {
        reveal(s_next);
        self.playback.next(env, &self.cache, &mut self.catalog, &mut self.bus);
    }

    fn previous(&mut self, env: &Env) -> (r: Dispatch)
        requires
            old(self).wf(),
        ensures
            final(self).wf(),
            final(self)@ == s_previous(old(self)@, env@),
            r@ == (if old(self)@.w.p.queue.history.len() > 1 && old(self)@.w.p.now_playing is Some {
                DispatchView::Wedged(final(self)@.w.p.queue.queue.len())
            } else {
                DispatchView::Handled
            }),
    {
        reveal(s_previous);
        if self.playback.previous(env, &self.catalog, &mut self.bus) {
            Dispatch::Wedged(self.playback.queue.len())
        } else {
            Dispatch::Handled
        }
    }

    fn run_queue(&mut self, cmd: &Command, env: &Env, tempos: &StrMap<String>, fresh: PlaylistId) -> (r: Dispatch)
        requires
            old(self).wf(),
            cmd is Play || cmd is Enqueue || cmd is Wedge || cmd is Next || cmd is Previous || cmd is ClearQueue || cmd is ToggleShuffle,
        ensures
            final(self).wf(),
            s_run(old(self)@, env@, tempos@, fresh, *cmd) == (final(self)@, Some(r@), Seq::<RequestView>::empty()),
    {
        match cmd {
            Command::Play(id) => {
                self.play(*id, env);
                Dispatch::Handled
            },
            Command::Enqueue(id) => {
                self.playback.queue.append(*id, &mut self.bus);
                Dispatch::Queued(self.playback.queue.len())
            },
            Command::Wedge(id) => {
                self.playback.queue.play_next(*id, &mut self.bus);
                Dispatch::Wedged(self.playback.queue.len())
            },
            Command::Next => {
                self.next(env);
                Dispatch::Handled
            },
            Command::Previous => self.previous(env),
            Command::ClearQueue => {
                self.playback.queue.clear(&mut self.bus);
                Dispatch::Handled
            },
            _ => {
                let on: bool = !self.playback.queue.get_shuffle();
                self.playback.queue.set_shuffle(on);
                Dispatch::ShuffleSet(on)
            },
        }
    }

    fn add_to_playlist(&mut self, track: TrackId, playlist: PlaylistId) -> (r: Result<Dispatch, Error>)
        ensures
            match playlist_of(old(self)@.w.s, playlist) {
                Some(p) => final(self)@ == s_save(old(self)@, PlaylistView { items: p.items.push(track), ..p })
                    && (r matches Ok(d) && d@ == DispatchView::Handled),
                None => final(self)@ == old(self)@ && (r matches Err(e) && e is NotFound),
            },
            final(self).playback == old(self).playback,
    {
        match self.catalog.store.get_playlist(playlist) {
            None => Err(Error::NotFound),
            Some(p) => {
                let mut p = p;
                p.items.push(track);
                self.save_playlist(&p);
                Ok(Dispatch::Handled)
            },
        }
    }

    fn run(&mut self, cmd: Command, env: &Env, tempos: &StrMap<String>, fresh: PlaylistId) -> (r: Result<Reply, Error>)
        requires
            old(self).wf(),
        ensures
            final(self).wf(),
            ({
                let (v, d, reqs) = s_run(old(self)@, env@, tempos@, fresh, cmd);
                &&& final(self)@ == v
                &&& replied(r, d, reqs)
            }),
    {
        let mut requests: Vec<Request> = Vec::new();
        assert(request_views(requests@) =~= seq![]);
        match cmd {
            Command::Search(text) => {
                let query = text.clone();
                let search: u64 = self.run_search(text);
                with_request(Dispatch::Handled, Request::RunSearch { search, query })
            },
            Command::PlayContext { tracks, index, remote, local, name } => {
                let x = PlaybackContext { tracks, index, remote, local, name, shuffle_bag: Vec::new() };
                assert(x@.shuffle_bag =~= seq![]);
                self.play_list(x, env);
                alone(Dispatch::Handled)
            },
            Command::PlayPause => match self.playback.player {
                Some(p) => with_request(Dispatch::Handled, Request::TogglePlayer(p)),
                None => {
                    self.playback.queue.toggleplayback(&mut self.bus);
                    alone(Dispatch::Handled)
                },
            },
            Command::Seek(delta) => match self.playback.player {
                Some(player) => with_request(Dispatch::Handled, Request::SeekPlayer { player, delta }),
                None => alone(Dispatch::Handled),
            },
            Command::Volume(delta) => with_request(Dispatch::Handled, Request::ChangeVolume(delta)),
            Command::NewPlaylist(name) => {
                let p = Playlist { id: fresh, name, notes: "".to_owned(), items: Vec::new() };
                assert(p@.items =~= seq![]);
                self.save_playlist(&p);
                alone(Dispatch::PlaylistCreated(fresh))
            },
            Command::AddToPlaylist { track, playlist } => {
                let d = self.add_to_playlist(track, playlist);
                of_result(d, requests)
            },
            Command::TogglePlaylistMembership { track, playlist, position } => {
                let d = self.toggle_playlist_membership(track, &playlist, position, &mut requests);
                proof {
                    let reqs = s_toggle(old(self)@, track, playlist, position).2;
                    assert(Seq::<RequestView>::empty() + reqs =~= reqs);
                }
                of_result(d, requests)
            },
            Command::LinkPick(id) => {
                let d = self.pick_link(id);
                of_result(d, requests)
            },
            Command::Unlink(id) => {
                let d = self.unlink_extra(id);
                of_result(d, requests)
            },
            Command::Like(track) => {
                let dispatch = self.set_liked(track, &mut requests);
                proof {
                    let reqs = s_like(old(self)@, track).2;
                    assert(Seq::<RequestView>::empty() + reqs =~= reqs);
                }
                Ok(Reply { dispatch, requests })
            },
            Command::ExportM3u(id) => match self.catalog.store.get_playlist(id) {
                None => {
                    reveal(export_of);
                    Err(Error::NotFound)
                },
                Some(p) => {
                    reveal(export_of);
                    let mut path = p.name.clone();
                    path.append(".m3u8");
                    match self.export(id, path, env, tempos) {
                        Some((d, q)) => with_request(d, q),
                        None => Err(Error::NotFound),
                    }
                },
            },
            Command::ExportM3uTo { playlist, path } => match self.export(playlist, path, env, tempos) {
                Some((d, q)) => with_request(d, q),
                None => Err(Error::NotFound),
            },
            Command::ImportM3u(path) => with_request(Dispatch::Handled, Request::ReadPlaylist(path)),
            Command::AddUri(uri) => with_request(Dispatch::Handled, Request::ResolveUri(uri)),
            Command::AddFilesToPlaylist { playlist, paths } => with_request(
                Dispatch::Handled,
                Request::FindFiles { playlist, paths },
            ),
            Command::ToggleScan => with_request(Dispatch::Handled, Request::ToggleScan),
            Command::Update => with_request(
                Dispatch::Done("checking for updates...".to_owned()),
                Request::Update,
            ),
            Command::Quit => alone(Dispatch::Quit),
            other => {
                let d = self.run_queue(&other, env, tempos, fresh);
                alone(d)
            },
        }
    }

    /// Does what a command asks for. `tempos` is how tempos are written, `fresh` the identifier
    /// that a new playlist gets.
    pub fn dispatch(&mut self, cmd: Command, env: &Env, tempos: &StrMap<String>, fresh: PlaylistId) -> (r: Result<Reply, Error>)
        requires
            old(self).wf(),
        ensures
            final(self).wf(),
            ({
                let (v, d, reqs) = s_dispatch(old(self)@, env@, tempos@, fresh, cmd);
                &&& final(self)@ == v
                &&& replied(r, d, reqs)
            }),
    {
        self.touch();
        let steers: bool = match &cmd {
            Command::Play(_) => true,
            Command::PlayContext { .. } => true,
            Command::Next => true,
            Command::Previous => true,
            _ => false,
        };
        if steers {
            self.playback.load_failures = 0;
        }
        self.run(cmd, env, tempos, fresh)
    }
}

} // verus!
