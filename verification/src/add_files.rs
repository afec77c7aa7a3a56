//! Local files into the library, and on to a playlist or the queue.

use vstd::prelude::*;
use crate::catalog::{folded_hits_stay, ingested, Catalog};
use crate::event::{Bus, CoreEvent};
use crate::exchange::{stem_of, synthesise_rendition, synthesised, uri_stem, SpecView};
use crate::moment::Moment;
use crate::names::{artist_title, parse_artist_title};
use crate::queue::{bumped, requeued, Queue, QueueView};
use crate::store::{playlist_of, store_sound, StoreView};
use crate::strmap::StrMap;
use crate::text::{append_decimal, append_str, decimal, same_text, string_of, str_views};
use crate::traits::Error;
use crate::types::{
    fresh_track, opt_text, LinkReason, Playlist, PlaylistId, PlaylistView, Rendition, RenditionView, SourceId, Track,
    TrackId, TrackView,
};

verus! {

/// How far files have been added: to the items of a playlist, or else to the queue.
pub struct AddView {
    pub s: StoreView,
    pub ev: Seq<CoreEvent>,
    pub items: Option<Seq<TrackId>>,
    pub queue: QueueView,
    pub added: nat,
    pub skipped: nat,
}

/// The hit that a local file is.
pub open spec fn file_hit(x: SpecView, now: Moment, id: TrackId) -> TrackView {
    let (artists, title) = artist_title(stem_of(x.uri));
    fresh_track(
        id,
        title,
        artists,
        RenditionView {
            source: x.source,
            uri: x.uri,
            duration_ms: 0,
            quality: x.quality,
            link: LinkReason::Manual,
            added_at: now,
        },
    )
}

/// One more file: what is no local audio file, is not there, or is already in the playlist, is
/// skipped.
pub open spec fn with_file(v: AddView, x: SpecView, files: Set<Seq<char>>, now: Moment, id: TrackId) -> AddView {
    if x.source != "local"@ || !files.contains(x.uri) {
        AddView { skipped: v.skipped + 1, ..v }
    } else {
        let (s, t, written) = ingested(v.s, file_hit(x, now, id), id);
        let ev = if written {
            v.ev.push(CoreEvent::TrackUpdated(t))
        } else {
            v.ev
        };
        match v.items {
            Some(items) => if items.contains(t) {
                AddView { s, ev, skipped: v.skipped + 1, ..v }
            } else {
                AddView { s, ev, items: Some(items.push(t)), added: v.added + 1, ..v }
            },
            None => AddView {
                s,
                ev: ev.push(CoreEvent::QueueChanged),
                queue: requeued(v.queue, v.queue.queue.push(t)),
                added: v.added + 1,
                ..v
            },
        }
    }
}

/// The first `n` files.
pub open spec fn with_files(
    v: AddView,
    paths: Seq<Seq<char>>,
    base: Seq<char>,
    recognized: Seq<Option<String>>,
    files: Set<Seq<char>>,
    now: Moment,
    ids: Seq<TrackId>,
    n: int,
) -> AddView
    decreases n,
{
    if n <= 0 || n > paths.len() {
        v
    } else {
        with_file(
            with_files(v, paths, base, recognized, files, now, ids, n - 1),
            synthesised(paths[n - 1], base, opt_text(recognized[n - 1])),
            files,
            now,
            ids[n - 1],
        )
    }
}

/// What is said of added files: `playlist` is the name of the playlist they went to.
pub open spec fn added_text(playlist: Option<Seq<char>>, added: nat, skipped: nat) -> Seq<char> {
    (match playlist {
        Some(name) => "added "@ + decimal(added) + " track(s) to \""@ + name + "\""@,
        None => "queued "@ + decimal(added) + " track(s)"@,
    }) + (if skipped > 0 {
        " ("@ + decimal(skipped) + " skipped)"@
    } else {
        seq![]
    })
}

fn added_message(playlist: &Option<Playlist>, added: u64, skipped: u64) -> (r: String)
    ensures
        r@ == added_text(
            match *playlist {
                Some(p) => Some(p.name@),
                None => None,
            },
            added as nat,
            skipped as nat,
        ),
{
    let mut v: Vec<char> = Vec::new();
    match playlist {
        Some(p) => {
            append_str(&mut v, "added ");
            append_decimal(&mut v, added);
            append_str(&mut v, " track(s) to \"");
            append_str(&mut v, &p.name);
            append_str(&mut v, "\"");
        },
        None => {
            append_str(&mut v, "queued ");
            append_decimal(&mut v, added);
            append_str(&mut v, " track(s)");
        },
    }
    if skipped > 0 {
        append_str(&mut v, " (");
        append_decimal(&mut v, skipped);
        append_str(&mut v, " skipped)");
    }
    let ghost name = match playlist {
        Some(p) => Some(p.name@),
        None => None,
    };
    assert(v@ =~= added_text(name, added as nat, skipped as nat));
    string_of(&v)
}

fn holds(v: &Vec<TrackId>, id: TrackId) -> (r: bool)
    ensures
        r == v@.contains(id),
{
    let mut i: usize = 0;
    while i < v.len()
        invariant
            i <= v@.len(),
            forall|j: int| 0 <= j < i ==> v@[j] != id,
        decreases v@.len() - i,
    {
        if v[i] == id {
            return true;
        }
        i = i + 1;
    }
    false
}

pub open spec fn items_of(p: Option<Playlist>) -> Option<Seq<TrackId>> {
    match p {
        Some(p) => Some(p.items@),
        None => None,
    }
}

/// Where files are added.
pub open spec fn adding(p: Option<Playlist>, added: u64, skipped: u64, c: Catalog, q: Queue, b: Bus) -> AddView {
    AddView {
        s: c.store@,
        ev: b@,
        items: items_of(p),
        queue: q@,
        added: added as nat,
        skipped: skipped as nat,
    }
}

pub open spec fn file_set(m: Map<Seq<char>, ()>) -> Set<Seq<char>> {
    m.dom()
}

/// What adding files comes to: the library, the events, the queue, whether the playlist was
/// written, and what is said of it, or nothing where the playlist is not there.
pub struct AddDone {
    pub s: StoreView,
    pub ev: Seq<CoreEvent>,
    pub queue: QueueView,
    pub saved: bool,
    pub message: Option<Seq<char>>,
}

pub open spec fn add_of(
    s: StoreView,
    ev: Seq<CoreEvent>,
    queue: QueueView,
    playlist: Option<PlaylistId>,
    paths: Seq<Seq<char>>,
    base: Seq<char>,
    recognized: Seq<Option<String>>,
    files: Set<Seq<char>>,
    now: Moment,
    ids: Seq<TrackId>,
) -> AddDone {
    let into = match playlist {
        Some(id) => playlist_of(s, id),
        None => None,
    };
    let start = AddView {
        s,
        ev,
        items: match into {
            Some(p) => Some(p.items),
            None => None,
        },
        queue,
        added: 0,
        skipped: 0,
    };
    let v = with_files(start, paths, base, recognized, files, now, ids, paths.len() as int);
    if playlist is Some && into is None {
        AddDone { s, ev, queue, saved: false, message: None }
    } else {
        match into {
            Some(p) => if v.added > 0 {
                AddDone {
                    s: StoreView {
                        playlists: v.s.playlists.insert(p.id.0, PlaylistView { items: v.items->0, ..p }),
                        ..v.s
                    },
                    ev: v.ev.push(CoreEvent::PlaylistsChanged),
                    queue: v.queue,
                    saved: true,
                    message: Some(added_text(Some(p.name), v.added, v.skipped)),
                }
            } else {
                AddDone {
                    s: v.s,
                    ev: v.ev,
                    queue: v.queue,
                    saved: false,
                    message: Some(added_text(Some(p.name), v.added, v.skipped)),
                }
            },
            None => AddDone {
                s: v.s,
                ev: v.ev,
                queue: v.queue,
                saved: false,
                message: Some(added_text(None, v.added, v.skipped)),
            },
        }
    }
}

/// Adds local files to a playlist, or to the queue, and says so. `base` is the directory that
/// relative paths start at, `recognized` the source that knows each path, `files` the files that
/// are there. The identifiers are for new tracks, one for each path.
pub fn add_files(
    playlist: Option<PlaylistId>,
    paths: &Vec<String>,
    base: &str,
    recognized: &Vec<Option<String>>,
    files: &StrMap<()>,
    now: Moment,
    ids: &Vec<TrackId>,
    catalog: &mut Catalog,
    queue: &mut Queue,
    bus: &mut Bus,
) -> (r: Result<String, Error>)
    requires
        recognized@.len() == paths@.len(),
        ids@.len() == paths@.len(),
    ensures
        ({
            let done = add_of(
                old(catalog).store@,
                old(bus)@,
                old(queue)@,
                playlist,
                str_views(paths@),
                base@,
                recognized@,
                file_set(files@),
                now,
                ids@,
            );
            &&& final(catalog).store@ == done.s
            &&& final(bus)@ == done.ev
            &&& final(queue)@ == done.queue
            &&& final(queue).wf() == old(queue).wf()
            &&& final(catalog).playlists_generation() == (if done.saved {
                bumped(old(catalog).playlists_generation())
            } else {
                old(catalog).playlists_generation()
            })
            &&& match r {
                Ok(m) => done.message == Some(m@),
                Err(e) => done.message is None && e is NotFound,
            }
        }),
        final(catalog).removed_generation() == old(catalog).removed_generation(),
{
    let mut into: Option<Playlist> = None;
    if let Some(id) = playlist {
        match catalog.store.get_playlist(id) {
            Some(p) => {
                into = Some(p);
            },
            None => {
                return Err(Error::NotFound);
            },
        }
    }
    let ghost start = adding(into, 0, 0, *catalog, *queue, *bus);
    let ghost first = into;
    let ghost pv = str_views(paths@);
    let ghost fs = file_set(files@);
    let mut added: u64 = 0;
    let mut skipped: u64 = 0;
    let n: usize = paths.len();
    let mut i: usize = 0;
    while i < n
        invariant
            i <= n == paths@.len(),
            n == recognized@.len(),
            n == ids@.len(),
            pv == str_views(paths@),
            fs == file_set(files@),
            added <= i,
            skipped <= i,
            adding(into, added, skipped, *catalog, *queue, *bus) == with_files(
                start,
                pv,
                base@,
                recognized@,
                fs,
                now,
                ids@,
                i as int,
            ),
            into is Some <==> first is Some,
            (first is Some) ==> (into->0.id == first->0.id && into->0.name@ == first->0.name@ && into->0.notes@
                == first->0.notes@),
            queue.wf() == old(queue).wf(),
            catalog.playlists_gen == old(catalog).playlists_gen,
            catalog.removed_gen == old(catalog).removed_gen,
        decreases n - i,
    {
        assert(pv[i as int] == paths@[i as int]@);
        let x = synthesise_rendition(&paths[i], base, &recognized[i]);
        if !same_text(&x.source, "local") || !files.contains_key(&x.uri) {
            skipped = skipped + 1;
        } else {
            let (artists, title) = parse_artist_title(&uri_stem(&x.uri));
            let r = Rendition::fresh_at(SourceId::new(&x.source), x.uri.clone(), 0, x.quality, now);
            let hit = Track::fresh_with(ids[i], title, artists, r);
            assert(hit@ == file_hit(x@, now, ids@[i as int]));
            assert(hit@.renditions.len() == hit.renditions@.len());
            let id = catalog.ingest_with(&hit, ids[i], bus);
            match into {
                Some(p) => {
                    let mut p = p;
                    if holds(&p.items, id) {
                        skipped = skipped + 1;
                    } else {
                        p.items.push(id);
                        added = added + 1;
                    }
                    into = Some(p);
                },
                None => {
                    queue.append(id, bus);
                    added = added + 1;
                    into = None;
                },
            }
        }
        i = i + 1;
    }
    let message = added_message(&into, added, skipped);
    if let Some(p) = &into {
        if added > 0 {
            catalog.save_playlist(p);
            bus.send(CoreEvent::PlaylistsChanged);
        }
    }
    Ok(message)
}

proof fn lemma_with_files(
    v: AddView,
    paths: Seq<Seq<char>>,
    base: Seq<char>,
    recognized: Seq<Option<String>>,
    files: Set<Seq<char>>,
    now: Moment,
    ids: Seq<TrackId>,
    n: int,
)
    requires
        store_sound(v.s),
        0 <= n <= paths.len(),
    ensures
        ({
            let r = with_files(v, paths, base, recognized, files, now, ids, n);
            &&& store_sound(r.s)
            &&& r.s.playlists == v.s.playlists
            &&& v.items is Some <==> r.items is Some
            &&& v.items matches Some(items) ==> items.is_prefix_of(r.items->0) && forall|i: int|
                items.len() <= i < r.items->0.len() ==> r.s.tracks.dom().contains((#[trigger] r.items->0[i]).0)
            &&& v.queue.queue.is_prefix_of(r.queue.queue) && forall|i: int|
                v.queue.queue.len() <= i < r.queue.queue.len() ==> r.s.tracks.dom().contains((#[trigger] r.queue.queue[i]).0)
        }),
    decreases n,
{
    let r = with_files(v, paths, base, recognized, files, now, ids, n);
    if n > 0 {
        lemma_with_files(v, paths, base, recognized, files, now, ids, n - 1);
        let m = with_files(v, paths, base, recognized, files, now, ids, n - 1);
        let x = synthesised(paths[n - 1], base, opt_text(recognized[n - 1]));
        let hit = file_hit(x, now, ids[n - 1]);
        folded_hits_stay(m.s, hit, ids[n - 1]);
        if let Some(items) = v.items {
            let w = r.items->0;
            assert forall|i: int| items.len() <= i < w.len() implies r.s.tracks.dom().contains((#[trigger] w[i]).0) by {
                if i < m.items->0.len() {
                    assert(w[i] == m.items->0[i]);
                    assert(m.s.tracks.dom().contains(m.items->0[i].0));
                }
            }
            assert(items.is_prefix_of(w)) by {
                assert(w.subrange(0, items.len() as int) =~= items);
            }
        }
        assert forall|i: int| v.queue.queue.len() <= i < r.queue.queue.len() implies r.s.tracks.dom().contains(
            (#[trigger] r.queue.queue[i]).0,
        ) by {
            if i < m.queue.queue.len() {
                assert(r.queue.queue[i] == m.queue.queue[i]);
                assert(m.s.tracks.dom().contains(m.queue.queue[i].0));
            }
        }
        assert(v.queue.queue.is_prefix_of(r.queue.queue)) by {
            assert(r.queue.queue.subrange(0, v.queue.queue.len() as int) =~= v.queue.queue);
        }
    } else {
        assert(v.queue.queue.subrange(0, v.queue.queue.len() as int) =~= v.queue.queue);
        if let Some(items) = v.items {
            assert(items.subrange(0, items.len() as int) =~= items);
        }
    }
}

/// The playlist holds what it held, and behind it tracks of the library.
pub open spec fn extended(s: StoreView, id: PlaylistId, was: PlaylistView) -> bool {
    match playlist_of(s, id) {
        Some(p) => {
            &&& p.id == id && p.name == was.name && was.items.is_prefix_of(p.items)
            &&& forall|i: int|
                was.items.len() <= i < p.items.len() ==> s.tracks.dom().contains((#[trigger] p.items[i]).0)
        },
        None => false,
    }
}

/// Files that are added go to the end of the playlist that was named, or of the queue, and what
/// was added is in the library, which stays sound.
pub proof fn added_files_are_there(
    s: StoreView,
    ev: Seq<CoreEvent>,
    queue: QueueView,
    playlist: Option<PlaylistId>,
    paths: Seq<Seq<char>>,
    base: Seq<char>,
    recognized: Seq<Option<String>>,
    files: Set<Seq<char>>,
    now: Moment,
    ids: Seq<TrackId>,
)
    requires
        store_sound(s),
    ensures
        ({
            let done = add_of(s, ev, queue, playlist, paths, base, recognized, files, now, ids);
            &&& store_sound(done.s)
            &&& done.message is None <==> (playlist matches Some(p) && playlist_of(s, p) is None)
            &&& playlist matches Some(p) ==> (playlist_of(s, p) matches Some(was) ==> extended(done.s, p, was))
            &&& queue.queue.is_prefix_of(done.queue.queue) && forall|i: int|
                queue.queue.len() <= i < done.queue.queue.len() ==> done.s.tracks.dom().contains((#[trigger] done.queue.queue[i]).0)
        }),
{
    let into = match playlist {
        Some(id) => playlist_of(s, id),
        None => None,
    };
    let start = AddView {
        s,
        ev,
        items: match into {
            Some(p) => Some(p.items),
            None => None,
        },
        queue,
        added: 0,
        skipped: 0,
    };
    assert(queue.queue.subrange(0, queue.queue.len() as int) =~= queue.queue);
    lemma_with_files(start, paths, base, recognized, files, now, ids, paths.len() as int);
    if let Some(p) = into {
        assert(p.items.subrange(0, p.items.len() as int) =~= p.items);
    }
}

/// Every path is added or skipped.
pub proof fn every_path_is_counted(
    v: AddView,
    paths: Seq<Seq<char>>,
    base: Seq<char>,
    recognized: Seq<Option<String>>,
    files: Set<Seq<char>>,
    now: Moment,
    ids: Seq<TrackId>,
    n: int,
)
    requires
        0 <= n <= paths.len(),
    ensures
        ({
            let r = with_files(v, paths, base, recognized, files, now, ids, n);
            r.added + r.skipped == v.added + v.skipped + n
        }),
    decreases n,
{
    if n > 0 {
        every_path_is_counted(v, paths, base, recognized, files, now, ids, n - 1);
    }
}

} // verus!
