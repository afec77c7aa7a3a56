//! What is kept is what is read back, how tracks are named, and what an update does.

use vstd::prelude::*;
use crate::config::Config;
use crate::event::CoreEvent;
use crate::resolver::{Resolution, Resolver, Target, TargetView};
use crate::resolver_laws::can_play;
use crate::store::{rendition_key_of, tracks_of, MemStore, StoreView};
use crate::types::{
    artist_line, distinct, opt_text, short_label, track_name, track_views, Playlist, PlaylistId, Track, TrackId, TrackView,
};
use crate::update::{
    asked_update_result, is_managed, link_to_replace, platform_suffix, quiet_update_event, release_of, Outcome, Release,
};

verus! {

/// A playlist that is kept is read back as it is until it is deleted, and no other changes.
pub proof fn playlists_are_read_back(s: &mut MemStore, p: &Playlist, after: &mut MemStore, gone: PlaylistId)
    requires
        call_ensures(MemStore::upsert_playlist, (s, p), ()),
        *old(after) == *final(s),
        call_ensures(MemStore::delete_playlist, (after, gone), ()),
    ensures
        final(s)@.playlists.dom().contains(p@.id.0) && final(s)@.playlists[p@.id.0] == p@,
        !final(after)@.playlists.dom().contains(gone.0),
        gone.0 != p@.id.0 ==> final(after)@.playlists.dom().contains(p@.id.0) && final(after)@.playlists[p@.id.0] == p@,
        final(after)@.tracks == old(s)@.tracks,
        forall|k: u128|
            k != p@.id.0 && k != gone.0 ==> (#[trigger] final(after)@.playlists.dom().contains(k)
                <==> old(s)@.playlists.dom().contains(k)),
{
}

/// What is kept of a source's list is read back under its key, and nothing under another changes.
pub proof fn lists_are_read_back(s: &mut MemStore, key: &str, ids: &Vec<TrackId>, after: &MemStore, other: &str, r: Vec<TrackId>, before: &MemStore, was: Vec<TrackId>)
    requires
        *before == *old(s),
        call_ensures(MemStore::set_remote_playlist_ids, (s, key, ids), ()),
        *after == *final(s),
        call_ensures(MemStore::remote_playlist_ids, (after, other), r),
        call_ensures(MemStore::remote_playlist_ids, (before, other), was),
    ensures
        other@ == key@ ==> r@ == ids@,
        other@ != key@ ==> r@ == was@,
{
}

/// The tracks of a row of names come in its order, each as it is kept; names of nothing are left
/// out.
pub proof fn tracks_come_in_their_order(s: StoreView, ids: Seq<TrackId>, i: int)
    requires
        forall|k: int| 0 <= k < ids.len() ==> s.tracks.dom().contains((#[trigger] ids[k]).0),
        0 <= i < ids.len(),
    ensures
        tracks_of(s, ids).len() == ids.len(),
        tracks_of(s, ids)[i] == s.tracks[ids[i].0],
    decreases ids.len(),
{
    lemma_all_there(s, ids);
    lemma_all_there(s, ids.drop_last());
    if i < ids.len() - 1 {
        tracks_come_in_their_order(s, ids.drop_last(), i);
    }
}

proof fn lemma_all_there(s: StoreView, ids: Seq<TrackId>)
    requires
        forall|k: int| 0 <= k < ids.len() ==> s.tracks.dom().contains((#[trigger] ids[k]).0),
    ensures
        tracks_of(s, ids).len() == ids.len(),
    decreases ids.len(),
{
    if ids.len() > 0 {
        let head = ids.drop_last();
        assert forall|k: int| 0 <= k < head.len() implies s.tracks.dom().contains((#[trigger] head[k]).0) by {
            assert(head[k] == ids[k]);
        }
        lemma_all_there(s, head);
        assert(s.tracks.dom().contains(ids[ids.len() - 1].0));
    }
}

/// Two renditions are never taken for one another.
pub proof fn renditions_are_told_apart(a: Seq<char>, x: Seq<char>, b: Seq<char>, y: Seq<char>)
    requires
        !a.contains('\0'),
        !b.contains('\0'),
        rendition_key_of(a, x) == rendition_key_of(b, y),
    ensures
        a == b,
        x == y,
{
    let p = rendition_key_of(a, x);
    let q = rendition_key_of(b, y);
    assert(p[a.len() as int] == '\0');
    assert(q[b.len() as int] == '\0');
    if a.len() < b.len() {
        assert(q[a.len() as int] == b[a.len() as int]);
        assert(b.contains('\0'));
    }
    if b.len() < a.len() {
        assert(p[b.len() as int] == a[b.len() as int]);
        assert(a.contains('\0'));
    }
    assert forall|i: int| 0 <= i < a.len() implies a[i] == b[i] by {
        assert(p[i] == a[i] && q[i] == b[i]);
    }
    assert(a =~= b);
    assert(p.skip(a.len() as int + 1) =~= x);
    assert(q.skip(b.len() as int + 1) =~= y);
}

/// A playlist resolves row by row, in its order: a track that is not there is a gap, and one with
/// a rendition that can be played is ready to be played.
pub proof fn playlists_resolve_row_by_row(p: &Playlist, tracks: &Vec<Track>, present: &Vec<Vec<bool>>, r: Vec<(TrackId, Resolution)>, target: &Target, i: int, k: int, j: int)
    requires
        target@ == TargetView::Playback,
        call_ensures(Resolver::resolve_playlist, (p, tracks, target, present), r),
        present@.len() == tracks@.len(),
        forall|a: int| 0 <= a < tracks@.len() ==> (#[trigger] present@[a])@.len() == tracks@[a].renditions@.len(),
        0 <= i < p.items@.len(),
        forall|a: int, b: int| 0 <= a < b < tracks@.len() ==> (#[trigger] tracks@[a]).id != (#[trigger] tracks@[b]).id,
    ensures
        r@.len() == p.items@.len(),
        r@[i].0 == p.items@[i],
        (forall|a: int| 0 <= a < tracks@.len() ==> (#[trigger] tracks@[a]).id != p.items@[i]) ==> r@[i].1@ is Gap,
        0 <= k < tracks@.len() && tracks@[k].id == p.items@[i] && 0 <= j < tracks@[k].renditions@.len() && can_play(
            tracks@[k].renditions@[j]@,
            present@[k]@[j],
        ) ==> r@[i].1@ is Ready,
{
    let v = track_views(tracks@);
    let id = p.items@[i];
    assert(r@[i].0 == p.items@[i]);
    assert forall|a: int| 0 <= a < v.len() implies (#[trigger] v[a]).id == tracks@[a].id by {}
    if 0 <= k < tracks@.len() && tracks@[k].id == id && 0 <= j < tracks@[k].renditions@.len() && can_play(
        tracks@[k].renditions@[j]@,
        present@[k]@[j],
    ) {
        assert forall|a: int| 0 <= a < k implies (#[trigger] v[a]).id != id by {
            assert(tracks@[a].id != tracks@[k].id);
        }
        lemma_track_at(v, id, 0, k);
        assert(crate::resolver::bool_views(present@)[k] == present@[k]@);
        assert(v[k].renditions[j] == tracks@[k].renditions@[j]@);
        crate::resolver_laws::the_preferred_rendition_plays(v[k], present@[k]@, j);
    }
    if forall|a: int| 0 <= a < tracks@.len() ==> (#[trigger] tracks@[a]).id != id {
        assert forall|a: int| 0 <= a < v.len() implies (#[trigger] v[a]).id != id by {
            assert(tracks@[a].id != id);
        }
        lemma_track_nowhere(v, id, 0);
    }
}

proof fn lemma_track_at(v: Seq<TrackView>, id: TrackId, i: int, k: int)
    requires
        0 <= i <= k < v.len(),
        v[k].id == id,
        forall|a: int| i <= a < k ==> (#[trigger] v[a]).id != id,
    ensures
        crate::resolver::track_at(v, id, i) == Some(k),
    decreases k - i,
{
    if i < k {
        assert(v[i].id != id);
        lemma_track_at(v, id, i + 1, k);
    }
}

proof fn lemma_track_nowhere(v: Seq<TrackView>, id: TrackId, i: int)
    requires
        0 <= i,
        forall|a: int| i <= a < v.len() ==> (#[trigger] v[a]).id != id,
    ensures
        crate::resolver::track_at(v, id, i) is None,
    decreases v.len() - i,
{
    if i < v.len() {
        assert(v[i].id != id);
        lemma_track_nowhere(v, id, i + 1);
    }
}

/// A track is named by its artist and its title; one whose artist is not known by its title alone,
/// and its artist's place says that it is not known.
pub proof fn tracks_are_named(t: TrackView, artist: Seq<char>)
    ensures
        t.artists.len() == 0 ==> track_name(t) == t.title && artist_line(t.artists) == "Unknown Artist"@,
        t.artists == seq![artist] ==> artist_line(t.artists) == artist && track_name(t) == artist + seq![' ', '-', ' '] + t.title,
        track_name(t).len() >= t.title.len() && track_name(t).skip(track_name(t).len() - t.title.len()) == t.title,
{
    reveal_strlit(" - ");
    assert(" - "@ =~= seq![' ', '-', ' ']);
    assert(track_name(t).skip(track_name(t).len() - t.title.len()) =~= t.title);
}

/// Several artists stand one after the other, a comma between each two.
pub proof fn artists_stand_in_order(artists: Seq<Seq<char>>, last: Seq<char>)
    requires
        artists.len() > 0,
    ensures
        artist_line(artists.push(last)) == artist_line(artists) + seq![',', ' '] + last,
{
    reveal_strlit(", ");
    assert(", "@ =~= seq![',', ' ']);
    assert(artists.push(last).drop_last() =~= artists);
}

/// A row without repetitions holds what the row holds, each once.
pub proof fn badges_are_not_repeated(v: Seq<Seq<char>>)
    ensures
        distinct(v).no_duplicates(),
        forall|x: Seq<char>| #[trigger] distinct(v).contains(x) <==> v.contains(x),
    decreases v.len(),
{
    if v.len() > 0 {
        let head = v.drop_last();
        badges_are_not_repeated(head);
        let d = distinct(head);
        assert forall|x: Seq<char>| #[trigger] distinct(v).contains(x) <==> v.contains(x) by {
            if v.contains(x) {
                let i = v.index_of(x);
                if i < head.len() {
                    assert(head[i] == x);
                    assert(head.contains(x) && d.contains(x));
                    let j = d.index_of(x);
                    assert(distinct(v)[j] == x);
                } else {
                    if !d.contains(x) {
                        assert(distinct(v).last() == x);
                    }
                }
            }
            if distinct(v).contains(x) {
                let j = distinct(v).index_of(x);
                if j < d.len() {
                    assert(d[j] == x);
                    assert(d.contains(x));
                    assert(head.contains(x));
                    assert(v[head.index_of(x)] == x);
                } else {
                    assert(x == v[v.len() - 1]);
                }
            }
        }
    }
}

/// The short name of a source is two letters at most, and those of the player's own sources
/// differ.
pub proof fn short_names_are_short(name: Seq<char>)
    ensures
        short_label(name).len() <= 2,
        short_label("spotify"@) != short_label("soundcloud"@),
        short_label("local"@) != short_label("http"@),
        name.len() >= 2 ==> short_label(name).len() == 2,
{
    reveal_strlit("spotify");
    reveal_strlit("soundcloud");
    reveal_strlit("local");
    reveal_strlit("http");
    reveal_strlit("external");
    reveal_strlit("sp");
    reveal_strlit("sc");
    reveal_strlit("lo");
    reveal_strlit("ht");
    reveal_strlit("ex");
    assert("sp"@[1] != "sc"@[1]);
    assert("lo"@[0] != "ht"@[0]);
    assert("spotify"@.len() != "soundcloud"@.len());
    assert("local"@.len() != "soundcloud"@.len() && "local"@.len() != "spotify"@.len());
    assert("http"@.len() != "soundcloud"@.len() && "http"@.len() != "spotify"@.len() && "http"@.len() != "local"@.len());
}

/// An asset of a release keeps its name and its address together.
pub proof fn assets_keep_their_address(tag: Option<String>, names: Vec<Option<String>>, urls: Vec<Option<String>>, r: Release, i: int)
    requires
        call_ensures(release_of, (tag, Some(names), Some(urls)), r),
        names@.len() == urls@.len(),
        0 <= i < names@.len(),
    ensures
        r@.tag == opt_text(tag),
        r@.assets.len() == names@.len(),
        r@.assets[i] == (opt_text(names@[i]), opt_text(urls@[i])),
{
    assert(crate::update::text_views(names@)[i] == crate::update::text_view(names@[i]));
    assert(crate::update::text_views(urls@)[i] == crate::update::text_view(urls@[i]));
}

/// There is a file for Linux and macOS on two machines, under names that differ, and for no other.
pub proof fn platforms_have_their_own_file(os: &str, arch: &str, r: Result<String, String>)
    requires
        call_ensures(platform_suffix, (os, arch), r),
    ensures
        r is Ok <==> (os@ == "linux"@ || os@ == "macos"@) && (arch@ == "x86_64"@ || arch@ == "aarch64"@),
        r matches Ok(s) ==> s@.len() > os@.len() && s@.take(os@.len() as int) == os@,
        r matches Ok(s) ==> (arch@ == "x86_64"@ <==> s@.skip(os@.len() as int + 1) == "x86_64"@),
{
    reveal_strlit("linux");
    reveal_strlit("macos");
    reveal_strlit("x86_64");
    reveal_strlit("aarch64");
    reveal_strlit("linux-x86_64");
    reveal_strlit("linux-arm64");
    reveal_strlit("macos-x86_64");
    reveal_strlit("macos-aarch64");
    assert("linux"@[0] == 'l' && "macos"@[0] == 'm');
    assert("x86_64"@.len() == 6 && "aarch64"@.len() == 7);
    if let Ok(s) = r {
        assert(s@.take(os@.len() as int) =~= os@);
        if arch@ == "x86_64"@ {
            assert(s@.skip(os@.len() as int + 1) =~= "x86_64"@);
        } else {
            assert(s@.skip(os@.len() as int + 1).len() != 6);
        }
    }
}

/// A program that a package manager owns is not replaced, nor is one that leads to the running
/// one already.
pub proof fn managed_programs_are_left_alone(found: String, reaches: bool, resolved: &str, r: Result<Option<String>, String>, path: &str, managed: bool)
    requires
        call_ensures(link_to_replace, (Some(found), reaches, resolved), r),
        path@ == found@,
        call_ensures(is_managed, (path,), managed),
    ensures
        reaches ==> r == Ok::<Option<String>, String>(None),
        !reaches && managed ==> r is Err,
        r matches Ok(Some(f)) ==> f == found && !managed && !reaches,
{
}

/// An update that was not asked for is told only where something came of it; one that was asked
/// for is always answered, and an update that could not be had is no success.
pub proof fn updates_are_told(outcome: Result<Outcome, String>, version: &str, quiet: Option<CoreEvent>, asked: Result<String, String>)
    requires
        call_ensures(quiet_update_event, (outcome,), quiet),
        call_ensures(asked_update_result, (outcome, version), asked),
    ensures
        outcome matches Ok(Outcome::Current) ==> quiet is None && asked is Ok,
        outcome matches Ok(Outcome::NotReady) ==> quiet is None && asked is Err,
        outcome matches Ok(Outcome::Installed(m)) ==> (quiet matches Some(CoreEvent::UpdateResult(Ok(x))) && x == m) && (asked matches Ok(
            y,
        ) && y@ == m@),
        outcome is Err ==> (quiet matches Some(e) && e is BackgroundFailure) && asked is Err,
{
}

/// The cache lies where the settings say, and where they say nothing below the directory of the
/// player's data.
pub proof fn the_cache_has_its_place(c: &mut Config, data_dir: &str)
    requires
        call_ensures(Config::place_cache, (c, data_dir), ()),
        data_dir@.len() > 0,
    ensures
        old(c).media_cache_dir@.len() > 0 ==> final(c).media_cache_dir@ == old(c).media_cache_dir@,
        final(c).media_cache_dir@.len() > 0,
        old(c).media_cache_dir@.len() == 0 ==> final(c).media_cache_dir@.len() > data_dir@.len() && final(c).media_cache_dir@.take(
            data_dir@.len() as int,
        ) == data_dir@,
{
    reveal_strlit("media-cache");
    assert("media-cache"@[0] == 'm');
    if old(c).media_cache_dir@.len() == 0 {
        assert(final(c).media_cache_dir@.take(data_dir@.len() as int) =~= data_dir@);
    }
}

} // verus!
