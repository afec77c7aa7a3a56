//! What is kept between two runs, and which release is taken.

use vstd::prelude::*;
use crate::config::{home_expanded, home_shortened, limited_fps, Config};
use crate::exchange::joined_path;
use crate::moment::Moment;
use crate::scan::ScanMode;
use crate::session::{restored_queue, started, Session};
use crate::startup::dir_of;
use crate::state::{default_mode_of, differing, restored, Saved};
use crate::store::StoreView;
use crate::text::{decimal, lemma_split_cons, lemma_split_single, lemma_unsigned_decimal, split_of};
use crate::types::TrackId;
use crate::update::{asset_url, newer, release_plan_of, version_of, without_v, PlanView, ReleaseView};
use crate::warnings::WarningsView;

verus! {

/// What was saved wins over what is configured, setting by setting; what was not saved is as it
/// is configured.
pub proof fn saved_settings_win(c: Config, s: Saved)
    ensures
        ({
            let r = restored(c, s);
            &&& r.http.enabled == (if s.http is Some { s.http->0 } else { c.http.enabled })
            &&& r.spotify.enabled == (if s.spotify is Some { s.spotify->0 } else { c.spotify.enabled })
            &&& r.soundcloud.enabled == (if s.soundcloud is Some { s.soundcloud->0 } else { c.soundcloud.enabled })
            &&& r.soulseek.enabled == (if s.soulseek is Some { s.soulseek->0 } else { c.soulseek.enabled })
            &&& r.vis.fps == (if s.vis_fps is Some { s.vis_fps->0 } else { c.vis.fps })
            &&& r.status_line == (if s.status_line is Some { s.status_line->0 } else { c.status_line })
            &&& r.show_hints == (if s.show_hints is Some { s.show_hints->0 } else { c.show_hints })
            &&& r.auto_update == (if s.auto_update is Some { s.auto_update->0 } else { c.auto_update })
            &&& r.media_cache_dir == (if s.media_cache_dir is Some { s.media_cache_dir->0 } else { c.media_cache_dir })
            &&& r.theme == c.theme && r.http.roots == c.http.roots && r.scan == c.scan
        }),
{
}

/// While the cache is not where it is configured to be, it is kept from where it is to be moved.
pub proof fn pending_moves_are_kept(base: Config, now: Config, was: Saved, running: String, mode: Option<ScanMode>)
    ensures
        ({
            let s = differing(base, now, was, running, mode);
            &&& running@ == now.media_cache_dir@ ==> s.media_cache_move_from is None
            &&& running@ != now.media_cache_dir@ ==> s.media_cache_move_from == Some(running)
            &&& s.waveform_enabled == was.waveform_enabled && s.liked_playlist == was.liked_playlist
        }),
{
}

/// With scanning switched on in the configuration only what is in the cache is scanned at first,
/// and else nothing.
pub proof fn scanning_starts_with_the_cache(c: crate::config::ScanConfig)
    ensures
        c.bpm.enabled ==> default_mode_of(c) == ScanMode::CacheOnly,
        !c.bpm.enabled ==> default_mode_of(c) == ScanMode::Disabled,
{
}

/// The frame rate stays between five and sixty, and is as asked for in between.
pub proof fn frame_rates_are_limited(fps: u32)
    ensures
        5 <= limited_fps(fps) <= 60,
        5 <= fps <= 60 ==> limited_fps(fps) == fps,
        fps > 60 ==> limited_fps(fps) == 60,
        fps < 5 ==> limited_fps(fps) == 5,
{
}

/// A player starts with the queue that was stored and the plays of the log, and plays nothing.
pub proof fn players_start_where_they_ended(s: StoreView, history: Seq<(TrackId, Moment)>, probed: WarningsView, ev: Seq<crate::event::CoreEvent>)
    requires
        history.len() <= 5000,
    ensures
        ({
            let w = started(s, history, probed, ev);
            &&& s.playlists.dom().contains(crate::session::QUEUE_PLAYLIST_ID) ==> w.p.queue.queue
                == s.playlists[crate::session::QUEUE_PLAYLIST_ID].items
            &&& !s.playlists.dom().contains(crate::session::QUEUE_PLAYLIST_ID) ==> w.p.queue.queue.len() == 0
            &&& w.p.queue.history == history
            &&& w.p.queue.current is None && w.p.now_playing is None && w.p.player is None
            &&& !w.p.queue.shuffle
            &&& w.p.effects.len() == 0
            &&& w.s == s
        }),
{
}

/// The queue that is saved is the one of the next start.
pub proof fn queues_come_back(s: &mut Session)
    requires
        call_ensures(Session::save_queue, (s,), ()),
    ensures
        restored_queue(final(s)@.w.s) == old(s)@.w.p.queue.queue,
        final(s)@.w.s.tracks == old(s)@.w.s.tracks,
{
}

/// Configuration and data lie in directories of the player's own, below what the environment
/// names, and else below the home directory.
pub proof fn directories_are_the_players_own(named: Seq<char>, home: Seq<char>, below: Seq<char>)
    requires
        named.len() > 0 && named.last() != '/',
        home.len() > 0 && home.last() != '/',
        below.len() > 0 && below[0] != '/' && below.last() != '/',
    ensures
        dir_of(Some(named), home, below) == named + "/medley"@,
        dir_of(None, home, below) == home + "/"@ + below + "/medley"@,
{
    reveal_strlit("medley");
    reveal_strlit("/medley");
    reveal_strlit("/");
    assert(dir_of(Some(named), home, below) =~= named + "/medley"@);
    let x = joined_path(home, below);
    assert(x.last() == below.last());
    assert(dir_of(None, home, below) =~= home + "/"@ + below + "/medley"@);
}

/// `~` is the home directory, and only in front of a path.
pub proof fn tildes_are_the_home_directory(rest: Seq<char>, home: Seq<char>, other: Seq<char>)
    requires
        home.len() > 0 && home.last() != '/',
        rest.len() > 0 && rest[0] != '/',
        other.len() > 0 && other[0] != '~',
    ensures
        home_expanded("~"@, home) == home,
        home_expanded("~/"@ + rest, home) == home + "/"@ + rest,
        home_expanded(other, home) == other,
{
    reveal_strlit("~");
    reveal_strlit("~/");
    reveal_strlit("/");
    let t = "~/"@ + rest;
    assert("~"@.subrange(0, 1) =~= "~"@);
    assert("~"@.skip(1) =~= seq![]);
    assert(t.subrange(0, 1) =~= "~"@);
    let r = t.skip(1);
    assert(r =~= "/"@ + rest);
    assert(r[0] == '/');
    assert(r.skip(1) =~= rest);
    assert(crate::config::without_front_slashes(r) == crate::config::without_front_slashes(rest));
    assert(crate::config::without_front_slashes(rest) == rest);
    assert(joined_path(home, rest) =~= home + "/"@ + rest);
    if crate::text::occurs_at(other, "~"@, 0) {
        assert(other.subrange(0, 1)[0] == '~');
    }
}

/// A version is newer by its first number, then by its second, then by its third.
pub proof fn newer_versions(a: (u64, u64, u64), b: (u64, u64, u64))
    ensures
        a.0 > b.0 ==> newer(a, b),
        a.0 == b.0 && a.1 > b.1 ==> newer(a, b),
        a.0 == b.0 && a.1 == b.1 && a.2 > b.2 ==> newer(a, b),
        newer(a, b) ==> a.0 >= b.0 && a != b,
        a.0 < b.0 ==> !newer(a, b),
        a.0 == b.0 && a.1 < b.1 ==> !newer(a, b),
{
}

/// A tag with three numbers, with a `v` in front or without, is the version of those numbers.
pub proof fn tags_are_versions(a: u64, b: u64, c: u64)
    ensures
        ({
            let tag = decimal(a as nat) + "."@ + decimal(b as nat) + "."@ + decimal(c as nat);
            &&& version_of(tag) == Some((a, b, c))
            &&& version_of("v"@ + tag) == Some((a, b, c))
        }),
{
    reveal_strlit(".");
    reveal_strlit("v");
    let x = decimal(a as nat);
    let y = decimal(b as nat);
    let z = decimal(c as nat);
    let tag = x + "."@ + y + "."@ + z;
    lemma_plain_digits(a as nat);
    lemma_plain_digits(b as nat);
    lemma_plain_digits(c as nat);
    assert("."@ =~= seq!['.']);
    let rest = y + seq!['.'] + z;
    assert(tag =~= x + seq!['.'] + rest);
    lemma_split_cons(x, '.', rest);
    lemma_split_cons(y, '.', z);
    lemma_split_single(z, '.');
    let p = split_of(tag, '.');
    assert(p =~= seq![x, y, z]);
    lemma_unsigned_decimal(a as nat, u64::MAX as nat);
    lemma_unsigned_decimal(b as nat, u64::MAX as nat);
    lemma_unsigned_decimal(c as nat, u64::MAX as nat);
    assert(tag[0] == x[0]);
    assert(without_v(tag) == tag);
    let v = "v"@ + tag;
    assert(v[0] == 'v');
    assert(v.drop_first() =~= tag);
    assert(without_v(v) == tag);
}

proof fn lemma_plain_digits(n: nat)
    ensures
        decimal(n).len() > 0,
        forall|i: int| 0 <= i < decimal(n).len() ==> '0' <= #[trigger] decimal(n)[i] <= '9',
    decreases n,
{
    if n >= 10 {
        lemma_plain_digits(n / 10);
    }
}

/// A release is taken only if it is newer than what runs and has a file for this platform, and
/// that file is the one that is taken.
pub proof fn only_newer_releases_are_taken(v: ReleaseView, suffix: Seq<char>, running: Seq<char>)
    ensures
        release_plan_of(v, suffix, running) matches Ok(PlanView::Download { tag, url }) ==> {
            &&& v.tag == Some(tag)
            &&& version_of(tag) is Some && version_of(running) is Some
            &&& newer(version_of(tag)->0, version_of(running)->0)
            &&& exists|i: int| 0 <= i < v.assets.len() && #[trigger] v.assets[i] == (Some("medley-"@ + suffix), Some(url))
        },
        v.tag is Some && version_of(v.tag->0) is Some && version_of(v.tag->0) == version_of(running) ==> release_plan_of(
            v,
            suffix,
            running,
        ) == Ok::<PlanView, Seq<char>>(PlanView::Current),
        v.tag is None || version_of(v.tag->0) is None || version_of(running) is None ==> release_plan_of(v, suffix, running) is Err,
{
    lemma_asset(v.assets, "medley-"@ + suffix);
}

proof fn lemma_asset(v: Seq<(Option<Seq<char>>, Option<Seq<char>>)>, name: Seq<char>)
    ensures
        asset_url(v, name) matches Some(url) ==> exists|i: int| 0 <= i < v.len() && #[trigger] v[i] == (Some(name), Some(url)),
    decreases v.len(),
{
    if v.len() > 0 {
        if v[0].0 == Some(name) {
            if v[0].1 is Some {
                assert(v[0] == (Some(name), Some(v[0].1->0)));
            }
        } else {
            let r = v.drop_first();
            lemma_asset(r, name);
            if let Some(url) = asset_url(r, name) {
                let i = choose|i: int| 0 <= i < r.len() && #[trigger] r[i] == (Some(name), Some(url));
                assert(v[i + 1] == r[i]);
            }
        }
    }
}

/// A path below the home directory is shown with `~` for it, and what is shown leads back to the
/// path; a path that starts otherwise is shown as it is.
pub proof fn paths_below_home_are_shortened(home: Seq<char>, rest: Seq<char>, other: Seq<char>)
    requires
        home.len() > 0 && home.last() != '/' && home.last() != '.',
        rest.len() > 0 && rest[0] != '/' && rest[0] != '.' && rest.last() != '/' && rest.last() != '.',
        home.len() > 1 && home[0] == '/' && home[1] != '/' && home[1] != '.',
        other.len() > 1 && other[0] == '/' && other[1] != '/' && other[1] != '.' && other[1] != home[1],
    ensures
        home_shortened(home + "/"@ + rest, home) == "~/"@ + rest,
        home_expanded(home_shortened(home + "/"@ + rest, home), home) == home + "/"@ + rest,
        home_shortened(other, home) == other,
        home_shortened(other, Seq::empty()) == other,
{
    reveal_strlit("/");
    assert("/"@ =~= seq!['/']);
    let path = home + "/"@ + rest;
    let n = home.len() as int;
    assert(path[n] == '/' && path[n + 1] == rest[0]);
    lemma_below_own(home, rest, 0);
    assert(crate::config::segment_from(path, n + 1) == n + 1);
    assert(path.last() == rest.last());
    assert(crate::config::tail_end(path, n + 1, path.len() as int) == path.len());
    assert(path.subrange(n + 1, path.len() as int) =~= rest);
    assert(home_shortened(path, home) == "~/"@ + rest);
    tildes_are_the_home_directory(rest, home, seq!['x']);
    reveal_with_fuel(crate::config::segment_from, 3);
    assert(crate::config::segment_from(home, 0) == 1);
    assert(crate::config::segment_from(other, 0) == 1);
    lemma_segment_to(home, 1);
    let b = crate::config::segment_to(home, 1);
    if 1 + (b - 1) <= other.len() && other.subrange(1, b) == home.subrange(1, b) {
        assert(other.subrange(1, b)[0] == home.subrange(1, b)[0]);
    }
    assert(crate::config::below(other, 0, home, 0) is None);
}

proof fn lemma_segment_to(s: Seq<char>, i: int)
    requires
        0 <= i < s.len(),
    ensures
        i <= crate::config::segment_to(s, i) <= s.len(),
        s[i] != '/' ==> i < crate::config::segment_to(s, i),
    decreases s.len() - i,
{
    if s[i] != '/' && i + 1 < s.len() {
        lemma_segment_to(s, i + 1);
    } else {
        assert(i + 1 < s.len() || crate::config::segment_to(s, i + 1) == s.len());
    }
}

proof fn lemma_same_segment(home: Seq<char>, path: Seq<char>, i: int)
    requires
        0 <= i < home.len() < path.len(),
        path.take(home.len() as int) == home,
        path[home.len() as int] == '/',
        home.last() != '/' && home.last() != '.',
    ensures
        crate::config::segment_from(home, i) == crate::config::segment_from(path, i),
        i <= crate::config::segment_from(home, i) < home.len(),
        home[crate::config::segment_from(home, i)] != '/',
        crate::config::segment_to(home, i) == crate::config::segment_to(path, i),
    decreases home.len() - i,
{
    assert(path[i] == path.take(home.len() as int)[i]);
    if i + 1 < home.len() {
        assert(path[i + 1] == path.take(home.len() as int)[i + 1]);
        lemma_same_segment(home, path, i + 1);
    } else {
        assert(crate::config::segment_to(home, i + 1) == home.len());
        assert(crate::config::segment_to(path, i + 1) == home.len());
    }
}

proof fn lemma_below_own(home: Seq<char>, rest: Seq<char>, j: int)
    requires
        0 <= j <= home.len(),
        home.len() > 0 && home.last() != '/' && home.last() != '.',
        rest.len() > 0 && rest[0] != '/' && rest[0] != '.',
    ensures
        crate::config::below(home + seq!['/'] + rest, j, home, j) == Some(home.len() as int + 1),
    decreases home.len() - j,
{
    let path = home + seq!['/'] + rest;
    let n = home.len() as int;
    assert(path[n] == '/' && path[n + 1] == rest[0]);
    assert(path.take(n) =~= home);
    if j < n {
        lemma_same_segment(home, path, j);
        let a = crate::config::segment_from(home, j);
        lemma_same_segment(home, path, a);
        lemma_segment_to(home, a);
        let b = crate::config::segment_to(home, a);
        assert(path.subrange(a, b) =~= home.subrange(a, b)) by {
            assert forall|k: int| a <= k < b implies path[k] == home[k] by {
                assert(path.take(n)[k] == path[k]);
            }
        }
        lemma_below_own(home, rest, b);
    } else {
        assert(crate::config::segment_from(home, n) == n);
        assert(crate::config::segment_from(path, n + 1) == n + 1);
    }
}

} // verus!
