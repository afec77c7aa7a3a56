//! What the player keeps from one run to the next: the settings that differ from the
//! configuration, the bound keys and what played last.

use vstd::prelude::*;
use crate::config::{
    enabled_in, limited_fps, Config, HttpConfig, ScanConfig, SoulseekConfig, SoundcloudConfig, SpotifyConfig, VisConfig,
};
use crate::hotkeys::{
    opt_target, storable_target, target_named, target_text, target_text_names_one, target_text_round_trip, HotkeyTarget,
    HotkeyView,
};
use crate::ids::{hex_or_hyphen, uuid_from_text, uuid_round_trip, uuid_text, uuid_to_text, uuid_value};
use crate::scan::{mode_name, modes_are_distinct, ScanMode};
use crate::session_views::LastPlayed;
use crate::state_doc::{
    is_rewritable, nested_at, opt_scalar, opt_str, pair_view, pair_views, paired, quotable, replaced_text, rewritable,
    readable, run_at, run_below, table_key, table_of_lines, table_of_texts, top_of, toml_nested, toml_replaced, toml_value, value_at, verbatim, Scalar, ScalarView,
};
use crate::state_text::{any_source, given_back, keeps, lemma_sources_found, lemma_top_found, source_lines, top_lines};
use crate::text::same_text;
use crate::types::{opt_text, TrackId};

verus! {

/// The settings that differ from the configuration. A setting that was never changed is not
/// kept, so that a new default is not hidden by an old value.
#[derive(Debug)]
pub struct Saved {
    pub vis_fps: Option<u32>,
    pub status_line: Option<bool>,
    pub show_hints: Option<bool>,
    pub auto_update: Option<bool>,
    /// Whether waveforms are drawn. The configuration has no entry for it.
    pub waveform_enabled: Option<bool>,
    /// The list that likes go to. The configuration has no entry for it.
    pub liked_playlist: Option<String>,
    pub media_cache_dir: Option<String>,
    /// Where the cache is, until it has been moved.
    pub media_cache_move_from: Option<String>,
    pub scan_mode: Option<ScanMode>,
    pub http: Option<bool>,
    pub spotify: Option<bool>,
    pub soundcloud: Option<bool>,
    pub soulseek: Option<bool>,
}

pub struct SavedView {
    pub vis_fps: Option<u32>,
    pub status_line: Option<bool>,
    pub show_hints: Option<bool>,
    pub auto_update: Option<bool>,
    pub waveform_enabled: Option<bool>,
    pub liked_playlist: Option<Seq<char>>,
    pub media_cache_dir: Option<Seq<char>>,
    pub media_cache_move_from: Option<Seq<char>>,
    pub scan_mode: Option<ScanMode>,
    pub http: Option<bool>,
    pub spotify: Option<bool>,
    pub soundcloud: Option<bool>,
    pub soulseek: Option<bool>,
}

impl View for Saved {
    type V = SavedView;

    open spec fn view(&self) -> SavedView {
        SavedView {
            vis_fps: self.vis_fps,
            status_line: self.status_line,
            show_hints: self.show_hints,
            auto_update: self.auto_update,
            waveform_enabled: self.waveform_enabled,
            liked_playlist: opt_text(self.liked_playlist),
            media_cache_dir: opt_text(self.media_cache_dir),
            media_cache_move_from: opt_text(self.media_cache_move_from),
            scan_mode: self.scan_mode,
            http: self.http,
            spotify: self.spotify,
            soundcloud: self.soundcloud,
            soulseek: self.soulseek,
        }
    }
}

pub open spec fn flag_in(v: Option<ScalarView>) -> Option<bool> {
    match v {
        Some(ScalarView::Flag(b)) => Some(b),
        _ => None,
    }
}

pub open spec fn text_in(v: Option<ScalarView>) -> Option<Seq<char>> {
    match v {
        Some(ScalarView::Text(s)) => Some(s),
        _ => None,
    }
}

/// A number of at most 32 bits that is not negative.
pub open spec fn small_in(v: Option<ScalarView>) -> Option<u32> {
    match v {
        Some(ScalarView::Number(n)) => if 0 <= n <= u32::MAX {
            Some(n as u32)
        } else {
            None
        },
        _ => None,
    }
}

/// The scanning mode of a stored name.
pub open spec fn mode_in(s: Option<Seq<char>>) -> Option<ScanMode> {
    match s {
        Some(s) => if s == mode_name(ScanMode::Active) {
            Some(ScanMode::Active)
        } else if s == mode_name(ScanMode::CacheOnly) {
            Some(ScanMode::CacheOnly)
        } else if s == mode_name(ScanMode::Disabled) {
            Some(ScanMode::Disabled)
        } else {
            None
        },
        None => None,
    }
}

/// The settings that a state holds.
pub open spec fn saved_in(text: Seq<char>) -> SavedView {
    SavedView {
        vis_fps: small_in(toml_value(text, "vis_fps"@)),
        status_line: flag_in(toml_value(text, "status_line"@)),
        show_hints: flag_in(toml_value(text, "show_hints"@)),
        auto_update: flag_in(toml_value(text, "auto_update"@)),
        waveform_enabled: flag_in(toml_value(text, "waveform_enabled"@)),
        liked_playlist: text_in(toml_value(text, "liked_playlist"@)),
        media_cache_dir: text_in(toml_value(text, "media_cache_dir"@)),
        media_cache_move_from: text_in(toml_value(text, "media_cache_move_from"@)),
        scan_mode: mode_in(text_in(toml_value(text, "scan_mode"@))),
        http: flag_in(toml_nested(text, "sources"@, "http"@)),
        spotify: flag_in(toml_nested(text, "sources"@, "spotify"@)),
        soundcloud: flag_in(toml_nested(text, "sources"@, "soundcloud"@)),
        soulseek: flag_in(toml_nested(text, "sources"@, "soulseek"@)),
    }
}

pub fn flag(v: Option<Scalar>) -> (r: Option<bool>)
    ensures
        r == flag_in(opt_scalar(v)),
{
    match v {
        Some(Scalar::Flag(b)) => Some(b),
        _ => None,
    }
}

pub fn text_value(v: Option<Scalar>) -> (r: Option<String>)
    ensures
        opt_text(r) == text_in(opt_scalar(v)),
{
    match v {
        Some(Scalar::Text(s)) => Some(s),
        _ => None,
    }
}

pub fn small(v: Option<Scalar>) -> (r: Option<u32>)
    ensures
        r == small_in(opt_scalar(v)),
{
    match v {
        Some(Scalar::Number(n)) => if 0 <= n && n <= 4_294_967_295 {
            Some(n as u32)
        } else {
            None
        },
        _ => None,
    }
}

/// The scanning mode of a stored name.
pub fn scan_mode_of(name: &Option<String>) -> (r: Option<ScanMode>)
    ensures
        r == mode_in(opt_text(*name)),
{
    match name {
        Some(s) => if same_text(s, ScanMode::Active.name()) {
            Some(ScanMode::Active)
        } else if same_text(s, ScanMode::CacheOnly.name()) {
            Some(ScanMode::CacheOnly)
        } else if same_text(s, ScanMode::Disabled.name()) {
            Some(ScanMode::Disabled)
        } else {
            None
        },
        None => None,
    }
}

/// The settings that a state holds; what is missing or of another kind is left to the
/// configuration. What `save_state` wrote is given back, as long as the document can be read.
pub fn read_saved(text: &str) -> (r: Saved)
    ensures
        r@ == saved_in(text@),
        forall|volume: Seq<char>, s: SavedView| #[trigger]
            keeps(text@, volume, s) && readable(text@) ==> given_back(r@, s),
{
    let mode = text_value(value_at(text, "scan_mode"));
    let r = Saved {
        vis_fps: small(value_at(text, "vis_fps")),
        status_line: flag(value_at(text, "status_line")),
        show_hints: flag(value_at(text, "show_hints")),
        auto_update: flag(value_at(text, "auto_update")),
        waveform_enabled: flag(value_at(text, "waveform_enabled")),
        liked_playlist: text_value(value_at(text, "liked_playlist")),
        media_cache_dir: text_value(value_at(text, "media_cache_dir")),
        media_cache_move_from: text_value(value_at(text, "media_cache_move_from")),
        scan_mode: scan_mode_of(&mode),
        http: flag(nested_at(text, "sources", "http")),
        spotify: flag(nested_at(text, "sources", "spotify")),
        soundcloud: flag(nested_at(text, "sources", "soundcloud")),
        soulseek: flag(nested_at(text, "sources", "soulseek")),
    };
    assert forall|volume: Seq<char>, s: SavedView| #[trigger]
        keeps(text@, volume, s) && readable(text@) implies given_back(r@, s) by {
        lemma_top_found(volume, s);
        lemma_sources_found(s);
        if let Some(m) = s.scan_mode {
            modes_are_distinct(m, ScanMode::Active);
            modes_are_distinct(m, ScanMode::CacheOnly);
        }
        assert(top_of(text@, top_lines(volume, s)));
        if any_source(s) {
            assert(table_of_lines(text@, "sources"@, source_lines(s)));
        }
    }
    r
}

pub open spec fn or<T>(v: Option<T>, default: T) -> T {
    match v {
        Some(v) => v,
        None => default,
    }
}

/// The configuration with the kept settings put over it.
pub open spec fn restored(c: Config, s: Saved) -> Config {
    Config {
        http: HttpConfig { enabled: or(s.http, c.http.enabled), ..c.http },
        spotify: SpotifyConfig { enabled: or(s.spotify, c.spotify.enabled), ..c.spotify },
        soundcloud: SoundcloudConfig { enabled: or(s.soundcloud, c.soundcloud.enabled), ..c.soundcloud },
        soulseek: SoulseekConfig { enabled: or(s.soulseek, c.soulseek.enabled), ..c.soulseek },
        vis: VisConfig { fps: or(s.vis_fps, c.vis.fps) },
        status_line: or(s.status_line, c.status_line),
        show_hints: or(s.show_hints, c.show_hints),
        auto_update: or(s.auto_update, c.auto_update),
        media_cache_dir: or(s.media_cache_dir, c.media_cache_dir),
        ..c
    }
}

fn flag_or(v: Option<bool>, default: bool) -> (r: bool)
    ensures
        r == or(v, default),
{
    match v {
        Some(b) => b,
        None => default,
    }
}

impl Config {
    /// Puts the kept settings over the configuration.
    pub fn restore(&mut self, s: &Saved)
        ensures
            *final(self) == restored(*old(self), *s),
    {
        if let Some(fps) = s.vis_fps {
            self.vis.fps = fps;
        }
        if let Some(dir) = &s.media_cache_dir {
            self.media_cache_dir = dir.clone();
        }
        self.status_line = flag_or(s.status_line, self.status_line);
        self.show_hints = flag_or(s.show_hints, self.show_hints);
        self.auto_update = flag_or(s.auto_update, self.auto_update);
        self.http.enabled = flag_or(s.http, self.http.enabled);
        self.spotify.enabled = flag_or(s.spotify, self.spotify.enabled);
        self.soundcloud.enabled = flag_or(s.soundcloud, self.soundcloud.enabled);
        self.soulseek.enabled = flag_or(s.soulseek, self.soulseek.enabled);
    }
}

pub open spec fn changed<T>(now: T, base: T) -> Option<T> {
    if now != base {
        Some(now)
    } else {
        None
    }
}

/// The mode that a fresh start scans in.
pub open spec fn default_mode_of(c: ScanConfig) -> ScanMode {
    if c.bpm.enabled {
        ScanMode::CacheOnly
    } else {
        ScanMode::Disabled
    }
}

/// The mode that a fresh start scans in.
pub fn default_mode(c: ScanConfig) -> (r: ScanMode)
    ensures
        r == default_mode_of(c),
{
    if c.bpm.enabled {
        ScanMode::CacheOnly
    } else {
        ScanMode::Disabled
    }
}

/// The settings of `now` that differ from the configuration `base`, where the cache of this run
/// is in `running` and the scan, if there is one, is in `mode`. What the configuration has no
/// entry for stays as it was kept before, in `was`.
pub open spec fn differing(base: Config, now: Config, was: Saved, running: String, mode: Option<ScanMode>) -> Saved {
    Saved {
        vis_fps: changed(limited_fps(now.vis.fps), limited_fps(base.vis.fps)),
        status_line: changed(now.status_line, base.status_line),
        show_hints: changed(now.show_hints, base.show_hints),
        auto_update: changed(now.auto_update, base.auto_update),
        waveform_enabled: was.waveform_enabled,
        liked_playlist: was.liked_playlist,
        media_cache_dir: if now.media_cache_dir@ != base.media_cache_dir@ {
            Some(now.media_cache_dir)
        } else {
            None
        },
        media_cache_move_from: if running@ != now.media_cache_dir@ {
            Some(running)
        } else {
            None
        },
        scan_mode: match mode {
            Some(m) => changed(m, default_mode_of(now.scan)),
            None => None,
        },
        http: changed(now.http.enabled, base.http.enabled),
        spotify: changed(now.spotify.enabled, base.spotify.enabled),
        soundcloud: changed(now.soundcloud.enabled, base.soundcloud.enabled),
        soulseek: changed(now.soulseek.enabled, base.soulseek.enabled),
    }
}

fn flag_change(now: bool, base: bool) -> (r: Option<bool>)
    ensures
        r == changed(now, base),
{
    if now != base {
        Some(now)
    } else {
        None
    }
}

/// The settings that are kept.
pub fn changes(base: &Config, now: &Config, was: &Saved, running: &String, mode: Option<ScanMode>) -> (r: Saved)
    ensures
        r == differing(*base, *now, *was, *running, mode),
{
    let fps: u32 = now.vis.limit();
    let vis_fps: Option<u32> = if fps != base.vis.limit() {
        Some(fps)
    } else {
        None
    };
    let media_cache_dir: Option<String> = if !same_text(&now.media_cache_dir, &base.media_cache_dir) {
        Some(now.media_cache_dir.clone())
    } else {
        None
    };
    let media_cache_move_from: Option<String> = if !same_text(running, &now.media_cache_dir) {
        Some(running.clone())
    } else {
        None
    };
    let scan_mode: Option<ScanMode> = match mode {
        Some(m) => if m != default_mode(now.scan) {
            Some(m)
        } else {
            None
        },
        None => None,
    };
    Saved {
        vis_fps,
        status_line: flag_change(now.status_line, base.status_line),
        show_hints: flag_change(now.show_hints, base.show_hints),
        auto_update: flag_change(now.auto_update, base.auto_update),
        waveform_enabled: was.waveform_enabled,
        liked_playlist: match &was.liked_playlist {
            Some(name) => Some(name.clone()),
            None => None,
        },
        media_cache_dir,
        media_cache_move_from,
        scan_mode,
        http: flag_change(now.http.enabled, base.http.enabled),
        spotify: flag_change(now.spotify.enabled, base.spotify.enabled),
        soundcloud: flag_change(now.soundcloud.enabled, base.soundcloud.enabled),
        soulseek: flag_change(now.soulseek.enabled, base.soulseek.enabled),
    }
}

/// Putting the differences over the configuration that they were taken from brings the settings
/// back: the switches, the frame rate as far as it is supported, and the directory of the cache.
pub proof fn differences_bring_settings_back(
    base: Config,
    now: Config,
    was: Saved,
    running: String,
    mode: Option<ScanMode>,
)
    ensures
        ({
            let r = restored(base, differing(base, now, was, running, mode));
            &&& limited_fps(r.vis.fps) == limited_fps(now.vis.fps)
            &&& r.status_line == now.status_line
            &&& r.show_hints == now.show_hints
            &&& r.auto_update == now.auto_update
            &&& r.media_cache_dir@ == now.media_cache_dir@
            &&& forall|source: Seq<char>| #[trigger] enabled_in(r, source) == enabled_in(now, source)
        }),
{
}

/// Settings that were not changed are not kept: a later default of the configuration takes hold.
pub proof fn defaults_are_not_kept(
    base: Config,
    later: Config,
    was: Saved,
    running: String,
    mode: Option<ScanMode>,
)
    requires
        running@ == base.media_cache_dir@,
        mode matches Some(m) ==> m == default_mode_of(base.scan),
    ensures
        restored(later, differing(base, base, was, running, mode)) == later,
        differing(base, base, was, running, mode).scan_mode is None,
        differing(base, base, was, running, mode).media_cache_move_from is None,
{
}

/// The mode that a run starts to scan in.
pub fn initial_scan_mode(s: &Saved, c: ScanConfig) -> (r: ScanMode)
    ensures
        r == or(s.scan_mode, default_mode_of(c)),
{
    match s.scan_mode {
        Some(m) => m,
        None => default_mode(c),
    }
}

/// What played last, with its list.
pub struct LastView {
    pub track: TrackId,
    pub playlist: Option<HotkeyView>,
}

pub open spec fn last_view(l: LastPlayed) -> LastView {
    LastView { track: l.track, playlist: opt_target(l.playlist) }
}

/// Whether a state says that this played last.
pub open spec fn last_in(text: Seq<char>, l: LastView) -> bool {
    &&& text_in(toml_nested(text, "last_played"@, "track"@)) matches Some(t) && uuid_value(t) == Some(l.track.0)
    &&& match text_in(toml_nested(text, "last_played"@, "playlist"@)) {
        Some(p) => match l.playlist {
            Some(t) => target_named(p, t),
            None => forall|t: HotkeyView| !target_named(p, t),
        },
        None => l.playlist is None,
    }
}

/// A state whose last track is read back.
pub open spec fn keeps_last(text: Seq<char>, l: LastView) -> bool {
    table_of_texts(text, "last_played"@, last_pairs(l)) && (l.playlist matches Some(t) ==> storable_target(t))
}

/// What played last in the run before. What `save_state` wrote is given back, as long as the
/// document can be read.
pub fn read_last_played(text: &str) -> (r: Option<LastPlayed>)
    ensures
        match r {
            Some(l) => last_in(text@, last_view(l)),
            None => match text_in(toml_nested(text@, "last_played"@, "track"@)) {
                Some(t) => uuid_value(t) is None,
                None => true,
            },
        },
        forall|l: LastView| #[trigger] keeps_last(text@, l) && readable(text@) ==> (r matches Some(p) && last_view(p) == l),
{
    let track_entry = nested_at(text, "last_played", "track");
    let playlist_entry = nested_at(text, "last_played", "playlist");
    proof {
        assert forall|l: LastView| #[trigger] keeps_last(text@, l) && readable(text@) implies {
            &&& opt_scalar(track_entry) == Some(ScalarView::Text(uuid_text(l.track.0)))
            &&& uuid_value(uuid_text(l.track.0)) == Some(l.track.0)
            &&& l.playlist matches Some(t) ==> opt_scalar(playlist_entry) == Some(ScalarView::Text(target_text(t)))
                && target_named(target_text(t), t)
            &&& l.playlist is None ==> text_in(opt_scalar(playlist_entry)) is None
        } by {
            lemma_last_read_back(l);
            uuid_round_trip(l.track.0);
            assert(table_of_texts(text@, "last_played"@, last_pairs(l)));
            if let Some(t) = l.playlist {
                target_text_round_trip(t);
            }
        }
    }
    let track = match text_value(track_entry) {
        Some(t) => match uuid_from_text(&t) {
            Some(id) => TrackId(id),
            None => {
                return None;
            },
        },
        None => {
            return None;
        },
    };
    let playlist = match text_value(playlist_entry) {
        Some(p) => HotkeyTarget::from_text(&p),
        None => None,
    };
    let r = LastPlayed { track, playlist };
    assert forall|l: LastView| #[trigger] keeps_last(text@, l) && readable(text@) implies last_view(r) == l by {
        if let Some(t) = l.playlist {
            if r.playlist is Some {
                target_text_names_one(target_text(t), t, r.playlist->0@);
            }
        }
    }
    Some(r)
}

/// The entries that keep what played last.
pub open spec fn last_pairs(l: LastView) -> Seq<(Seq<char>, Seq<char>)> {
    match l.playlist {
        Some(t) => seq![("track"@, uuid_text(l.track.0)), ("playlist"@, target_text(t))],
        None => seq![("track"@, uuid_text(l.track.0))],
    }
}

proof fn lemma_hex_verbatim(id: u128)
    ensures
        verbatim(uuid_text(id)),
        quotable(uuid_text(id)),
{
    uuid_round_trip(id);
    let s = uuid_text(id);
    assert forall|i: int| 0 <= i < s.len() implies #[trigger] s[i] >= ' ' && s[i] != '\x7f' && s[i] != '"' && s[i]
        != '\'' && s[i] != '\\' by {
        assert(hex_or_hyphen(s[i]));
    }
    lemma_verbatim_is_quotable(s);
}

/// A text without quotation marks is quotable.
proof fn lemma_verbatim_is_quotable(s: Seq<char>)
    requires
        verbatim(s),
    ensures
        quotable(s),
{
    lemma_no_run(s, s.len() as int, '"');
    lemma_no_run(s, s.len() as int, '\'');
}

proof fn lemma_no_run(s: Seq<char>, n: int, c: char)
    requires
        verbatim(s),
        c == '"' || c == '\'',
        n <= s.len(),
    ensures
        run_below(s, n, c) == 0,
    decreases n,
{
    if n > 0 {
        lemma_no_run(s, n - 1, c);
        assert(s[n - 1] != c);
        assert(run_at(s, n, c) == 0);
    }
}

/// The entries that keep what played last.
pub(crate) fn pairs_of_last(l: &LastPlayed) -> (r: Vec<(String, String)>)
    ensures
        pair_views(r@) == last_pairs(last_view(*l)),
        forall|i: int| 0 <= i < r@.len() ==> #[trigger] r@[i].1@ == last_pairs(last_view(*l))[i].1,
{
    let mut v: Vec<(String, String)> = Vec::new();
    v.push(("track".to_owned(), uuid_to_text(l.track.0)));
    if let Some(t) = &l.playlist {
        v.push(("playlist".to_owned(), t.to_text()));
    }
    assert(pair_views(v@) =~= last_pairs(last_view(*l)));
    assert forall|i: int| 0 <= i < v@.len() implies #[trigger] v@[i].1@ == last_pairs(last_view(*l))[i].1 by {
        assert(pair_views(v@)[i] == pair_view(v@[i]));
    }
    v
}

pub(crate) proof fn lemma_last_quotable(l: LastView)
    requires
        l.playlist matches Some(t) ==> quotable(target_text(t)),
    ensures
        forall|i: int| 0 <= i < last_pairs(l).len() ==> quotable(#[trigger] last_pairs(l)[i].1),
{
    lemma_hex_verbatim(l.track.0);
}

/// The keys that keep what played last.
pub(crate) proof fn lemma_last_keys(l: LastView)
    ensures
        forall|i: int| 0 <= i < last_pairs(l).len() ==> table_key((#[trigger] last_pairs(l)[i]).0),
{
    reveal_strlit("track");
    reveal_strlit("playlist");
}

/// Puts what played last into a state, in place of what was there. Nothing when the state cannot
/// be written anew. As long as the new state can be read, what is put in is read back when the
/// playlist's text needs no escapes, and the settings stay, those that are texts as far as they
/// need no escapes.
pub fn save_last_played(text: &str, l: &LastPlayed) -> (r: Option<String>)
    requires
        l.playlist matches Some(t) ==> quotable(target_text(t@)),
    ensures
        opt_str(r) == (if rewritable(text@) {
            toml_replaced(text@, "last_played"@, last_pairs(last_view(*l)))
        } else {
            None
        }),
        r matches Some(s) ==> readable(s@) ==> (match last_view(*l).playlist {
            Some(t) => verbatim(target_text(t)) && storable_target(t),
            None => true,
        }) ==> last_in(s@, last_view(*l)),
        r matches Some(s) ==> readable(s@) ==> saved_in(s@).vis_fps == saved_in(text@).vis_fps || saved_in(text@).vis_fps is None,
        r matches Some(s) ==> readable(s@) ==> saved_in(s@).status_line == saved_in(text@).status_line || saved_in(text@).status_line is None,
        r matches Some(s) ==> readable(s@) ==> saved_in(s@).show_hints == saved_in(text@).show_hints || saved_in(text@).show_hints is None,
        r matches Some(s) ==> readable(s@) ==> saved_in(s@).auto_update == saved_in(text@).auto_update || saved_in(text@).auto_update is None,
        r matches Some(s) ==> readable(s@) ==> saved_in(s@).waveform_enabled == saved_in(text@).waveform_enabled || saved_in(
            text@,
        ).waveform_enabled is None,
        r matches Some(s) ==> readable(s@) ==> (saved_in(text@).liked_playlist matches Some(d) ==> verbatim(d)
            ==> saved_in(s@).liked_playlist == Some(d)),
        r matches Some(s) ==> readable(s@) ==> saved_in(s@).scan_mode == saved_in(text@).scan_mode || saved_in(text@).scan_mode is None,
        r matches Some(s) ==> readable(s@) ==> (saved_in(text@).media_cache_dir matches Some(d) ==> verbatim(d)
            ==> saved_in(s@).media_cache_dir == Some(d)),
{
    if !is_rewritable(text) {
        return None;
    }
    let pairs = pairs_of_last(l);
    let ghost v = last_view(*l);
    proof {
        lemma_last_quotable(v);
        lemma_hex_verbatim(v.track.0);
        lemma_last_keys(v);
        reveal_strlit("last_played");
        assert(verbatim("last_played"@));
        assert forall|i: int| 0 <= i < pairs@.len() implies quotable(#[trigger] pairs@[i].1@) && table_key(
            pairs@[i].0@,
        ) by {
            assert(quotable(last_pairs(v)[i].1));
            assert(pair_views(pairs@)[i] == pair_view(pairs@[i]));
        }
    }
    let r = replaced_text(text, "last_played", &pairs);
    proof {
        lemma_last_read_back(v);
        lemma_state_keys();
        lemma_mode_verbatim();
        if r is Some {
            let s = r->0;
            if readable(s@) && (match v.playlist {
                Some(t) => verbatim(target_text(t)) && storable_target(t),
                None => true,
            }) {
                assert(toml_nested(s@, "last_played"@, "track"@) == Some(ScalarView::Text(uuid_text(v.track.0))));
                uuid_round_trip(v.track.0);
                if let Some(t) = v.playlist {
                    target_text_round_trip(t);
                    assert(toml_nested(s@, "last_played"@, "playlist"@) == Some(ScalarView::Text(target_text(t))));
                } else {
                    assert(toml_nested(s@, "last_played"@, "playlist"@) is None);
                }
            }
        }
    }
    r
}

proof fn lemma_last_read_back(l: LastView)
    ensures
        paired(last_pairs(l), "track"@) == Some(uuid_text(l.track.0)),
        paired(last_pairs(l), "playlist"@) == (match l.playlist {
            Some(t) => Some(target_text(t)),
            None => None,
        }),
        verbatim("track"@),
        verbatim("playlist"@),
{
    reveal_strlit("track");
    reveal_strlit("playlist");
    assert("track"@.len() == 5 && "playlist"@.len() == 8);
    let p = last_pairs(l);
    reveal_with_fuel(paired, 3);
    if l.playlist is Some {
        assert(p.drop_last() =~= seq![("track"@, uuid_text(l.track.0))]);
    }
    assert(seq![("track"@, uuid_text(l.track.0))].drop_last() =~= seq![]);
}

/// The settings at the top of a state are not the table of what played last.
proof fn lemma_state_keys()
    ensures
        "vis_fps"@ != "last_played"@,
        "status_line"@ != "last_played"@,
        "show_hints"@ != "last_played"@,
        "auto_update"@ != "last_played"@,
        "waveform_enabled"@ != "last_played"@,
        "liked_playlist"@ != "last_played"@,
        "scan_mode"@ != "last_played"@,
        "media_cache_dir"@ != "last_played"@,
{
    reveal_strlit("vis_fps");
    reveal_strlit("status_line");
    reveal_strlit("show_hints");
    reveal_strlit("auto_update");
    reveal_strlit("waveform_enabled");
    reveal_strlit("liked_playlist");
    reveal_strlit("scan_mode");
    reveal_strlit("media_cache_dir");
    reveal_strlit("last_played");
    assert("last_played"@[0] == 'l');
    assert("vis_fps"@[0] == 'v');
    assert("status_line"@[0] == 's');
    assert("show_hints"@[0] == 's');
    assert("auto_update"@[0] == 'a');
    assert("waveform_enabled"@[0] == 'w');
    assert("liked_playlist"@[1] == 'i');
    assert("last_played"@[1] == 'a');
    assert("scan_mode"@[0] == 's');
    assert("media_cache_dir"@[0] == 'm');
}

pub(crate) proof fn lemma_mode_verbatim()
    ensures
        forall|m: ScanMode| verbatim(#[trigger] mode_name(m)),
{
    reveal_strlit("active");
    reveal_strlit("cache-only");
    reveal_strlit("disabled");
    assert forall|m: ScanMode| verbatim(#[trigger] mode_name(m)) by {
        match m {
            ScanMode::Active => {
                assert(verbatim("active"@));
            },
            ScanMode::CacheOnly => {
                assert(verbatim("cache-only"@));
            },
            ScanMode::Disabled => {
                assert(verbatim("disabled"@));
            },
        }
    }
}

} // verus!
