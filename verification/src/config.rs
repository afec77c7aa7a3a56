//! Settings of the player. Reading and writing them is left to the program.

use vstd::prelude::*;
use crate::exchange::{join_path, joined_path};
use crate::text::{append_chars, append_str, chars_of, part, same_chars, same_text, string_of, str_views, strip_prefix, stripped, trim, trim_of};

verus! {

/// The sources that can be switched on and off by name.
pub open spec fn togglable(source: Seq<char>) -> bool {
    source == "http"@ || source == "spotify"@ || source == "soundcloud"@ || source == "soulseek"@
}

pub struct HttpConfig {
    pub enabled: bool,
    pub roots: Vec<String>,
    pub recurse_depth: usize,
}

impl Default for HttpConfig {
    fn default() -> (r: HttpConfig)
        ensures
            r.enabled,
            r.roots@.len() == 0,
            r.recurse_depth == 2,
    {
        HttpConfig { enabled: true, roots: Vec::new(), recurse_depth: 2 }
    }
}

pub struct SpotifyConfig {
    pub enabled: bool,
    /// Where credentials are kept, in place of the default directory.
    pub cache_dir: Option<String>,
}

impl Default for SpotifyConfig {
    fn default() -> (r: SpotifyConfig)
        ensures
            r == (SpotifyConfig { enabled: true, cache_dir: None }),
    {
        SpotifyConfig { enabled: true, cache_dir: None }
    }
}

pub struct SoundcloudConfig {
    pub enabled: bool,
    pub client_id: Option<String>,
    pub oauth_token: Option<String>,
    /// Prefer the stream of higher quality.
    pub hls: bool,
}

impl Default for SoundcloudConfig {
    fn default() -> (r: SoundcloudConfig)
        ensures
            r == (SoundcloudConfig { enabled: true, client_id: None, oauth_token: None, hls: true }),
    {
        SoundcloudConfig { enabled: true, client_id: None, oauth_token: None, hls: true }
    }
}

pub struct SoulseekConfig {
    pub enabled: bool,
    pub host: String,
    pub port: u16,
    pub username: String,
    pub password: String,
    /// Taken in place of name and password.
    pub api_key: Option<String>,
    /// The directory that the daemon writes to.
    pub data_dir: Option<String>,
}

impl Default for SoulseekConfig {
    fn default() -> (r: SoulseekConfig)
        ensures
            r.enabled,
            r.host@ == "localhost"@,
            r.port == 5030,
            r.username@ == "slskd"@,
            r.password@ == "slskd"@,
            r.api_key is None,
            r.data_dir is None,
    {
        SoulseekConfig {
            enabled: true,
            host: "localhost".to_owned(),
            port: 5030,
            username: "slskd".to_owned(),
            password: "slskd".to_owned(),
            api_key: None,
            data_dir: None,
        }
    }
}

#[derive(Clone, Copy, PartialEq, Eq, Structural, Debug)]
pub struct BpmScanConfig {
    /// Whether the first run scans what is in the cache, or does not scan.
    pub enabled: bool,
    /// The least time between fetches, in seconds.
    pub min_interval_secs: u64,
}

impl Default for BpmScanConfig {
    fn default() -> (r: BpmScanConfig)
        ensures
            r == (BpmScanConfig { enabled: true, min_interval_secs: 15 }),
    {
        BpmScanConfig { enabled: true, min_interval_secs: 15 }
    }
}

#[derive(Clone, Copy, PartialEq, Eq, Structural, Debug)]
pub struct ScanConfig {
    /// A fetch goes on to the end of the track, so that it ends up in the cache.
    pub cache_full: bool,
    pub bpm: BpmScanConfig,
}

impl Default for ScanConfig {
    fn default() -> (r: ScanConfig)
        ensures
            r == (ScanConfig { cache_full: true, bpm: BpmScanConfig { enabled: true, min_interval_secs: 15 } }),
    {
        ScanConfig { cache_full: true, bpm: BpmScanConfig::default() }
    }
}

#[derive(Clone, Copy, PartialEq, Eq, Structural, Debug)]
pub enum PaneMode {
    Screen,
    Embedded,
    Float,
}

#[derive(Clone, Copy, PartialEq, Eq, Structural, Debug)]
pub enum Side {
    Left,
    Right,
    Top,
    Bottom,
}

#[derive(Clone, Copy, PartialEq, Eq, Structural, Debug)]
pub enum Axis {
    Horizontal,
    Vertical,
}

/// Where an optional pane is drawn.
#[derive(Clone, Copy, PartialEq, Eq, Structural, Debug)]
pub struct PaneLayoutConfig {
    pub mode: PaneMode,
    pub side: Side,
    /// How panes share the space.
    pub stack: Axis,
}

impl Default for PaneLayoutConfig {
    fn default() -> (r: PaneLayoutConfig)
        ensures
            r == (PaneLayoutConfig { mode: PaneMode::Embedded, side: Side::Right, stack: Axis::Vertical }),
    {
        PaneLayoutConfig { mode: PaneMode::Embedded, side: Side::Right, stack: Axis::Vertical }
    }
}

#[derive(Clone, Copy, PartialEq, Eq, Structural, Debug)]
pub struct VisConfig {
    pub fps: u32,
}

pub const MIN_FPS: u32 = 5;

pub const MAX_FPS: u32 = 60;

/// A frame rate within what is supported.
pub open spec fn limited_fps(fps: u32) -> u32 {
    if fps < MIN_FPS {
        MIN_FPS
    } else if fps > MAX_FPS {
        MAX_FPS
    } else {
        fps
    }
}

impl VisConfig {
    pub fn limit(&self) -> (r: u32)
        ensures
            r == limited_fps(self.fps),
    {
        if self.fps < MIN_FPS {
            MIN_FPS
        } else if self.fps > MAX_FPS {
            MAX_FPS
        } else {
            self.fps
        }
    }
}

impl Default for VisConfig {
    fn default() -> (r: VisConfig)
        ensures
            r == (VisConfig { fps: 30 }),
    {
        VisConfig { fps: 30 }
    }
}

/// The settings, apart from the volume.
pub struct Config {
    pub http: HttpConfig,
    pub spotify: SpotifyConfig,
    pub soundcloud: SoundcloudConfig,
    pub soulseek: SoulseekConfig,
    pub scan: ScanConfig,
    /// The attributes that are shown in rows, in order.
    pub visible_track_attrs: Vec<String>,
    pub panes: PaneLayoutConfig,
    pub vis: VisConfig,
    pub status_line: bool,
    pub show_hints: bool,
    pub auto_update: bool,
    pub media_cache_dir: String,
    pub theme: String,
}

impl Default for Config {
    fn default() -> (r: Config)
        ensures
            r.http.enabled && r.http.roots@.len() == 0 && r.http.recurse_depth == 2,
            r.spotify == (SpotifyConfig { enabled: true, cache_dir: None }),
            r.soundcloud == (SoundcloudConfig { enabled: true, client_id: None, oauth_token: None, hls: true }),
            r.soulseek.enabled && r.soulseek.host@ == "localhost"@ && r.soulseek.port == 5030,
            r.soulseek.username@ == "slskd"@ && r.soulseek.password@ == "slskd"@,
            r.soulseek.api_key is None && r.soulseek.data_dir is None,
            r.scan == (ScanConfig { cache_full: true, bpm: BpmScanConfig { enabled: true, min_interval_secs: 15 } }),
            str_views(r.visible_track_attrs@) == seq!["bpm"@],
            r.panes == (PaneLayoutConfig { mode: PaneMode::Embedded, side: Side::Right, stack: Axis::Vertical }),
            r.vis == (VisConfig { fps: 30 }),
            r.status_line && r.show_hints && r.auto_update,
            r.media_cache_dir@ == ""@,
            r.theme@ == "default"@,
    {
        let mut attrs: Vec<String> = Vec::new();
        attrs.push("bpm".to_owned());
        assert(str_views(attrs@) =~= seq!["bpm"@]);
        Config {
            http: HttpConfig::default(),
            spotify: SpotifyConfig::default(),
            soundcloud: SoundcloudConfig::default(),
            soulseek: SoulseekConfig::default(),
            scan: ScanConfig::default(),
            visible_track_attrs: attrs,
            panes: PaneLayoutConfig::default(),
            vis: VisConfig::default(),
            status_line: true,
            show_hints: true,
            auto_update: true,
            media_cache_dir: "".to_owned(),
            theme: "default".to_owned(),
        }
    }
}

/// Whether a source is switched on.
pub open spec fn enabled_in(c: Config, source: Seq<char>) -> Option<bool> {
    if source == "http"@ {
        Some(c.http.enabled)
    } else if source == "spotify"@ {
        Some(c.spotify.enabled)
    } else if source == "soundcloud"@ {
        Some(c.soundcloud.enabled)
    } else if source == "soulseek"@ {
        Some(c.soulseek.enabled)
    } else {
        None
    }
}

/// The settings with a source switched on or off.
pub open spec fn with_source(c: Config, source: Seq<char>, on: bool) -> Config {
    if source == "http"@ {
        Config { http: HttpConfig { enabled: on, ..c.http }, ..c }
    } else if source == "spotify"@ {
        Config { spotify: SpotifyConfig { enabled: on, ..c.spotify }, ..c }
    } else if source == "soundcloud"@ {
        Config { soundcloud: SoundcloudConfig { enabled: on, ..c.soundcloud }, ..c }
    } else if source == "soulseek"@ {
        Config { soulseek: SoulseekConfig { enabled: on, ..c.soulseek }, ..c }
    } else {
        c
    }
}

impl Config {
    /// Whether a source is switched on; nothing for one that cannot be switched.
    pub fn source_enabled(&self, source: &str) -> (r: Option<bool>)
        ensures
            r == enabled_in(*self, source@),
            r is Some <==> togglable(source@),
    {
        if same_text(source, "http") {
            Some(self.http.enabled)
        } else if same_text(source, "spotify") {
            Some(self.spotify.enabled)
        } else if same_text(source, "soundcloud") {
            Some(self.soundcloud.enabled)
        } else if same_text(source, "soulseek") {
            Some(self.soulseek.enabled)
        } else {
            None
        }
    }

    /// Switches a source on or off; one that cannot be switched is left alone.
    pub fn set_source_enabled(&mut self, source: &str, enabled: bool)
        ensures
            *final(self) == with_source(*old(self), source@, enabled),
    {
        if same_text(source, "http") {
            self.http.enabled = enabled;
        } else if same_text(source, "spotify") {
            self.spotify.enabled = enabled;
        } else if same_text(source, "soundcloud") {
            self.soundcloud.enabled = enabled;
        } else if same_text(source, "soulseek") {
            self.soulseek.enabled = enabled;
        }
    }
}

/// A source that can be switched is as it was last set, and no other source changes with it.
pub proof fn switching_takes_hold(c: Config, source: Seq<char>, other: Seq<char>, on: bool)
    requires
        togglable(source),
    ensures
        enabled_in(with_source(c, source, on), source) == Some(on),
        other != source ==> enabled_in(with_source(c, source, on), other) == enabled_in(c, other),
{
    reveal_strlit("http");
    reveal_strlit("spotify");
    reveal_strlit("soundcloud");
    reveal_strlit("soulseek");
    assert("http"@.len() == 4 && "spotify"@.len() == 7 && "soundcloud"@.len() == 10 && "soulseek"@.len() == 8);
}

/// The text without the slashes that it starts with.
pub open spec fn without_front_slashes(s: Seq<char>) -> Seq<char>
    decreases s.len(),
{
    if s.len() > 0 && s[0] == '/' {
        without_front_slashes(s.skip(1))
    } else {
        s
    }
}

/// A path with a leading `~` as the home directory.
pub open spec fn home_expanded(text: Seq<char>, home: Seq<char>) -> Seq<char> {
    match stripped(text, "~"@) {
        Some(rest) => if rest.len() == 0 {
            home
        } else if rest[0] == '/' {
            joined_path(home, without_front_slashes(rest))
        } else {
            text
        },
        None => text,
    }
}

pub fn expand_home(text: &str, home: &str) -> (r: String)
    ensures
        r@ == home_expanded(text@, home@),
{
    let v = chars_of(text);
    if let Some(rest) = strip_prefix(&v, "~") {
        if rest.len() == 0 {
            return home.to_owned();
        }
        if rest[0] == '/' {
            let n: usize = rest.len();
            let mut i: usize = 0;
            assert(rest@.skip(0) =~= rest@);
            while i < n && rest[i] == '/'
                invariant
                    i <= n == rest@.len(),
                    without_front_slashes(rest@.skip(i as int)) == without_front_slashes(rest@),
                decreases n - i,
            {
                assert(rest@.skip(i as int).skip(1) =~= rest@.skip(i + 1));
                i = i + 1;
            }
            let tail = part(&rest, i, n);
            assert(tail@ =~= rest@.skip(i as int));
            return join_path(home, &string_of(&tail));
        }
    }
    text.to_owned()
}

/// The directory that the user names for the cache; a blank name is refused.
pub fn cache_dir(text: &str, home: &str) -> (r: Result<String, String>)
    ensures
        match r {
            Ok(d) => trim_of(text@).len() > 0 && d@ == home_expanded(trim_of(text@), home@),
            Err(m) => trim_of(text@).len() == 0 && m@ == "cache directory is empty"@,
        },
{
    let t = trim(&chars_of(text));
    if t.len() == 0 {
        Err("cache directory is empty".to_owned())
    } else {
        Ok(expand_home(&string_of(&t), home))
    }
}

/// Where the first segment of a path starts that is not empty and does not stand for the
/// directory it is in, from `i` on.
pub open spec fn segment_from(s: Seq<char>, i: int) -> int
    decreases s.len() - i,
{
    if i < 0 || i >= s.len() {
        s.len() as int
    } else if s[i] == '/' {
        segment_from(s, i + 1)
    } else if s[i] == '.' && (i + 1 >= s.len() || s[i + 1] == '/') {
        segment_from(s, i + 1)
    } else {
        i
    }
}

/// Where the segment ends that `i` is in.
pub open spec fn segment_to(s: Seq<char>, i: int) -> int
    decreases s.len() - i,
{
    if i < 0 || i >= s.len() {
        s.len() as int
    } else if s[i] == '/' {
        i
    } else {
        segment_to(s, i + 1)
    }
}

/// Where in an absolute path what lies below a directory starts: the segments of the directory
/// from `j` on are those of the path from `i` on.
pub open spec fn below(path: Seq<char>, i: int, home: Seq<char>, j: int) -> Option<int>
    decreases home.len() - j,
{
    let a = segment_from(home, j);
    if a < j || a >= home.len() {
        Some(segment_from(path, i))
    } else {
        let b = segment_to(home, a);
        let c = segment_from(path, i);
        if b <= a || b > home.len() {
            None
        } else if c + (b - a) <= path.len() && path.subrange(c, c + (b - a)) == home.subrange(a, b) && segment_to(path, c)
            == c + (b - a) {
            below(path, c + (b - a), home, b)
        } else {
            None
        }
    }
}

/// How many characters of a path its last segment that means anything ends at, at most `n`.
pub open spec fn tail_end(s: Seq<char>, from: int, n: int) -> int
    decreases n - from,
{
    if n <= from || n > s.len() {
        n
    } else if s[n - 1] == '/' {
        tail_end(s, from, n - 1)
    } else if s[n - 1] == '.' && (n - 1 <= from || s[n - 2] == '/') {
        tail_end(s, from, n - 1)
    } else {
        n
    }
}

pub open spec fn absolute(s: Seq<char>) -> bool {
    s.len() > 0 && s[0] == '/'
}

/// Whether a path says that it starts at the directory one is in.
pub open spec fn dotted(s: Seq<char>) -> bool {
    s.len() > 0 && s[0] == '.' && (s.len() == 1 || s[1] == '/')
}

/// A path with the home directory at its front as `~`.
pub open spec fn home_shortened(path: Seq<char>, home: Seq<char>) -> Seq<char> {
    if home.len() > 0 && absolute(path) == absolute(home) && dotted(path) == dotted(home) {
        match below(path, 0, home, 0) {
            Some(i) => "~/"@ + path.subrange(i, tail_end(path, i, path.len() as int)),
            None => path,
        }
    } else {
        path
    }
}

fn next_segment(s: &[char], from: usize) -> (r: usize)
    requires
        from <= s@.len(),
    ensures
        r == segment_from(s@, from as int),
        from <= r <= s@.len(),
        r < s@.len() ==> s@[r as int] != '/',
{
    let n: usize = s.len();
    let mut i: usize = from;
    while i < n
        invariant
            from <= i <= n == s@.len(),
            segment_from(s@, i as int) == segment_from(s@, from as int),
        decreases n - i,
    {
        if s[i] == '/' {
            i = i + 1;
        } else if s[i] == '.' && (i + 1 >= n || s[i + 1] == '/') {
            i = i + 1;
        } else {
            return i;
        }
    }
    n
}

fn segment_end(s: &[char], from: usize) -> (r: usize)
    requires
        from <= s@.len(),
    ensures
        r == segment_to(s@, from as int),
        from <= r <= s@.len(),
        from < s@.len() && s@[from as int] != '/' ==> r > from,
{
    let n: usize = s.len();
    let mut i: usize = from;
    while i < n && s[i] != '/'
        invariant
            from <= i <= n == s@.len(),
            segment_to(s@, i as int) == segment_to(s@, from as int),
        decreases n - i,
    {
        i = i + 1;
    }
    i
}

fn find_below(p: &[char], h: &[char]) -> (r: Option<usize>)
    ensures
        match r {
            Some(k) => below(p@, 0, h@, 0) == Some(k as int) && k <= p@.len(),
            None => below(p@, 0, h@, 0) is None,
        },
{
    let n: usize = p.len();
    let mut i: usize = 0;
    let mut j: usize = 0;
    let m: usize = h.len();
    loop
        invariant
            i <= n == p@.len(),
            j <= m == h@.len(),
            below(p@, i as int, h@, j as int) == below(p@, 0, h@, 0),
        decreases m - j,
    {
        let a = next_segment(h, j);
        if a >= m {
            return Some(next_segment(p, i));
        }
        let b = segment_end(h, a);
        let c = next_segment(p, i);
        let d = segment_end(p, c);
        if d - c != b - a {
            return None;
        }
        let x = part(p, c, d);
        let y = part(h, a, b);
        assert(x@ =~= p@.subrange(c as int, d as int));
        assert(y@ =~= h@.subrange(a as int, b as int));
        if !same_chars(&x, &y) {
            return None;
        }
        i = d;
        j = b;
    }
}

fn is_absolute(s: &[char]) -> (r: bool)
    ensures
        r == absolute(s@),
{
    s.len() > 0 && s[0] == '/'
}

fn is_dotted(s: &[char]) -> (r: bool)
    ensures
        r == dotted(s@),
{
    s.len() > 0 && s[0] == '.' && (s.len() == 1 || s[1] == '/')
}

/// A path as it is shown, with the home directory at its front as `~`.
pub fn tilde(path: &str, home: &str) -> (r: String)
    ensures
        r@ == home_shortened(path@, home@),
{
    let p = chars_of(path);
    let h = chars_of(home);
    if h.len() > 0 && is_absolute(&p) == is_absolute(&h) && is_dotted(&p) == is_dotted(&h) {
        if let Some(i) = find_below(&p, &h) {
            let total: usize = p.len();
            let mut n: usize = total;
            while n > i && (p[n - 1] == '/' || (p[n - 1] == '.' && (n - 1 <= i || p[n - 2] == '/')))
                invariant
                    i <= n <= total == p@.len(),
                    tail_end(p@, i as int, n as int) == tail_end(p@, i as int, total as int),
                decreases n,
            {
                n = n - 1;
            }
            let rest = part(&p, i, n);
            let mut out: Vec<char> = Vec::new();
            append_str(&mut out, "~/");
            append_chars(&mut out, &rest);
            assert(out@ =~= "~/"@ + p@.subrange(i as int, n as int));
            return string_of(&out);
        }
    }
    path.to_owned()
}

/// The windows that are open, as they are stored: by name, with their placements.
pub struct Layout {
    /// The windows with tabs, in order.
    pub tabs: Vec<String>,
    pub active: String,
    /// The others, the oldest first.
    pub open: Vec<String>,
    pub placements: crate::strmap::StrMap<String>,
    pub side: Side,
    pub stack: Axis,
}

} // verus!
