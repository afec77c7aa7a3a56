//! Background analysis of the library: which track is analysed when, and what becomes of an
//! attempt. Times are milliseconds of a clock that never goes back.

use vstd::prelude::*;
use crate::catalog::Catalog;
use crate::event::{Bus, CoreEvent};
use crate::idmap::IdMap;
use crate::ids::{uuid_round_trip, uuid_text, uuid_to_text};
use crate::store::{track_of, upserted};
use crate::stream::{PhaseView, StreamState};
use crate::strmap::StrMap;
use crate::types::{rendition_views, Rendition, RenditionView, SourceId, Track, TrackId, TrackView};

verus! {

/// After this many failures in a row a track waits longer.
pub const FAILURE_THRESHOLD: u32 = 3;

pub const RETRY_SPACING: u64 = 15_000;

pub const FAILURE_COOLDOWN: u64 = 900_000;

/// Two passes of the walk are at least this far apart.
pub const PASS_SPACING: u64 = 1_000;

/// How long the playing track is tried again while it has no stream, and how often.
pub const PRIORITY_RETRY_TIMEOUT: u64 = 10_000;

pub const PRIORITY_RETRY_TICK: u64 = 500;

/// How long a stream may take to deliver its first byte.
pub const FIRST_BYTE_TIMEOUT: u64 = 60_000;

/// How hard the scan works.
#[derive(Clone, Copy, Debug, PartialEq, Eq, Structural)]
pub enum ScanMode {
    /// Downloads what is not in the cache.
    Active,
    /// Reads only what is in the cache or downloading anyway.
    CacheOnly,
    Disabled,
}

/// The mode that the toggle leads to; it neither enables nor disables.
pub open spec fn cycled(m: ScanMode) -> ScanMode {
    match m {
        ScanMode::Active => ScanMode::CacheOnly,
        ScanMode::CacheOnly => ScanMode::Active,
        ScanMode::Disabled => ScanMode::Disabled,
    }
}

/// The stored name of a mode.
pub open spec fn mode_name(m: ScanMode) -> Seq<char> {
    match m {
        ScanMode::Active => "active"@,
        ScanMode::CacheOnly => "cache-only"@,
        ScanMode::Disabled => "disabled"@,
    }
}

impl ScanMode {
    pub fn cycle(self) -> (r: ScanMode)
        ensures
            r == cycled(self),
    {
        match self {
            ScanMode::Active => ScanMode::CacheOnly,
            ScanMode::CacheOnly => ScanMode::Active,
            ScanMode::Disabled => ScanMode::Disabled,
        }
    }

    /// The stored name of the mode.
    pub fn name(self) -> (r: &'static str)
        ensures
            r@ == mode_name(self),
    {
        match self {
            ScanMode::Active => "active",
            ScanMode::CacheOnly => "cache-only",
            ScanMode::Disabled => "disabled",
        }
    }

    /// The mode of a stored name.
    pub fn from_name(s: &str) -> (r: Option<ScanMode>)
        ensures
            match r {
                Some(m) => mode_name(m) == s@,
                None => forall|m: ScanMode| #[trigger] mode_name(m) != s@,
            },
    {
        if crate::text::same_text(s, "active") {
            Some(ScanMode::Active)
        } else if crate::text::same_text(s, "cache-only") {
            Some(ScanMode::CacheOnly)
        } else if crate::text::same_text(s, "disabled") {
            Some(ScanMode::Disabled)
        } else {
            None
        }
    }
}

/// No two modes have the same stored name, and toggling twice changes nothing.
pub proof fn modes_are_distinct(a: ScanMode, b: ScanMode)
    ensures
        mode_name(a) == mode_name(b) ==> a == b,
        cycled(cycled(a)) == a,
{
    reveal_strlit("active");
    reveal_strlit("cache-only");
    reveal_strlit("disabled");
    if mode_name(a) == mode_name(b) {
        assert(mode_name(a).len() == mode_name(b).len());
    }
}

/// What is happening with a track; nothing is kept of one that waits or is done.
#[derive(Clone, Copy, Debug, PartialEq, Eq, Structural)]
pub enum ScanStatus {
    Downloading,
    /// The last attempt failed.
    Error,
    /// Not for this plugin.
    Skipped,
}

/// How an attempt may reach audio.
#[derive(Clone, Copy, Debug, PartialEq, Eq, Structural)]
pub enum Access {
    /// A download may be started.
    Fetch,
    /// Only what is in the cache or running.
    Peek,
}

pub open spec fn access_of(m: ScanMode) -> Access {
    if m == ScanMode::Active {
        Access::Fetch
    } else {
        Access::Peek
    }
}

impl Access {
    pub fn from_mode(mode: ScanMode) -> (r: Access)
        ensures
            r == access_of(mode),
    {
        if mode == ScanMode::Active {
            Access::Fetch
        } else {
            Access::Peek
        }
    }
}

/// What one attempt at a track came to.
#[derive(Clone, Copy, Debug, PartialEq, Eq, Structural)]
pub enum Verdict {
    /// A plugin ran.
    Attempted,
    /// A timer blocks until then.
    NotBefore(u64),
    /// Something must happen first.
    Waiting,
    /// There is nothing left to do.
    Nothing,
}

/// Why no plugin could run, from two reasons: the sooner timer, else the wait, else nothing.
pub open spec fn worse(a: Verdict, b: Verdict) -> Verdict {
    match (a, b) {
        (Verdict::NotBefore(x), Verdict::NotBefore(y)) => Verdict::NotBefore(
            if x <= y {
                x
            } else {
                y
            },
        ),
        (Verdict::NotBefore(x), _) => Verdict::NotBefore(x),
        (_, Verdict::NotBefore(y)) => Verdict::NotBefore(y),
        (Verdict::Waiting, _) => Verdict::Waiting,
        (_, Verdict::Waiting) => Verdict::Waiting,
        _ => Verdict::Nothing,
    }
}

fn combine(a: Verdict, b: Verdict) -> (r: Verdict)
    ensures
        r == worse(a, b),
{
    match (a, b) {
        (Verdict::NotBefore(x), Verdict::NotBefore(y)) => Verdict::NotBefore(
            if x <= y {
                x
            } else {
                y
            },
        ),
        (Verdict::NotBefore(x), _) => Verdict::NotBefore(x),
        (_, Verdict::NotBefore(y)) => Verdict::NotBefore(y),
        (Verdict::Waiting, _) => Verdict::Waiting,
        (_, Verdict::Waiting) => Verdict::Waiting,
        _ => Verdict::Nothing,
    }
}

/// What a plugin says of a track.
pub struct PluginFacts {
    pub id: String,
    /// The track lacks what the plugin finds.
    pub needs: bool,
    pub needs_audio: bool,
    /// The least gap between its downloads.
    pub min_interval: u64,
}

pub struct PluginView {
    pub id: Seq<char>,
    pub needs: bool,
    pub needs_audio: bool,
    pub min_interval: u64,
}

impl View for PluginFacts {
    type V = PluginView;

    open spec fn view(&self) -> PluginView {
        PluginView {
            id: self.id@,
            needs: self.needs,
            needs_audio: self.needs_audio,
            min_interval: self.min_interval,
        }
    }
}

pub open spec fn plugin_views(v: Seq<PluginFacts>) -> Seq<PluginView> {
    v.map_values(|p: PluginFacts| p@)
}

/// The key of what is kept of a plugin and a track.
pub open spec fn job_key_of(plugin: Seq<char>, track: TrackId) -> Seq<char> {
    plugin + seq!['\0'] + uuid_text(track.0)
}

fn job_key(plugin: &str, track: TrackId) -> (r: String)
    ensures
        r@ == job_key_of(plugin@, track),
{
    let mut s = plugin.to_owned();
    s.push('\0');
    s.append(&uuid_to_text(track.0));
    assert(s@ =~= job_key_of(plugin@, track));
    s
}

/// Different plugins or tracks have different keys.
pub proof fn job_keys_are_distinct(p: Seq<char>, t: TrackId, q: Seq<char>, u: TrackId)
    requires
        job_key_of(p, t) == job_key_of(q, u),
    ensures
        p == q && t == u,
{
    uuid_round_trip(t.0);
    uuid_round_trip(u.0);
    let a = uuid_text(t.0);
    let b = uuid_text(u.0);
    let k = job_key_of(p, t);
    assert(a.len() == 36 && b.len() == 36);
    assert(k.len() == p.len() + 37);
    assert(job_key_of(q, u).len() == q.len() + 37);
    assert(k.skip(p.len() as int + 1) =~= a);
    assert(job_key_of(q, u).skip(q.len() as int + 1) =~= b);
    assert(k.take(p.len() as int) =~= p);
    assert(job_key_of(q, u).take(q.len() as int) =~= q);
}

/// What the scan knows.
pub struct ScanDriver {
    pub mode: ScanMode,
    /// The tracks that played, the newest first, each with when it was put there.
    pub priority: Vec<(TrackId, u64)>,
    /// The walk was told something since it last woke.
    pub woken: bool,
    /// The tracks to read again.
    pub dirty: Vec<TrackId>,
    /// The whole library is to be read again.
    pub rebuild: bool,
    /// The list that the user looks at, and the row they are at.
    pub view: Option<(Vec<TrackId>, usize)>,
    /// When each plugin last went to a source.
    pub last_run: StrMap<u64>,
    pub status: StrMap<ScanStatus>,
    /// How often a plugin failed in a row on a track, and when last.
    pub failures: StrMap<(u32, u64)>,
    /// The source and address of each download that is kept alive.
    pub held: Vec<(String, String)>,
    /// How often a source failed in a row, and until when it is left alone.
    pub backoff: StrMap<(u32, u64)>,
}

pub struct DriverView {
    pub mode: ScanMode,
    pub priority: Seq<(TrackId, u64)>,
    pub woken: bool,
    pub dirty: Seq<TrackId>,
    pub rebuild: bool,
    pub view: Option<(Seq<TrackId>, usize)>,
    pub last_run: Map<Seq<char>, u64>,
    pub status: Map<Seq<char>, ScanStatus>,
    pub failures: Map<Seq<char>, (u32, u64)>,
    pub held: Seq<(Seq<char>, Seq<char>)>,
    pub backoff: Map<Seq<char>, (u32, u64)>,
}

pub open spec fn held_views(v: Seq<(String, String)>) -> Seq<(Seq<char>, Seq<char>)> {
    v.map_values(|p: (String, String)| (p.0@, p.1@))
}

impl View for ScanDriver {
    type V = DriverView;

    open spec fn view(&self) -> DriverView {
        DriverView {
            mode: self.mode,
            priority: self.priority@,
            woken: self.woken,
            dirty: self.dirty@,
            rebuild: self.rebuild,
            view: match self.view {
                Some((v, h)) => Some((v@, h)),
                None => None,
            },
            last_run: self.last_run@,
            status: self.status@,
            failures: self.failures@,
            held: held_views(self.held@),
            backoff: self.backoff@,
        }
    }
}

pub open spec fn other_track(id: TrackId) -> spec_fn((TrackId, u64)) -> bool {
    |p: (TrackId, u64)| p.0 != id
}

/// The row of tracks that played with this one at its front.
pub open spec fn prioritized(v: Seq<(TrackId, u64)>, id: TrackId, now: u64) -> Seq<(TrackId, u64)> {
    seq![(id, now)] + v.filter(other_track(id))
}

/// Picks the downloads whose flags are set.
pub open spec fn kept_downloads(v: Seq<(Seq<char>, Seq<char>)>, running: Seq<bool>) -> Seq<(Seq<char>, Seq<char>)>
    decreases v.len(),
{
    if v.len() == 0 {
        seq![]
    } else {
        let rest = kept_downloads(v.drop_last(), running);
        if v.len() - 1 < running.len() && running[v.len() - 1] {
            rest.push(v.last())
        } else {
            rest
        }
    }
}

impl ScanDriver {
    pub fn new(mode: ScanMode) -> (r: ScanDriver)
        ensures
            r@ == (DriverView {
                mode,
                priority: seq![],
                woken: true,
                dirty: seq![],
                rebuild: true,
                view: None,
                last_run: Map::empty(),
                status: Map::empty(),
                failures: Map::empty(),
                held: seq![],
                backoff: Map::empty(),
            }),
    {
        let r = ScanDriver {
            mode,
            priority: Vec::new(),
            woken: true,
            dirty: Vec::new(),
            rebuild: true,
            view: None,
            last_run: StrMap::new(),
            status: StrMap::new(),
            failures: StrMap::new(),
            held: Vec::new(),
            backoff: StrMap::new(),
        };
        assert(r.priority@ =~= seq![]);
        assert(r.dirty@ =~= seq![]);
        assert(held_views(r.held@) =~= seq![]);
        r
    }

    /// A plugin was added: the library is read again.
    pub fn register_plugin(&mut self)
        ensures
            final(self)@ == (DriverView { rebuild: true, woken: true, ..old(self)@ }),
    {
        self.rebuild = true;
        self.woken = true;
    }

    /// A track plays: it goes before all others.
    pub fn prioritize(&mut self, track: TrackId, now: u64)
        ensures
            final(self)@ == (DriverView {
                priority: prioritized(old(self)@.priority, track, now),
                ..old(self)@
            }),
    {
        let ghost was = self.priority@;
        let ghost keep = other_track(track);
        let mut out: Vec<(TrackId, u64)> = Vec::new();
        out.push((track, now));
        let mut i: usize = 0;
        proof {
            reveal(Seq::filter);
            assert(out@ =~= seq![(track, now)] + was.take(0).filter(keep));
        }
        while i < self.priority.len()
            invariant
                i <= self.priority@.len(),
                *self == *old(self),
                was == self.priority@,
                keep == other_track(track),
                out@ == seq![(track, now)] + was.take(i as int).filter(keep),
            decreases self.priority@.len() - i,
        {
            proof {
                was.take(i as int).lemma_filter_push(was[i as int], keep);
                assert(was.take(i + 1) =~= was.take(i as int).push(was[i as int]));
            }
            let p = self.priority[i];
            if p.0 != track {
                out.push(p);
            }
            assert(out@ =~= seq![(track, now)] + was.take(i + 1).filter(keep));
            i = i + 1;
        }
        assert(was.take(i as int) =~= was);
        self.priority = out;
    }

    /// A track was written, added or removed: the walk reads it again.
    pub fn track_changed(&mut self, track: TrackId)
        ensures
            final(self)@ == (DriverView {
                dirty: old(self)@.dirty.push(track),
                woken: true,
                ..old(self)@
            }),
    {
        self.dirty.push(track);
        self.woken = true;
    }

    /// A stream ended: the walk may start the next.
    pub fn stream_ended(&mut self)
        ensures
            final(self)@ == (DriverView { woken: true, ..old(self)@ }),
    {
        self.woken = true;
    }

    /// Takes over the list that the user looks at; an empty one means the whole library.
    pub fn follow_view(&mut self, tracks: Vec<TrackId>, highlighted: usize)
        ensures
            ({
                let next = if tracks@.len() == 0 {
                    None
                } else {
                    Some((tracks@, highlighted))
                };
                final(self)@ == (DriverView {
                    view: next,
                    woken: old(self)@.woken || old(self)@.view != next,
                    ..old(self)@
                })
            }),
    {
        let same: bool = match &self.view {
            None => tracks.len() == 0,
            Some((v, h)) => tracks.len() != 0 && *h == highlighted && same_ids(v, &tracks),
        };
        if !same {
            self.view = if tracks.len() == 0 {
                None
            } else {
                Some((tracks, highlighted))
            };
            self.woken = true;
        }
    }

    /// Sets the mode. Away from `Active` no download is kept alive; `Disabled` also forgets the
    /// tracks that played. `running` says of each download that is kept alive whether it still
    /// runs.
    pub fn set_mode(&mut self, mode: ScanMode, running: &Vec<bool>)
        ensures
            final(self)@ == (DriverView {
                mode,
                priority: if mode == ScanMode::Disabled {
                    seq![]
                } else {
                    old(self)@.priority
                },
                held: if mode == ScanMode::Active {
                    kept_downloads(old(self)@.held, running@)
                } else {
                    seq![]
                },
                woken: true,
                ..old(self)@
            }),
    {
        self.mode = mode;
        if mode == ScanMode::Disabled {
            self.priority = Vec::new();
            assert(self.priority@ =~= seq![]);
        }
        self.reap_held(running);
        self.woken = true;
    }

    /// Switches between the two modes that scan, and gives the mode. A scan that is off stays off.
    pub fn toggle_mode(&mut self, running: &Vec<bool>) -> (r: ScanMode)
        ensures
            r == cycled(old(self)@.mode),
            final(self)@ == (DriverView {
                mode: r,
                priority: if r == ScanMode::Disabled {
                    seq![]
                } else {
                    old(self)@.priority
                },
                held: if r == ScanMode::Active {
                    kept_downloads(old(self)@.held, running@)
                } else {
                    seq![]
                },
                woken: true,
                ..old(self)@
            }),
    {
        let mode = self.mode.cycle();
        self.set_mode(mode, running);
        mode
    }

    /// Lets go of the downloads that have ended, and of all once nothing is fetched.
    pub fn reap_held(&mut self, running: &Vec<bool>)
        ensures
            final(self)@ == (DriverView {
                held: if old(self)@.mode == ScanMode::Active {
                    kept_downloads(old(self)@.held, running@)
                } else {
                    seq![]
                },
                ..old(self)@
            }),
    {
        let ghost all = held_views(self.held@);
        let mut out: Vec<(String, String)> = Vec::new();
        assert(held_views(out@) =~= kept_downloads(all.take(0), running@));
        assert(held_views(out@) =~= seq![]);
        if self.mode == ScanMode::Active {
            let mut i: usize = 0;
            while i < self.held.len()
                invariant
                    i <= self.held@.len(),
                    *self == *old(self),
                    all == held_views(self.held@),
                    held_views(out@) == kept_downloads(all.take(i as int), running@),
                decreases self.held@.len() - i,
            {
                assert(all.take(i + 1).drop_last() =~= all.take(i as int));
                if i < running.len() && running[i] {
                    let ghost before = out@;
                    out.push((self.held[i].0.clone(), self.held[i].1.clone()));
                    assert(held_views(out@) =~= held_views(before).push(all[i as int]));
                }
                i = i + 1;
            }
            assert(all.take(i as int) =~= all);
        }
        self.held = out;
    }

    pub fn mode(&self) -> (r: ScanMode)
        ensures
            r == self@.mode,
    {
        self.mode
    }

    /// What is happening with a track for a plugin.
    pub fn status(&self, plugin: &str, track: TrackId) -> (r: Option<ScanStatus>)
        ensures
            r == status_of(self@, plugin@, track),
    {
        match self.status.get(&job_key(plugin, track)) {
            Some(s) => Some(*s),
            None => None,
        }
    }
}

pub open spec fn status_of(d: DriverView, plugin: Seq<char>, track: TrackId) -> Option<ScanStatus> {
    let k = job_key_of(plugin, track);
    if d.status.dom().contains(k) {
        Some(d.status[k])
    } else {
        None
    }
}

fn same_ids(a: &Vec<TrackId>, b: &Vec<TrackId>) -> (r: bool)
    ensures
        r == (a@ == b@),
{
    if a.len() != b.len() {
        return false;
    }
    let mut i: usize = 0;
    while i < a.len()
        invariant
            a@.len() == b@.len(),
            i <= a@.len(),
            forall|j: int| 0 <= j < i ==> a@[j] == b@[j],
        decreases a@.len() - i,
    {
        if a[i] != b[i] {
            return false;
        }
        i = i + 1;
    }
    assert(a@ =~= b@);
    true
}

/// A time after another one, as far as the clock reaches.
pub open spec fn plus(t: u64, d: u64) -> u64 {
    if t + d > u64::MAX {
        u64::MAX
    } else {
        (t + d) as u64
    }
}

/// Whether less than `d` has passed since `t`.
pub open spec fn within(t: u64, now: u64, d: u64) -> bool {
    (if now > t {
        now - t
    } else {
        0
    }) < d
}

fn is_within(t: u64, now: u64, d: u64) -> (r: bool)
    ensures
        r == within(t, now, d),
{
    now.saturating_sub(t) < d
}

/// Until when a source is left alone, if it is.
pub open spec fn backed_off(d: DriverView, source: Seq<char>, now: u64) -> Option<u64> {
    if d.backoff.dom().contains(source) && d.backoff[source].1 > now {
        Some(d.backoff[source].1)
    } else {
        None
    }
}

/// Whether one of the renditions is being downloaded for the scan.
pub open spec fn holds_one_of(d: DriverView, v: Seq<RenditionView>) -> bool {
    exists|i: int, j: int|
        0 <= i < v.len() && 0 <= j < d.held.len() && #[trigger] d.held[j] == ((#[trigger] v[i]).source, v[i].uri)
}

/// The soonest end of the waits of the first `n` renditions, all of which wait.
pub open spec fn soonest(d: DriverView, v: Seq<RenditionView>, n: int, now: u64) -> Option<u64>
    decreases n,
{
    if n <= 0 || n > v.len() {
        None
    } else {
        match (soonest(d, v, n - 1, now), backed_off(d, v[n - 1].source, now)) {
            (Some(a), Some(b)) => Some(
                if a <= b {
                    a
                } else {
                    b
                },
            ),
            (None, b) => b,
            (a, None) => a,
        }
    }
}

/// Why a download of these renditions may not start, if it may not: one at a time, and not
/// while every source is left alone.
pub open spec fn fetch_block(d: DriverView, v: Seq<RenditionView>, now: u64) -> Option<Verdict> {
    if holds_one_of(d, v) {
        None
    } else if d.held.len() > 0 {
        Some(Verdict::Waiting)
    } else if exists|i: int| 0 <= i < v.len() && backed_off(d, (#[trigger] v[i]).source, now) is None {
        None
    } else {
        match soonest(d, v, v.len() as int, now) {
            Some(t) => Some(Verdict::NotBefore(t)),
            None => Some(Verdict::Nothing),
        }
    }
}

/// What stands before a plugin's attempt at a track.
pub enum Gate {
    /// Nothing to do for this plugin.
    Over,
    Blocked(Verdict),
    Go,
}

/// Whether an attempt would have to download, or call a source.
pub open spec fn gated(p: PluginView, has_stream: bool) -> bool {
    p.needs_audio && !has_stream
}

/// What stands before a plugin's attempt at a track.
pub open spec fn gate_of(d: DriverView, p: PluginView, t: TrackView, access: Access, has_stream: bool, now: u64) -> Gate {
    let k = job_key_of(p.id, t.id);
    let st = status_of(d, p.id, t.id);
    if !p.needs || st == Some(ScanStatus::Skipped) {
        Gate::Over
    } else if d.mode == ScanMode::Disabled || st == Some(ScanStatus::Downloading) {
        Gate::Blocked(Verdict::Waiting)
    } else if d.failures.dom().contains(k) && within(d.failures[k].1, now, retry_wait(d.failures[k].0)) {
        Gate::Blocked(Verdict::NotBefore(plus(d.failures[k].1, retry_wait(d.failures[k].0))))
    } else if gated(p, has_stream) && access == Access::Peek {
        Gate::Blocked(Verdict::Waiting)
    } else if gated(p, has_stream) && fetch_block(d, t.renditions, now) is Some {
        Gate::Blocked(fetch_block(d, t.renditions, now)->0)
    } else if (gated(p, has_stream) || !p.needs_audio) && d.last_run.dom().contains(p.id) && within(
        d.last_run[p.id],
        now,
        p.min_interval,
    ) {
        Gate::Blocked(Verdict::NotBefore(plus(d.last_run[p.id], p.min_interval)))
    } else {
        Gate::Go
    }
}

/// How long a plugin waits after failing this often in a row.
pub open spec fn retry_wait(failures: u32) -> u64 {
    if failures >= FAILURE_THRESHOLD {
        FAILURE_COOLDOWN
    } else {
        RETRY_SPACING
    }
}

/// The first plugin from `i` on that may go, and why those before it may not.
pub open spec fn picked_from(d: DriverView, v: Seq<PluginView>, i: int, so_far: Verdict, t: TrackView, access: Access, has_stream: bool, now: u64) -> (Verdict, Option<int>)
    decreases v.len() - i,
{
    if i < 0 || i >= v.len() {
        (so_far, None)
    } else {
        match gate_of(d, v[i], t, access, has_stream, now) {
            Gate::Go => (so_far, Some(i)),
            Gate::Over => picked_from(d, v, i + 1, so_far, t, access, has_stream, now),
            Gate::Blocked(b) => picked_from(d, v, i + 1, worse(so_far, b), t, access, has_stream, now),
        }
    }
}

/// The driver once a plugin starts on a track.
pub open spec fn started(d: DriverView, p: PluginView, t: TrackId, has_stream: bool, now: u64) -> DriverView {
    DriverView {
        status: d.status.insert(job_key_of(p.id, t), ScanStatus::Downloading),
        last_run: if gated(p, has_stream) || !p.needs_audio {
            d.last_run.insert(p.id, now)
        } else {
            d.last_run
        },
        ..d
    }
}

/// The attributes that a plugin found for a track.
pub struct TrackMeta {
    pub attrs: StrMap<String>,
}

/// What a plugin found.
pub enum Outcome {
    /// These attributes are set; others stay.
    Done(TrackMeta),
    /// Not for this plugin.
    Skip,
    /// A failure that may pass.
    Retry,
}

/// The stream that an attempt used: its source, and how it stood at the end.
pub struct StreamUse {
    pub source: SourceId,
    pub state: StreamState,
}

/// How long a source is left alone after failing this often in a row.
pub open spec fn backoff_wait(count: u32) -> u64 {
    if count <= 1 {
        60_000
    } else if count == 2 {
        120_000
    } else if count == 3 {
        240_000
    } else if count == 4 {
        480_000
    } else {
        900_000
    }
}

/// The failures of a source after one more or, at a success, none.
pub open spec fn noted(m: Map<Seq<char>, (u32, u64)>, source: Seq<char>, failed: bool, now: u64) -> Map<Seq<char>, (u32, u64)> {
    if !failed {
        m.remove(source)
    } else {
        let n = one_more(
            if m.dom().contains(source) {
                m[source].0
            } else {
                0
            },
        );
        m.insert(source, (n, plus(now, backoff_wait(n))))
    }
}

pub open spec fn one_more(n: u32) -> u32 {
    if n == u32::MAX {
        n
    } else {
        (n + 1) as u32
    }
}

/// How an attempt ended.
#[derive(Clone, Copy, Debug, PartialEq, Eq, Structural)]
pub enum Ending {
    Done,
    /// Nothing to read yet: the next plugin is tried.
    NoStream,
    Skipped,
    /// Given up in the middle, not a failure.
    Abandoned,
    Failed,
}

pub open spec fn ending_of(o: Outcome, needs_audio: bool, stream: Option<StreamUse>, access: Access, wanted: bool) -> Ending {
    match o {
        Outcome::Done(_) => Ending::Done,
        Outcome::Skip => if needs_audio && stream is None && access == Access::Peek {
            Ending::NoStream
        } else {
            Ending::Skipped
        },
        Outcome::Retry => if !wanted || (stream matches Some(u) && (u.state@ is Cancelled || u.state@ is Connecting)) {
            Ending::Abandoned
        } else {
            Ending::Failed
        },
    }
}

/// The driver after an attempt.
pub open spec fn settled(d: DriverView, plugin: Seq<char>, t: TrackId, e: Ending, source: Option<Seq<char>>, access: Access, now: u64) -> DriverView {
    let k = job_key_of(plugin, t);
    match e {
        Ending::Done => DriverView {
            status: d.status.remove(k),
            failures: d.failures.remove(k),
            backoff: match source {
                Some(s) => noted(d.backoff, s, false, now),
                None => d.backoff,
            },
            ..d
        },
        Ending::NoStream | Ending::Abandoned => DriverView { status: d.status.remove(k), ..d },
        Ending::Skipped => DriverView { status: d.status.insert(k, ScanStatus::Skipped), ..d },
        Ending::Failed => DriverView {
            status: d.status.insert(k, ScanStatus::Error),
            backoff: match source {
                Some(s) => if access == Access::Fetch {
                    noted(d.backoff, s, true, now)
                } else {
                    d.backoff
                },
                None => d.backoff,
            },
            failures: d.failures.insert(k, (failures_after(d, k), now)),
            ..d
        },
    }
}

pub open spec fn failures_after(d: DriverView, k: Seq<char>) -> u32 {
    one_more(
        if d.failures.dom().contains(k) {
            d.failures[k].0
        } else {
            0
        },
    )
}

pub open spec fn source_of(u: Option<StreamUse>) -> Option<Seq<char>> {
    match u {
        Some(u) => Some(u.source@),
        None => None,
    }
}

impl ScanDriver {
    fn fetchable(&self, v: &Vec<Rendition>, now: u64) -> (r: Option<Verdict>)
        ensures
            r == fetch_block(self@, rendition_views(v@), now),
    {
        let ghost d = self@;
        let ghost rs = rendition_views(v@);
        let mut i: usize = 0;
        while i < v.len()
            invariant
                i <= v@.len(),
                d == self@,
                rs == rendition_views(v@),
                forall|x: int, j: int|
                    0 <= x < i && 0 <= j < d.held.len() ==> #[trigger] d.held[j] != ((#[trigger] rs[x]).source, rs[x].uri),
            decreases v@.len() - i,
        {
            let mut j: usize = 0;
            while j < self.held.len()
                invariant
                    i < v@.len(),
                    j <= self.held@.len(),
                    d == self@,
                    rs == rendition_views(v@),
                    forall|y: int|
                        0 <= y < j ==> #[trigger] d.held[y] != (rs[i as int].source, rs[i as int].uri),
                decreases self.held@.len() - j,
            {
                assert(d.held[j as int] == (self.held@[j as int].0@, self.held@[j as int].1@));
                assert(rs[i as int] == v@[i as int]@);
                if crate::text::same_text(&self.held[j].0, v[i].source.as_str()) && self.held[j].1 == v[i].uri {
                    assert(holds_one_of(d, rs));
                    return None;
                }
                j = j + 1;
            }
            i = i + 1;
        }
        assert(!holds_one_of(d, rs));
        if self.held.len() > 0 {
            return Some(Verdict::Waiting);
        }
        let mut best: Option<u64> = None;
        let mut i: usize = 0;
        while i < v.len()
            invariant
                i <= v@.len(),
                d == self@,
                rs == rendition_views(v@),
                best == soonest(d, rs, i as int, now),
                forall|x: int| 0 <= x < i ==> backed_off(d, (#[trigger] rs[x]).source, now) is Some,
                !holds_one_of(d, rs),
                d.held.len() == 0,
            decreases v@.len() - i,
        {
            assert(rs[i as int] == v@[i as int]@);
            let until: Option<u64> = match self.backoff.get(v[i].source.as_str()) {
                Some(b) => if b.1 > now {
                    Some(b.1)
                } else {
                    None
                },
                None => None,
            };
            match until {
                None => {
                    assert(backed_off(d, rs[i as int].source, now) is None);
                    return None;
                },
                Some(t) => {
                    best = match best {
                        Some(a) => if a <= t {
                            Some(a)
                        } else {
                            Some(t)
                        },
                        None => Some(t),
                    };
                },
            }
            i = i + 1;
        }
        match best {
            Some(t) => Some(Verdict::NotBefore(t)),
            None => Some(Verdict::Nothing),
        }
    }

    fn gate(&self, p: &PluginFacts, track: &Track, access: Access, has_stream: bool, now: u64) -> (r: Gate)
        ensures
            r == gate_of(self@, p@, track@, access, has_stream, now),
    {
        let st = self.status(&p.id, track.id);
        if !p.needs {
            return Gate::Over;
        }
        match st {
            Some(ScanStatus::Skipped) => {
                return Gate::Over;
            },
            Some(ScanStatus::Downloading) => {
                return Gate::Blocked(Verdict::Waiting);
            },
            _ => {},
        }
        if self.mode == ScanMode::Disabled {
            return Gate::Blocked(Verdict::Waiting);
        }
        if let Some(f) = self.failures.get(&job_key(&p.id, track.id)) {
            let wait: u64 = if f.0 >= FAILURE_THRESHOLD {
                FAILURE_COOLDOWN
            } else {
                RETRY_SPACING
            };
            if is_within(f.1, now, wait) {
                return Gate::Blocked(Verdict::NotBefore(f.1.saturating_add(wait)));
            }
        }
        let g: bool = p.needs_audio && !has_stream;
        if g {
            if access == Access::Peek {
                return Gate::Blocked(Verdict::Waiting);
            }
            if let Some(v) = self.fetchable(&track.renditions, now) {
                return Gate::Blocked(v);
            }
        }
        if g || !p.needs_audio {
            if let Some(t) = self.last_run.get(&p.id) {
                if is_within(*t, now, p.min_interval) {
                    return Gate::Blocked(Verdict::NotBefore((*t).saturating_add(p.min_interval)));
                }
            }
        }
        Gate::Go
    }

    /// Starts the first plugin from `from` on that needs the track and may go now, and says which
    /// it is; else why none may. `so_far` is why those before `from` may not.
    pub fn next_attempt(&mut self, plugins: &Vec<PluginFacts>, from: usize, so_far: Verdict, track: &Track, access: Access, has_stream: bool, now: u64) -> (r: (Verdict, Option<usize>))
        requires
            from <= plugins@.len(),
        ensures
            ({
                let (v, pick) = picked_from(
                    old(self)@,
                    plugin_views(plugins@),
                    from as int,
                    so_far,
                    track@,
                    access,
                    has_stream,
                    now,
                );
                &&& r.0 == v
                &&& match r.1 {
                    Some(i) => pick == Some(i as int) && i < plugins@.len() && final(self)@ == started(
                        old(self)@,
                        plugins@[i as int]@,
                        track@.id,
                        has_stream,
                        now,
                    ),
                    None => pick is None && final(self)@ == old(self)@,
                }
            }),
    {
        let ghost d = self@;
        let ghost all = plugin_views(plugins@);
        let mut verdict = so_far;
        let mut i: usize = from;
        while i < plugins.len()
            invariant
                i <= plugins@.len(),
                all == plugin_views(plugins@),
                d == self@,
                *self == *old(self),
                picked_from(d, all, i as int, verdict, track@, access, has_stream, now) == picked_from(
                    d,
                    all,
                    from as int,
                    so_far,
                    track@,
                    access,
                    has_stream,
                    now,
                ),
            decreases plugins@.len() - i,
        {
            assert(all[i as int] == plugins@[i as int]@);
            match self.gate(&plugins[i], track, access, has_stream, now) {
                Gate::Over => {},
                Gate::Blocked(b) => {
                    verdict = combine(verdict, b);
                },
                Gate::Go => {
                    let p = &plugins[i];
                    self.status.insert(job_key(&p.id, track.id), ScanStatus::Downloading);
                    if (p.needs_audio && !has_stream) || !p.needs_audio {
                        self.last_run.insert(p.id.clone(), now);
                    }
                    return (verdict, Some(i));
                },
            }
            i = i + 1;
        }
        (verdict, None)
    }

    /// A failed download makes its source wait; a success forgets its failures.
    fn note_source(&mut self, source: &str, failed: bool, now: u64)
        ensures
            final(self)@ == (DriverView {
                backoff: noted(old(self)@.backoff, source@, failed, now),
                ..old(self)@
            }),
    {
        if !failed {
            self.backoff.remove(source);
            return;
        }
        let before: u32 = match self.backoff.get(source) {
            Some(b) => b.0,
            None => 0,
        };
        let n: u32 = before.saturating_add(1);
        let wait: u64 = if n <= 1 {
            60_000
        } else if n == 2 {
            120_000
        } else if n == 3 {
            240_000
        } else if n == 4 {
            480_000
        } else {
            900_000
        };
        self.backoff.insert(source.to_owned(), (n, now.saturating_add(wait)));
    }

    /// Takes the end of an attempt: what was found is written to the track, and the state of the
    /// plugin and the source follows. `wanted` says whether the attempt was still wanted.
    pub fn settle(&mut self, plugin: &PluginFacts, track: TrackId, outcome: &Outcome, stream: &Option<StreamUse>, access: Access, wanted: bool, now: u64, catalog: &mut Catalog, bus: &mut Bus) -> (r: Ending)
        ensures
            r == ending_of(*outcome, plugin@.needs_audio, *stream, access, wanted),
            final(self)@ == settled(old(self)@, plugin@.id, track, r, source_of(*stream), access, now),
            match r {
                Ending::Done => {
                    let s = old(catalog).store@;
                    if track_of(s, track) is Some {
                        let t = s.tracks[track.0];
                        &&& final(catalog).store@ == upserted(s, with_attrs(t, outcome->Done_0.attrs@))
                        &&& final(bus)@ == old(bus)@.push(CoreEvent::TrackUpdated(track))
                    } else {
                        final(catalog).store@ == s && final(bus)@ == old(bus)@
                    }
                },
                Ending::Skipped => final(catalog).store@ == old(catalog).store@ && final(bus)@ == old(bus)@.push(
                    CoreEvent::TrackUpdated(track),
                ),
                Ending::Failed => {
                    &&& final(catalog).store@ == old(catalog).store@
                    &&& if failures_after(old(self)@, job_key_of(plugin@.id, track)) >= FAILURE_THRESHOLD {
                        &&& final(bus)@.len() == old(bus)@.len() + 1
                        &&& final(bus)@.drop_last() == old(bus)@
                        &&& final(bus)@.last() matches CoreEvent::BackgroundFailure { context, message } && context@
                            == plugin@.id && message@ == "scan keeps failing for some tracks \u{2014} see :log"@
                    } else {
                        final(bus)@ == old(bus)@
                    }
                },
                _ => final(catalog).store@ == old(catalog).store@ && final(bus)@ == old(bus)@,
            },
    {
        let key = job_key(&plugin.id, track);
        match outcome {
            Outcome::Done(meta) => {
                if let Some(t) = catalog.store.get_track(track) {
                    let mut t = t;
                    extend_attrs(&mut t, &meta.attrs);
                    catalog.store.upsert_track(&t);
                    bus.send(CoreEvent::TrackUpdated(track));
                }
                self.status.remove(&key);
                self.failures.remove(&key);
                if let Some(u) = stream {
                    self.note_source(u.source.as_str(), false, now);
                }
                Ending::Done
            },
            Outcome::Skip => {
                if plugin.needs_audio && stream.is_none() && access == Access::Peek {
                    self.status.remove(&key);
                    return Ending::NoStream;
                }
                self.status.insert(key, ScanStatus::Skipped);
                catalog.announce(track, bus);
                Ending::Skipped
            },
            Outcome::Retry => {
                let stopped: bool = match stream {
                    Some(u) => match u.state {
                        StreamState::Cancelled => true,
                        StreamState::Connecting => true,
                        _ => false,
                    },
                    None => false,
                };
                if !wanted || stopped {
                    self.status.remove(&key);
                    return Ending::Abandoned;
                }
                self.status.insert(key.clone(), ScanStatus::Error);
                if access == Access::Fetch {
                    if let Some(u) = stream {
                        self.note_source(u.source.as_str(), true, now);
                    }
                }
                let before: u32 = match self.failures.get(&key) {
                    Some(f) => f.0,
                    None => 0,
                };
                let n: u32 = before.saturating_add(1);
                self.failures.insert(key, (n, now));
                if n >= FAILURE_THRESHOLD {
                    catalog.warn(&plugin.id, "scan keeps failing for some tracks \u{2014} see :log".to_owned(), bus);
                }
                Ending::Failed
            },
        }
    }
}

/// A track with more attributes; those of the same names are replaced.
pub open spec fn with_attrs(t: TrackView, attrs: Map<Seq<char>, String>) -> TrackView {
    TrackView { attrs: t.attrs.union_prefer_right(attrs), ..t }
}

fn extend_attrs(t: &mut Track, attrs: &StrMap<String>)
    ensures
        final(t)@ == with_attrs(old(t)@, attrs@),
{
    proof {
        use_type_invariant(attrs);
        attrs.keys_are_the_domain();
    }
    let ghost keys = attrs.keys();
    let ghost was = t.attrs@;
    let mut i: usize = 0;
    while i < attrs.len()
        invariant
            i <= keys.len(),
            keys == attrs.keys(),
            keys.len() == attrs.values().len(),
            t@ == (TrackView { attrs: t.attrs@, ..old(t)@ }),
            forall|k: Seq<char>|
                #[trigger] t.attrs@.dom().contains(k) <==> was.dom().contains(k) || (exists|j: int|
                    0 <= j < i && #[trigger] keys[j] == k),
            forall|j: int| 0 <= j < i ==> t.attrs@[#[trigger] keys[j]] == attrs.values()[j],
            forall|k: Seq<char>|
                #[trigger] t.attrs@.dom().contains(k) && !(exists|j: int| 0 <= j < i && #[trigger] keys[j] == k) ==> t.attrs@[k]
                    == was[k],
            keys.no_duplicates(),
        decreases keys.len() - i,
    {
        let k = attrs.key_at(i).clone();
        let v = attrs.value_at(i).clone();
        let ghost before = t.attrs@;
        let mut m: StrMap<String> = StrMap::new();
        std::mem::swap(&mut m, &mut t.attrs);
        m.insert(k, v);
        t.attrs = m;
        assert(keys[i as int] == k@);
        i = i + 1;
    }
    proof {
        let want = was.union_prefer_right(attrs@);
        assert forall|k: Seq<char>| t.attrs@.dom().contains(k) <==> want.dom().contains(k) by {
            if attrs@.dom().contains(k) {
                assert(keys.contains(k));
                let j = choose|j: int| 0 <= j < keys.len() && keys[j] == k;
                assert(keys[j] == k);
            }
            if exists|j: int| 0 <= j < i && #[trigger] keys[j] == k {
                assert(keys.contains(k));
            }
        }
        assert forall|k: Seq<char>| t.attrs@.dom().contains(k) implies t.attrs@[k] == want[k] by {
            if attrs@.dom().contains(k) {
                assert(keys.contains(k));
                let j = choose|j: int| 0 <= j < keys.len() && keys[j] == k;
                assert(t.attrs@[keys[j]] == attrs.values()[j]);
            } else {
                assert(!keys.contains(k));
            }
        }
        assert(t.attrs@ =~= want);
    }
}

/// What the walk was told since it last woke.
pub struct WalkInbox {
    pub dirty: Vec<TrackId>,
    pub rebuild: bool,
}

/// What the walk does now.
pub enum WalkStep {
    Run(WalkInbox),
    /// Sleep until then, or until told something.
    SleepUntil(u64),
    /// Sleep until told something.
    Sleep,
}

/// Whether the walk runs now.
pub open spec fn walk_due(d: DriverView, next_at: Option<u64>, earliest: u64, now: u64) -> bool {
    (next_at matches Some(t) && t <= now) || (d.woken && earliest <= now)
}

/// When the walk looks again, if it sleeps.
pub open spec fn walk_deadline(d: DriverView, next_at: Option<u64>, earliest: u64) -> Option<u64> {
    if d.woken {
        match next_at {
            Some(t) => Some(
                if earliest <= t {
                    earliest
                } else {
                    t
                },
            ),
            None => Some(earliest),
        }
    } else {
        next_at
    }
}

/// The first `n` tracks of a list from a row on, wrapping.
pub open spec fn rotated(v: Seq<TrackId>, start: int, n: int) -> Seq<TrackId>
    decreases n,
{
    if n <= 0 {
        seq![]
    } else {
        rotated(v, start, n - 1).push(v[(start + n - 1) % (v.len() as int)])
    }
}

/// The tracks that are wanted, each where it first stands.
pub open spec fn first_wanted(v: Seq<TrackId>, wanted: Set<u128>) -> Seq<TrackId>
    decreases v.len(),
{
    if v.len() == 0 {
        seq![]
    } else {
        let rest = first_wanted(v.drop_last(), wanted);
        if wanted.contains(v.last().0) && !rest.contains(v.last()) {
            rest.push(v.last())
        } else {
            rest
        }
    }
}

fn has_id(v: &Vec<TrackId>, id: TrackId) -> (r: bool)
    ensures
        r == v@.contains(id),
{
    let mut i: usize = 0;
    while i < v.len()
        invariant
            i <= v@.len(),
            forall|j: int| 0 <= j < i ==> v@[j] != id,
        decreases v@.len() - i,
    {
        if v[i] == id {
            return true;
        }
        i = i + 1;
    }
    false
}

impl ScanDriver {
    /// Whether the walk runs now, and with what it was told; else when it looks again.
    pub fn wait_walk(&mut self, next_at: Option<u64>, earliest: u64, now: u64) -> (r: WalkStep)
        ensures
            if walk_due(old(self)@, next_at, earliest, now) {
                &&& r matches WalkStep::Run(inbox) && inbox.dirty@ == old(self)@.dirty && inbox.rebuild
                    == old(self)@.rebuild
                &&& final(self)@ == (DriverView {
                    woken: false,
                    dirty: seq![],
                    rebuild: false,
                    ..old(self)@
                })
            } else {
                &&& final(self)@ == old(self)@
                &&& r == (match walk_deadline(old(self)@, next_at, earliest) {
                    Some(t) => WalkStep::SleepUntil(t),
                    None => WalkStep::Sleep,
                })
            },
    {
        let timer: bool = match next_at {
            Some(t) => t <= now,
            None => false,
        };
        if timer || (self.woken && earliest <= now) {
            let mut dirty: Vec<TrackId> = Vec::new();
            std::mem::swap(&mut dirty, &mut self.dirty);
            assert(self.dirty@ =~= seq![]);
            let rebuild: bool = self.rebuild;
            self.rebuild = false;
            self.woken = false;
            return WalkStep::Run(WalkInbox { dirty, rebuild });
        }
        if self.woken {
            match next_at {
                Some(t) => WalkStep::SleepUntil(
                    if earliest <= t {
                        earliest
                    } else {
                        t
                    },
                ),
                None => WalkStep::SleepUntil(earliest),
            }
        } else {
            match next_at {
                Some(t) => WalkStep::SleepUntil(t),
                None => WalkStep::Sleep,
            }
        }
    }

    /// The candidates in the order in which the walk tries them: those of the list that the user
    /// looks at, from their row on and wrapping; without a list all of them.
    pub fn walk_order(&self, candidates: &IdMap<()>) -> (r: Vec<TrackId>)
        requires
            self@.view matches Some((v, _)) ==> v.len() > 0,
        ensures
            match self@.view {
                Some((v, h)) => r@ == first_wanted(
                    rotated(v, h as int % (v.len() as int), v.len() as int),
                    candidates@.dom(),
                ),
                None => r@.no_duplicates() && forall|id: u128|
                    candidates@.dom().contains(id) <==> r@.contains(TrackId(id)),
            },
    {
        match &self.view {
            Some((v, h)) => {
                let n: usize = v.len();
                let start: usize = *h % n;
                let mut out: Vec<TrackId> = Vec::new();
                let mut k: usize = 0;
                while k < n
                    invariant
                        k <= n == v@.len(),
                        start < n,
                        out@ == first_wanted(rotated(v@, start as int, k as int), candidates@.dom()),
                    decreases n - k,
                {
                    let at: usize = if k < n - start {
                        start + k
                    } else {
                        k - (n - start)
                    };
                    proof {
                        assert((start + k) % (n as int) == at) by {
                            if start + k < n {
                                vstd::arithmetic::div_mod::lemma_small_mod((start + k) as nat, n as nat);
                            } else {
                                vstd::arithmetic::div_mod::lemma_mod_add_multiples_vanish(
                                    (start + k - n) as int,
                                    n as int,
                                );
                                vstd::arithmetic::div_mod::lemma_small_mod((start + k - n) as nat, n as nat);
                            }
                        }
                        let w = rotated(v@, start as int, k + 1);
                        assert(w.drop_last() =~= rotated(v@, start as int, k as int));
                        assert(w.last() == v@[at as int]);
                    }
                    let id = v[at];
                    if candidates.contains_key(id.0) && !has_id(&out, id) {
                        out.push(id);
                    }
                    k = k + 1;
                }
                out
            },
            None => {
                proof {
                    use_type_invariant(candidates);
                    candidates.keys_are_the_domain();
                }
                let ghost keys = candidates.keys();
                let mut out: Vec<TrackId> = Vec::new();
                let mut i: usize = 0;
                while i < candidates.len()
                    invariant
                        i <= keys.len(),
                        keys == candidates.keys(),
                        out@.len() == i,
                        forall|j: int| 0 <= j < i ==> out@[j] == TrackId(keys[j]),
                    decreases keys.len() - i,
                {
                    out.push(TrackId(candidates.key_at(i)));
                    i = i + 1;
                }
                proof {
                    assert forall|id: u128| candidates@.dom().contains(id) <==> out@.contains(TrackId(id)) by {
                        if candidates@.dom().contains(id) {
                            assert(keys.contains(id));
                            let j = choose|j: int| 0 <= j < keys.len() && keys[j] == id;
                            assert(out@[j] == TrackId(id));
                        }
                        if out@.contains(TrackId(id)) {
                            let j = choose|j: int| 0 <= j < out@.len() && out@[j] == TrackId(id);
                            assert(keys[j] == id);
                            assert(keys.contains(id));
                        }
                    }
                }
                out
            },
        }
    }

    /// The track that the worker for playing tracks takes next, with when it was put there.
    pub fn next_priority(&mut self) -> (r: Option<(TrackId, u64)>)
        ensures
            if old(self)@.priority.len() == 0 {
                r is None && final(self)@ == old(self)@
            } else {
                r == Some(old(self)@.priority[0]) && final(self)@ == (DriverView {
                    priority: old(self)@.priority.drop_first(),
                    ..old(self)@
                })
            },
    {
        if self.priority.len() == 0 {
            return None;
        }
        let first = self.priority.remove(0);
        assert(self.priority@ =~= old(self)@.priority.drop_first());
        Some(first)
    }

    /// Whether a playing track that is being analysed is still wanted.
    pub fn priority_wanted(&self, id: TrackId) -> (r: bool)
        ensures
            r == still_wanted(self@, id),
    {
        self.mode != ScanMode::Disabled && (self.priority.len() == 0 || self.priority[0].0 == id)
    }

    /// Puts a playing track back that had no stream yet, unless it has waited long enough or
    /// others wait; says whether it was.
    pub fn retry_priority(&mut self, id: TrackId, since: u64, waiting: bool, now: u64) -> (r: bool)
        ensures
            r == (waiting && still_wanted(old(self)@, id) && within(since, now, PRIORITY_RETRY_TIMEOUT)
                && old(self)@.priority.len() == 0),
            final(self)@ == (DriverView {
                priority: if r {
                    seq![(id, since)]
                } else {
                    old(self)@.priority
                },
                ..old(self)@
            }),
    {
        if !waiting || !self.priority_wanted(id) || !is_within(since, now, PRIORITY_RETRY_TIMEOUT) {
            return false;
        }
        if self.priority.len() == 0 {
            self.priority.push((id, since));
            assert(self.priority@ =~= seq![(id, since)]);
            true
        } else {
            false
        }
    }

    /// Keeps a download of the scan alive.
    pub fn hold(&mut self, source: &SourceId, uri: &str)
        ensures
            final(self)@ == (DriverView { held: old(self)@.held.push((source@, uri@)), ..old(self)@ }),
    {
        self.held.push((source.as_str().to_owned(), uri.to_owned()));
        assert(held_views(self.held@) =~= held_views(old(self).held@).push((source@, uri@)));
    }

    /// Lets go of a download that delivered nothing.
    pub fn release(&mut self, source: &SourceId, uri: &str)
        ensures
            final(self)@ == (DriverView {
                held: old(self)@.held.filter(other_download(source@, uri@)),
                ..old(self)@
            }),
    {
        let ghost all = held_views(self.held@);
        let ghost keep = other_download(source@, uri@);
        let mut out: Vec<(String, String)> = Vec::new();
        let mut i: usize = 0;
        proof {
            reveal(Seq::filter);
            assert(held_views(out@) =~= all.take(0).filter(keep));
        }
        while i < self.held.len()
            invariant
                i <= self.held@.len(),
                *self == *old(self),
                all == held_views(self.held@),
                keep == other_download(source@, uri@),
                held_views(out@) == all.take(i as int).filter(keep),
            decreases self.held@.len() - i,
        {
            proof {
                all.take(i as int).lemma_filter_push(all[i as int], keep);
                assert(all.take(i + 1) =~= all.take(i as int).push(all[i as int]));
            }
            let same: bool = crate::text::same_text(&self.held[i].0, source.as_str())
                && crate::text::same_text(&self.held[i].1, uri);
            if !same {
                let ghost before = out@;
                out.push((self.held[i].0.clone(), self.held[i].1.clone()));
                assert(held_views(out@) =~= held_views(before).push(all[i as int]));
            }
            i = i + 1;
        }
        assert(all.take(i as int) =~= all);
        self.held = out;
    }
}

pub open spec fn other_download(source: Seq<char>, uri: Seq<char>) -> spec_fn((Seq<char>, Seq<char>)) -> bool {
    |h: (Seq<char>, Seq<char>)| h != (source, uri)
}

pub open spec fn still_wanted(d: DriverView, id: TrackId) -> bool {
    d.mode != ScanMode::Disabled && (d.priority.len() == 0 || d.priority[0].0 == id)
}

/// The order in which renditions are opened: those in the cache first.
pub open spec fn cached_first(cached: Seq<bool>, n: int, want: bool) -> Seq<int>
    decreases n,
{
    if n <= 0 {
        seq![]
    } else {
        let rest = cached_first(cached, n - 1, want);
        if cached[n - 1] == want {
            rest.push(n - 1)
        } else {
            rest
        }
    }
}

/// What becomes of an attempt whose renditions are opened one after the other.
#[derive(Clone, Copy, PartialEq, Eq, Structural, Debug)]
pub enum OpenedStep {
    /// The rendition could not be opened: the next is tried.
    NextRendition,
    /// It is open: the plugin reads it.
    Ready,
    /// It was opened, but no byte came in time.
    Late,
}

impl ScanDriver {
    /// A rendition was opened, or could not be. `done` says of one that was opened whether it is
    /// whole already; a download that was started for the scan is kept alive.
    pub fn opened(&mut self, source: &SourceId, uri: &str, access: Access, opened: Option<bool>)
        ensures
            final(self)@ == (if access == Access::Fetch && opened == Some(false) {
                DriverView { held: old(self)@.held.push((source@, uri@)), ..old(self)@ }
            } else {
                old(self)@
            }),
    {
        if let Some(done) = opened {
            if access == Access::Fetch && !done {
                self.hold(source, uri);
            }
        }
    }

    /// The wait for the first byte is over; `came` says of a rendition that was opened whether
    /// the byte is there. A download that brought none is let go.
    pub fn first_byte(&mut self, source: &SourceId, uri: &str, came: Option<bool>) -> (r: OpenedStep)
        ensures
            r == (match came {
                None => OpenedStep::NextRendition,
                Some(true) => OpenedStep::Ready,
                Some(false) => OpenedStep::Late,
            }),
            final(self)@ == (if came == Some(false) {
                DriverView { held: old(self)@.held.filter(other_download(source@, uri@)), ..old(self)@ }
            } else {
                old(self)@
            }),
    {
        match came {
            None => OpenedStep::NextRendition,
            Some(there) => if there {
                OpenedStep::Ready
            } else {
                self.release(source, uri);
                OpenedStep::Late
            },
        }
    }
}

/// What the attempt ends with when no rendition is read: the first that was late, or nothing for
/// this plugin.
pub fn unopened_outcome(late: bool) -> (r: Outcome)
    ensures
        late ==> r is Retry,
        !late ==> r is Skip,
{
    if late {
        Outcome::Retry
    } else {
        Outcome::Skip
    }
}

/// The order in which renditions are opened, by whether each is in the cache.
pub fn opening_order(cached: &Vec<bool>) -> (r: Vec<usize>)
    ensures
        r@.map_values(|i: usize| i as int) == cached_first(cached@, cached@.len() as int, true) + cached_first(
            cached@,
            cached@.len() as int,
            false,
        ),
{
    let mut out: Vec<usize> = Vec::new();
    let ghost f = |i: usize| i as int;
    let mut i: usize = 0;
    assert(out@.map_values(f) =~= cached_first(cached@, 0, true));
    while i < cached.len()
        invariant
            i <= cached@.len(),
            f == (|i: usize| i as int),
            out@.map_values(f) == cached_first(cached@, i as int, true),
        decreases cached@.len() - i,
    {
        if cached[i] {
            let ghost before = out@;
            out.push(i);
            assert(out@.map_values(f) =~= before.map_values(f).push(i as int));
        }
        i = i + 1;
    }
    let ghost first = out@.map_values(f);
    let mut i: usize = 0;
    assert(out@.map_values(f) =~= first + cached_first(cached@, 0, false));
    while i < cached.len()
        invariant
            i <= cached@.len(),
            f == (|i: usize| i as int),
            out@.map_values(f) == first + cached_first(cached@, i as int, false),
        decreases cached@.len() - i,
    {
        if !cached[i] {
            let ghost before = out@;
            out.push(i);
            assert(out@.map_values(f) =~= before.map_values(f).push(i as int));
            assert(out@.map_values(f) =~= first + cached_first(cached@, i + 1, false));
        }
        i = i + 1;
    }
    out
}

/// Without a download of its own an attempt never starts one while another is kept alive, and
/// an attempt that may only peek never starts one.
pub proof fn one_download_at_a_time(d: DriverView, p: PluginView, t: TrackView, access: Access, has_stream: bool, now: u64)
    requires
        gate_of(d, p, t, access, has_stream, now) is Go,
    ensures
        gated(p, has_stream) ==> access == Access::Fetch && (d.held.len() == 0 || holds_one_of(
            d,
            t.renditions,
        )),
{
}

/// While the scan is disabled no plugin starts on any track, and none is dropped for good.
pub proof fn disabled_scans_start_nothing(d: DriverView, v: Seq<PluginView>, i: int, so_far: Verdict, t: TrackView, access: Access, has_stream: bool, now: u64)
    requires
        d.mode == ScanMode::Disabled,
    ensures
        picked_from(d, v, i, so_far, t, access, has_stream, now).1 is None,
        so_far == Verdict::Waiting ==> picked_from(d, v, i, so_far, t, access, has_stream, now).0 == Verdict::Waiting,
        forall|j: int|
            i <= j < v.len() && 0 <= i && so_far == Verdict::Nothing && (#[trigger] v[j]).needs && status_of(d, v[j].id, t.id)
                != Some(ScanStatus::Skipped) ==> picked_from(d, v, i, so_far, t, access, has_stream, now).0
                == Verdict::Waiting,
    decreases v.len() - i,
{
    if 0 <= i < v.len() {
        match gate_of(d, v[i], t, access, has_stream, now) {
            Gate::Go => {},
            Gate::Over => {
                disabled_scans_start_nothing(d, v, i + 1, so_far, t, access, has_stream, now);
            },
            Gate::Blocked(b) => {
                disabled_scans_start_nothing(d, v, i + 1, worse(so_far, b), t, access, has_stream, now);
            },
        }
    }
}

/// A track that was skipped is not tried again, and one that is being analysed is not started
/// twice.
pub proof fn no_attempt_is_repeated(d: DriverView, p: PluginView, t: TrackView, access: Access, has_stream: bool, now: u64)
    requires
        status_of(d, p.id, t.id) matches Some(st) && (st == ScanStatus::Skipped || st == ScanStatus::Downloading),
    ensures
        !(gate_of(d, p, t, access, has_stream, now) is Go),
{
}

/// After an attempt no plugin is left marked as running on the track.
pub proof fn settling_ends_the_attempt(d: DriverView, plugin: Seq<char>, t: TrackId, e: Ending, source: Option<Seq<char>>, access: Access, now: u64)
    ensures
        status_of(settled(d, plugin, t, e, source, access, now), plugin, t) != Some(ScanStatus::Downloading),
{
}

/// A track whose attempts keep failing is tried at most once in each cool-down.
pub proof fn failures_are_spaced(d: DriverView, p: PluginView, t: TrackView, access: Access, has_stream: bool, now: u64)
    requires
        gate_of(d, p, t, access, has_stream, now) is Go,
        d.failures.dom().contains(job_key_of(p.id, t.id)),
        now >= d.failures[job_key_of(p.id, t.id)].1,
    ensures
        now - d.failures[job_key_of(p.id, t.id)].1 >= retry_wait(d.failures[job_key_of(p.id, t.id)].0),
{
}

/// The order of the walk holds each wanted track of the list once, and nothing else.
pub proof fn walk_order_is_complete(v: Seq<TrackId>, wanted: Set<u128>)
    ensures
        first_wanted(v, wanted).no_duplicates(),
        forall|id: TrackId|
            first_wanted(v, wanted).contains(id) <==> #[trigger] v.contains(id) && wanted.contains(id.0),
    decreases v.len(),
{
    if v.len() > 0 {
        let w = v.drop_last();
        walk_order_is_complete(w, wanted);
        let rest = first_wanted(w, wanted);
        let all = first_wanted(v, wanted);
        assert forall|id: TrackId| all.contains(id) <==> #[trigger] v.contains(id) && wanted.contains(id.0) by {
            if v.contains(id) {
                let i = choose|i: int| 0 <= i < v.len() && v[i] == id;
                if i < w.len() {
                    assert(w[i] == id);
                }
            }
            if w.contains(id) {
                let i = choose|i: int| 0 <= i < w.len() && w[i] == id;
                assert(v[i] == id);
            }
            assert(v[v.len() - 1] == v.last());
            if rest.contains(id) {
                assert(w.contains(id));
                let i = choose|i: int| 0 <= i < rest.len() && rest[i] == id;
                assert(all[i] == id);
            }
            if all.contains(id) {
                let i = choose|i: int| 0 <= i < all.len() && all[i] == id;
                if i < rest.len() {
                    assert(rest[i] == id);
                    assert(w.contains(id));
                }
            }
            if v.contains(id) && wanted.contains(id.0) && !w.contains(id) {
                assert(id == v.last());
                assert(all[all.len() - 1] == id);
            }
        }
    }
}

/// The tracks that some plugin still needs, and when the walk comes by again.
pub struct Walk {
    pub candidates: IdMap<()>,
    pub next_at: Option<u64>,
    pub earliest: u64,
}

/// The candidates after tracks were read again, each with whether it is needed.
pub open spec fn reread(c: Set<u128>, dirty: Seq<(TrackId, bool)>) -> Set<u128>
    decreases dirty.len(),
{
    if dirty.len() == 0 {
        c
    } else {
        let before = reread(c, dirty.drop_last());
        let (id, needed) = dirty.last();
        if needed {
            before.insert(id.0)
        } else {
            before.remove(id.0)
        }
    }
}

/// The identifiers of a row of tracks.
pub open spec fn id_set(v: Seq<TrackId>) -> Set<u128>
    decreases v.len(),
{
    if v.len() == 0 {
        Set::empty()
    } else {
        id_set(v.drop_last()).insert(v.last().0)
    }
}

pub open spec fn sooner(a: Option<u64>, t: u64) -> u64 {
    match a {
        Some(n) => if n <= t {
            n
        } else {
            t
        },
        None => t,
    }
}

impl Walk {
    pub fn new(now: u64) -> (r: Walk)
        ensures
            r.candidates@.dom() == Set::<u128>::empty(),
            r.next_at is None,
            r.earliest == now,
    {
        let candidates: IdMap<()> = IdMap::new();
        assert(candidates@.dom() =~= Set::empty());
        Walk { candidates, next_at: None, earliest: now }
    }

    /// Starts a pass: `rebuilt` are the tracks that are needed where the whole library was read
    /// again, `dirty` those that were read again, each with whether it is needed.
    pub fn begin(&mut self, rebuilt: &Option<Vec<TrackId>>, dirty: &Vec<(TrackId, bool)>, now: u64)
        ensures
            final(self).candidates@.dom() == reread(
                match *rebuilt {
                    Some(v) => id_set(v@),
                    None => old(self).candidates@.dom(),
                },
                dirty@,
            ),
            final(self).next_at is None,
            final(self).earliest == plus(now, PASS_SPACING),
    {
        if let Some(v) = rebuilt {
            let mut c: IdMap<()> = IdMap::new();
            let mut i: usize = 0;
            assert(c@.dom() =~= Set::empty());
            assert(v@.take(0) =~= seq![]);
            while i < v.len()
                invariant
                    i <= v@.len(),
                    c@.dom() == id_set(v@.take(i as int)),
                decreases v@.len() - i,
            {
                assert(v@.take(i + 1).drop_last() =~= v@.take(i as int));
                let ghost before = c@.dom();
                c.insert(v[i].0, ());
                assert(c@.dom() =~= before.insert(v@[i as int].0));
                i = i + 1;
            }
            assert(v@.take(i as int) =~= v@);
            self.candidates = c;
        }
        let ghost base = self.candidates@.dom();
        let mut i: usize = 0;
        assert(dirty@.take(0) =~= seq![]);
        while i < dirty.len()
            invariant
                i <= dirty@.len(),
                self.candidates@.dom() == reread(base, dirty@.take(i as int)),
            decreases dirty@.len() - i,
        {
            assert(dirty@.take(i + 1).drop_last() =~= dirty@.take(i as int));
            let (id, needed) = dirty[i];
            let ghost before = self.candidates@.dom();
            if needed {
                self.candidates.insert(id.0, ());
                assert(self.candidates@.dom() =~= before.insert(id.0));
            } else {
                self.candidates.remove(id.0);
                assert(self.candidates@.dom() =~= before.remove(id.0));
            }
            i = i + 1;
        }
        assert(dirty@.take(i as int) =~= dirty@);
        self.next_at = None;
        self.earliest = now.saturating_add(PASS_SPACING);
    }

    /// Takes what an attempt at a candidate came to; says whether the pass is over.
    pub fn after(&mut self, id: TrackId, verdict: Verdict, driver: &mut ScanDriver) -> (stop: bool)
        ensures
            stop == (verdict is Attempted),
            final(self).earliest == old(self).earliest,
            final(self).next_at == (match verdict {
                Verdict::NotBefore(t) => Some(sooner(old(self).next_at, t)),
                _ => old(self).next_at,
            }),
            final(self).candidates@.dom() == (if verdict is Nothing {
                old(self).candidates@.dom().remove(id.0)
            } else {
                old(self).candidates@.dom()
            }),
            final(driver)@ == (if stop {
                DriverView { dirty: old(driver)@.dirty.push(id), woken: true, ..old(driver)@ }
            } else {
                old(driver)@
            }),
    {
        match verdict {
            Verdict::Attempted => {
                driver.track_changed(id);
                true
            },
            Verdict::NotBefore(t) => {
                self.next_at = Some(
                    match self.next_at {
                        Some(n) => if n <= t {
                            n
                        } else {
                            t
                        },
                        None => t,
                    },
                );
                false
            },
            Verdict::Waiting => false,
            Verdict::Nothing => {
                self.candidates.remove(id.0);
                assert(self.candidates@.dom() =~= old(self).candidates@.dom().remove(id.0));
                false
            },
        }
    }
}

} // verus!
