//! Events between the parts of the player, and the buffer they wait in.

use vstd::prelude::*;
use crate::traits::BrowseNode;
use crate::types::{ItemKind, SourceId, TrackId};

verus! {

/// What a player reports.
#[derive(Debug)]
pub enum PlayerEvent {
    Loading { source: SourceId, uri: String },
    Playing { source: SourceId, uri: String },
    Paused,
    Stopped,
    Progress { position_ms: u32, duration_ms: u32 },
    Finished { source: SourceId, uri: String },
    /// The rendition is close to its end.
    PreloadHint { source: SourceId, uri: String },
    /// A load failed after playback had settled on it.
    LoadFailed { source: SourceId, uri: String },
    /// The whole rendition is on disk.
    Materialized { source: SourceId, uri: String },
}

/// How a change of a remote list ended, with what to say of it.
#[derive(Debug)]
pub enum MembershipOutcome {
    Changed(String),
    Failed(String),
}

/// What happened somewhere in the player.
#[derive(Debug)]
pub enum CoreEvent {
    SearchHit { search: u64, track: TrackId },
    SearchDone { search: u64, source: SourceId },
    SearchCollection { search: u64, source: SourceId, kind: ItemKind, name: String, node: BrowseNode },
    TrackUpdated(TrackId),
    QueueChanged,
    /// Playlists were added or changed.
    PlaylistsChanged,
    /// The queue moved on to this track and wants it played.
    PlayRequested(TrackId),
    Player(PlayerEvent),
    /// The wait of a skip is over.
    DeferredLoad(u64),
    /// The audio of this track is in the cache now.
    CacheFallbackReady(TrackId),
    /// A plugin's health may have changed.
    PluginStatusChanged,
    /// A login finished; the screen is drawn anew.
    PluginLoginSucceeded,
    /// Work in the background failed.
    BackgroundFailure { context: String, message: String },
    /// An update finished, with its message or why it failed.
    UpdateResult(Result<String, String>),
    /// A change of a remote playlist settled.
    MembershipResult(MembershipOutcome),
    /// A like of a track, or the end of one, settled.
    LikeResult { track: TrackId, like: bool, outcome: MembershipOutcome },
    /// A line of a running setup's log.
    SetupLine { id: SourceId, run: u64, line: String },
    /// What a plugin's command had to say.
    PluginReport(String),
}

/// The events that wait for the front-end, and whether it was woken for them.
pub struct Bus {
    events: Vec<CoreEvent>,
    /// There is a front-end to wake.
    sink: bool,
    wake_pending: bool,
}

impl View for Bus {
    type V = Seq<CoreEvent>;

    closed spec fn view(&self) -> Seq<CoreEvent> {
        self.events@
    }
}

impl Bus {
    /// Whether there is a front-end to wake.
    pub closed spec fn has_sink(&self) -> bool {
        self.sink
    }

    /// Whether a wake-up is on its way.
    pub closed spec fn woken(&self) -> bool {
        self.wake_pending
    }

    /// A bus without a front-end to wake.
    pub fn new() -> (r: Bus)
        ensures
            r@ == Seq::<CoreEvent>::empty(),
            !r.has_sink(),
            !r.woken(),
    {
        Bus { events: Vec::new(), sink: false, wake_pending: false }
    }

    /// A bus whose `send` asks for a wake-up when none is on its way.
    pub fn with_sink() -> (r: Bus)
        ensures
            r@ == Seq::<CoreEvent>::empty(),
            r.has_sink(),
            !r.woken(),
    {
        Bus { events: Vec::new(), sink: true, wake_pending: false }
    }

    /// Adds an event. Tells whether the front-end must be woken now: once for all events until
    /// `clear_wake`.
    pub fn send(&mut self, ev: CoreEvent) -> (wake: bool)
        ensures
            final(self)@ == old(self)@.push(ev),
            final(self).has_sink() == old(self).has_sink(),
            wake == (old(self).has_sink() && !old(self).woken()),
            final(self).woken() == (old(self).woken() || wake),
    {
        self.events.push(ev);
        if self.sink && !self.wake_pending {
            self.wake_pending = true;
            true
        } else {
            false
        }
    }

    /// The next `send` asks for a wake-up again.
    pub fn clear_wake(&mut self)
        ensures
            final(self)@ == old(self)@,
            final(self).has_sink() == old(self).has_sink(),
            !final(self).woken(),
    {
        self.wake_pending = false;
    }

    /// All waiting events, oldest first.
    pub fn drain(&mut self) -> (r: Vec<CoreEvent>)
        ensures
            r@ == old(self)@,
            final(self)@ == Seq::<CoreEvent>::empty(),
            final(self).has_sink() == old(self).has_sink(),
            final(self).woken() == old(self).woken(),
    {
        let mut out: Vec<CoreEvent> = Vec::new();
        std::mem::swap(&mut out, &mut self.events);
        out
    }
}

} // verus!
