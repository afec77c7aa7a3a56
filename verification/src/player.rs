//! Players: what a player shows of itself, the silent player that only keeps time, and the
//! decisions of the player with an audio device.

use vstd::prelude::*;
use crate::event::PlayerEvent;
use crate::stream::{PhaseView, StreamInfo, StreamState};
use crate::traits::{PlayerState, PlayerStatus};
use crate::types::SourceId;

verus! {

/// What a player last did, apart from the volume and the sound itself.
#[derive(Debug)]
pub struct Snapshot {
    pub state: PlayerState,
    pub position_ms: u32,
    pub duration_ms: u32,
    pub source: Option<SourceId>,
    pub uri: Option<String>,
    /// Playback is paused until more is downloaded.
    pub buffering: bool,
}

/// The player waits for the first bytes, or for more of them.
pub open spec fn waits(p: PhaseView) -> bool {
    p is Connecting || p is Buffering
}

/// More of the track is on its way to the disk.
pub open spec fn downloads(p: PhaseView) -> bool {
    p is Connecting || p is Fetching || p is Buffering || p is Committing
}

/// What a player reports: a wait of the stream is a wait of the player, and the share on disk
/// is told only while it grows.
pub open spec fn status_of(s: Snapshot, stream: Option<StreamInfo>) -> PlayerStatus {
    PlayerStatus {
        state: s.state,
        position_ms: s.position_ms,
        duration_ms: s.duration_ms,
        buffering: s.buffering || (stream is Some && waits(stream->0.state@)),
        download_pct: match stream {
            Some(i) => if downloads(i.state@) {
                i.percent
            } else {
                None
            },
            None => None,
        },
    }
}

impl Default for Snapshot {
    fn default() -> (r: Snapshot)
        ensures
            r == (Snapshot {
                state: PlayerState::Stopped,
                position_ms: 0,
                duration_ms: 0,
                source: None,
                uri: None,
                buffering: false,
            }),
    {
        Snapshot {
            state: PlayerState::Stopped,
            position_ms: 0,
            duration_ms: 0,
            source: None,
            uri: None,
            buffering: false,
        }
    }
}

impl Snapshot {
    /// What a player reports while it plays from `stream`.
    pub fn status(&self, stream: Option<StreamInfo>) -> (r: PlayerStatus)
        ensures
            r == status_of(*self, stream),
    {
        let mut buffering = self.buffering;
        let mut download_pct: Option<u8> = None;
        if let Some(i) = &stream {
            match i.state {
                StreamState::Connecting | StreamState::Buffering => {
                    buffering = true;
                    download_pct = i.percent;
                },
                StreamState::Fetching | StreamState::Committing => {
                    download_pct = i.percent;
                },
                _ => {},
            }
        }
        PlayerStatus {
            state: self.state,
            position_ms: self.position_ms,
            duration_ms: self.duration_ms,
            buffering,
            download_pct,
        }
    }
}

/// A player without a device: it tells the events of a playback of a fixed length, each with
/// the rendition that it was given.
#[derive(Debug)]
pub struct NullPlayer {
    pub shown: Snapshot,
    pub fake_len_ms: u32,
    /// Grows with every load and every stop; a playback of an older number has been replaced.
    pub generation: u64,
}

/// How far a third of the playback is.
pub open spec fn third(len: u32, n: int) -> u32 {
    (len * n / 3) as u32
}

/// The events of the start of a playback.
pub open spec fn start_events(source: SourceId, uri: String, start_paused: bool) -> Seq<PlayerEvent> {
    if start_paused {
        seq![PlayerEvent::Loading { source, uri }]
    } else {
        seq![PlayerEvent::Loading { source, uri }, PlayerEvent::Playing { source, uri }]
    }
}

/// The state and the events after the third `n` of the playback with this number.
pub open spec fn null_step(p: NullPlayer, generation: u64, n: int) -> (NullPlayer, Seq<PlayerEvent>) {
    if p.generation != generation {
        (p, seq![])
    } else if n < 3 {
        (
            NullPlayer { shown: Snapshot { position_ms: third(p.fake_len_ms, n), ..p.shown }, ..p },
            seq![PlayerEvent::Progress {
                position_ms: third(p.fake_len_ms, n),
                duration_ms: p.fake_len_ms,
            }],
        )
    } else {
        (
            NullPlayer {
                shown: Snapshot { state: PlayerState::Stopped, position_ms: 0, ..p.shown },
                ..p
            },
            match (p.shown.source, p.shown.uri) {
                (Some(source), Some(uri)) => seq![PlayerEvent::Finished { source, uri }],
                _ => seq![],
            },
        )
    }
}

impl NullPlayer {
    /// Twice the length is a 32-bit number.
    pub open spec fn wf(self) -> bool {
        3 <= self.fake_len_ms && self.fake_len_ms * 2 <= u32::MAX
    }

    /// A silent player whose tracks are `fake_len_ms` long, and at least 3 ms.
    pub fn new(fake_len_ms: u32) -> (r: NullPlayer)
        requires
            fake_len_ms * 2 <= u32::MAX,
        ensures
            r.wf(),
            r.fake_len_ms == (if fake_len_ms < 3 {
                3
            } else {
                fake_len_ms
            }),
            r.generation == 0,
            r.shown.state == PlayerState::Stopped,
            r.shown.position_ms == 0,
            r.shown.duration_ms == 0,
            r.shown.source is None,
            r.shown.uri is None,
            !r.shown.buffering,
    {
        let len: u32 = if fake_len_ms < 3 {
            3
        } else {
            fake_len_ms
        };
        NullPlayer { shown: Snapshot::default(), fake_len_ms: len, generation: 0 }
    }

    /// How long each third takes.
    pub fn step_ms(&self) -> (r: u64)
        requires
            self.wf(),
        ensures
            r == self.fake_len_ms / 3,
            r >= 1,
    {
        (self.fake_len_ms / 3) as u64
    }

    /// Starts a playback. Gives its number and its first events.
    pub fn load(&mut self, source: &SourceId, uri: &String, start_paused: bool, position_ms: u32) -> (r: (
        u64,
        Vec<PlayerEvent>,
    ))
        requires
            old(self).generation < u64::MAX,
        ensures
            r.0 == old(self).generation + 1,
            final(self).generation == r.0,
            final(self).fake_len_ms == old(self).fake_len_ms,
            final(self).shown == (Snapshot {
                state: if start_paused {
                    PlayerState::Paused
                } else {
                    PlayerState::Playing
                },
                position_ms,
                duration_ms: old(self).fake_len_ms,
                source: Some(*source),
                uri: Some(*uri),
                buffering: old(self).shown.buffering,
            }),
            r.1@ == start_events(*source, *uri, start_paused),
    {
        self.generation = self.generation + 1;
        self.shown.source = Some(source.clone());
        self.shown.uri = Some(uri.clone());
        self.shown.position_ms = position_ms;
        self.shown.duration_ms = self.fake_len_ms;
        self.shown.state = if start_paused {
            PlayerState::Paused
        } else {
            PlayerState::Playing
        };
        let mut events: Vec<PlayerEvent> = Vec::new();
        events.push(PlayerEvent::Loading { source: source.clone(), uri: uri.clone() });
        if !start_paused {
            events.push(PlayerEvent::Playing { source: source.clone(), uri: uri.clone() });
        }
        assert(events@ =~= start_events(*source, *uri, start_paused));
        (self.generation, events)
    }

    /// The end of the third `n` of the playback with this number.
    pub fn step(&mut self, generation: u64, n: u32) -> (events: Vec<PlayerEvent>)
        requires
            old(self).wf(),
            1 <= n <= 3,
        ensures
            (*final(self), events@) == null_step(*old(self), generation, n as int),
    {
        let mut events: Vec<PlayerEvent> = Vec::new();
        if self.generation == generation {
            if n < 3 {
                let len: u32 = self.fake_len_ms;
                assert(len * n <= len * 2) by (nonlinear_arith)
                    requires
                        n < 3,
                ;
                let pos: u32 = len * n / 3;
                self.shown.position_ms = pos;
                events.push(PlayerEvent::Progress { position_ms: pos, duration_ms: len });
            } else {
                self.shown.state = PlayerState::Stopped;
                self.shown.position_ms = 0;
                if let Some(source) = &self.shown.source {
                    if let Some(uri) = &self.shown.uri {
                        events.push(PlayerEvent::Finished { source: source.clone(), uri: uri.clone() });
                    }
                }
            }
        }
        assert(events@ =~= null_step(*old(self), generation, n as int).1);
        events
    }

    /// Pauses what plays and plays what is paused.
    pub fn toggle(&mut self) -> (events: Vec<PlayerEvent>)
        ensures
            final(self).generation == old(self).generation,
            final(self).fake_len_ms == old(self).fake_len_ms,
            final(self).shown == (Snapshot {
                state: if old(self).shown.source is None || old(self).shown.uri is None {
                    old(self).shown.state
                } else {
                    match old(self).shown.state {
                        PlayerState::Playing => PlayerState::Paused,
                        PlayerState::Paused => PlayerState::Playing,
                        PlayerState::Stopped => PlayerState::Stopped,
                    }
                },
                ..old(self).shown
            }),
            events@ == (match (old(self).shown.source, old(self).shown.uri, old(self).shown.state) {
                (Some(_), Some(_), PlayerState::Playing) => seq![PlayerEvent::Paused],
                (Some(source), Some(uri), PlayerState::Paused) => seq![
                    PlayerEvent::Playing { source, uri },
                ],
                _ => seq![],
            }),
    {
        let mut events: Vec<PlayerEvent> = Vec::new();
        if let Some(source) = &self.shown.source {
            if let Some(uri) = &self.shown.uri {
                match self.shown.state {
                    PlayerState::Playing => {
                        self.shown.state = PlayerState::Paused;
                        events.push(PlayerEvent::Paused);
                    },
                    PlayerState::Paused => {
                        events.push(PlayerEvent::Playing { source: source.clone(), uri: uri.clone() });
                        self.shown.state = PlayerState::Playing;
                    },
                    PlayerState::Stopped => {},
                }
            }
        }
        events
    }

    /// Moves the position.
    pub fn seek(&mut self, position_ms: u32) -> (events: Vec<PlayerEvent>)
        ensures
            *final(self) == (NullPlayer { shown: Snapshot { position_ms, ..old(self).shown }, ..*old(self) }),
            events@ == seq![
                PlayerEvent::Progress { position_ms, duration_ms: old(self).shown.duration_ms },
            ],
    {
        self.shown.position_ms = position_ms;
        let mut events: Vec<PlayerEvent> = Vec::new();
        events.push(PlayerEvent::Progress { position_ms, duration_ms: self.shown.duration_ms });
        assert(events@ =~= seq![
            PlayerEvent::Progress { position_ms, duration_ms: old(self).shown.duration_ms },
        ]);
        events
    }

    /// Ends the playback.
    pub fn stop(&mut self) -> (events: Vec<PlayerEvent>)
        requires
            old(self).generation < u64::MAX,
        ensures
            *final(self) == (NullPlayer {
                shown: Snapshot { state: PlayerState::Stopped, position_ms: 0, ..old(self).shown },
                generation: (old(self).generation + 1) as u64,
                ..*old(self)
            }),
            events@ == seq![PlayerEvent::Stopped],
    {
        self.generation = self.generation + 1;
        self.shown.state = PlayerState::Stopped;
        self.shown.position_ms = 0;
        let mut events: Vec<PlayerEvent> = Vec::new();
        events.push(PlayerEvent::Stopped);
        assert(events@ =~= seq![PlayerEvent::Stopped]);
        events
    }

    pub fn status(&self) -> (r: PlayerStatus)
        ensures
            r == status_of(self.shown, None),
    {
        self.shown.status(None)
    }
}

/// A playback that nothing replaces tells two positions and then its end, and the player has
/// stopped.
pub proof fn a_playback_runs_to_its_end(p: NullPlayer, source: SourceId, uri: String)
    requires
        p.wf(),
        p.shown.source == Some(source),
        p.shown.uri == Some(uri),
    ensures
        ({
            let one = null_step(p, p.generation, 1);
            let two = null_step(one.0, p.generation, 2);
            let end = null_step(two.0, p.generation, 3);
            &&& one.1 == seq![
                PlayerEvent::Progress { position_ms: third(p.fake_len_ms, 1), duration_ms: p.fake_len_ms },
            ]
            &&& two.1 == seq![
                PlayerEvent::Progress { position_ms: third(p.fake_len_ms, 2), duration_ms: p.fake_len_ms },
            ]
            &&& end.1 == seq![PlayerEvent::Finished { source, uri }]
            &&& end.0.shown.state == PlayerState::Stopped
            &&& end.0.shown.position_ms == 0
        }),
{
}

/// A playback that a later load or stop replaced is silent and moves nothing.
pub proof fn a_replaced_playback_is_silent(p: NullPlayer, generation: u64, n: int)
    requires
        generation < p.generation,
    ensures
        null_step(p, generation, n) == (p, Seq::<PlayerEvent>::empty()),
{
}

} // verus!
