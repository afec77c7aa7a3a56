//! The decisions of the thread that owns the audio device: which load counts, what is told of
//! it, and when a track has come to its end.

use vstd::prelude::*;
use crate::event::PlayerEvent;
use crate::player::Snapshot;
use crate::traits::PlayerState;
use crate::types::SourceId;

verus! {

/// How long the worker waits for a command before it looks at the position, in milliseconds.
pub const PROGRESS_INTERVAL: u64 = 500;

/// What the worker knows beside the sound.
pub struct Worker {
    /// There is an audio device.
    pub device: bool,
    /// A track has been handed to the device.
    pub sink: bool,
    /// The rendition that every event carries.
    pub playing: Option<(SourceId, String)>,
    pub duration_ms: u32,
    /// Grows with every load and every stop; a load of an older number has been replaced.
    pub generation: u64,
    /// The end of the track has been told, or a load is under way.
    pub finished_sent: bool,
    pub shown: Snapshot,
}

/// What to do with a rendition to load.
#[derive(Clone, Copy, PartialEq, Eq, Structural, Debug)]
pub enum LoadStep {
    /// There is no device: report the load as failed without opening it.
    NoDevice,
    /// Open it in the background and report back with the number of the load.
    Open,
}

/// What to do with an opened rendition.
#[derive(Clone, Copy, PartialEq, Eq, Structural, Debug)]
pub enum LoadedStep {
    /// Another load or a stop came first.
    Stale,
    Failed,
    /// Play it from `from_ms`, paused or not.
    Start { from_ms: u32, pause: bool },
}

/// What to do with the sound.
#[derive(Clone, Copy, PartialEq, Eq, Structural, Debug)]
pub enum SinkStep {
    Play,
    Pause,
    Leave,
}

/// The worker once a load has begun.
pub open spec fn load_begun(w: Worker, source: SourceId, uri: String, position_ms: u32) -> Worker {
    Worker {
        generation: (w.generation + 1) as u64,
        finished_sent: true,
        playing: Some((source, uri)),
        shown: Snapshot {
            source: Some(source),
            uri: Some(uri),
            position_ms,
            duration_ms: 0,
            state: PlayerState::Playing,
            ..w.shown
        },
        ..w
    }
}

/// The worker once a load has failed.
pub open spec fn load_failed(w: Worker) -> Worker {
    Worker {
        sink: false,
        playing: None,
        shown: Snapshot { state: PlayerState::Stopped, position_ms: 0, ..w.shown },
        ..w
    }
}

/// The worker once a load is played.
pub open spec fn load_played(w: Worker, duration_ms: u32, start_paused: bool, position_ms: u32) -> Worker {
    let shown = Snapshot { duration_ms, ..w.shown };
    Worker {
        sink: true,
        finished_sent: false,
        duration_ms,
        shown: if start_paused {
            Snapshot { state: PlayerState::Paused, position_ms, ..shown }
        } else {
            shown
        },
        ..w
    }
}

/// What comes of a load that reports back: the worker, the events, and what to do.
pub open spec fn load_result(
    w: Worker,
    generation: u64,
    source: SourceId,
    uri: String,
    start_paused: bool,
    position_ms: u32,
    opened: Option<u32>,
) -> (Worker, Seq<PlayerEvent>, LoadedStep) {
    if generation != w.generation {
        (w, seq![], LoadedStep::Stale)
    } else {
        match opened {
            Some(duration_ms) if w.device => (
                load_played(w, duration_ms, start_paused, position_ms),
                if start_paused {
                    seq![PlayerEvent::Playing { source, uri }, PlayerEvent::Paused]
                } else {
                    seq![PlayerEvent::Playing { source, uri }]
                },
                LoadedStep::Start { from_ms: position_ms, pause: start_paused },
            ),
            _ => (load_failed(w), seq![PlayerEvent::LoadFailed { source, uri }], LoadedStep::Failed),
        }
    }
}

/// The worker and the events after a look at the sound.
pub open spec fn ticked(w: Worker, paused: bool, pos: u32, empty: bool) -> (Worker, Seq<PlayerEvent>) {
    match w.playing {
        Some((source, uri)) if w.sink && !paused => {
            let told = PlayerEvent::Progress { position_ms: pos, duration_ms: w.duration_ms };
            if empty && !w.finished_sent {
                (
                    Worker {
                        finished_sent: true,
                        shown: Snapshot { state: PlayerState::Stopped, position_ms: 0, ..w.shown },
                        ..w
                    },
                    seq![told, PlayerEvent::Finished { source, uri }],
                )
            } else {
                (Worker { shown: Snapshot { position_ms: pos, ..w.shown }, ..w }, seq![told])
            }
        },
        _ => (w, seq![]),
    }
}

impl Worker {
    /// A worker that has played nothing yet.
    pub fn new(device: bool) -> (r: Worker)
        ensures
            r.device == device,
            !r.sink,
            r.playing is None,
            r.duration_ms == 0,
            r.generation == 0,
            !r.finished_sent,
            r.shown.state == PlayerState::Stopped,
            r.shown.position_ms == 0,
            r.shown.duration_ms == 0,
            r.shown.source is None,
            r.shown.uri is None,
            !r.shown.buffering,
    {
        Worker {
            device,
            sink: false,
            playing: None,
            duration_ms: 0,
            generation: 0,
            finished_sent: false,
            shown: Snapshot::default(),
        }
    }

    /// Begins a load. The sound of the track before goes on until the load reports back.
    pub fn load(&mut self, source: &SourceId, uri: &String, position_ms: u32) -> (r: (
        u64,
        Vec<PlayerEvent>,
        LoadStep,
    ))
        requires
            old(self).generation < u64::MAX,
        ensures
            *final(self) == load_begun(*old(self), *source, *uri, position_ms),
            r.0 == final(self).generation,
            r.1@ == seq![PlayerEvent::Loading { source: *source, uri: *uri }],
            r.2 == (if old(self).device {
                LoadStep::Open
            } else {
                LoadStep::NoDevice
            }),
    {
        self.generation = self.generation + 1;
        self.finished_sent = true;
        self.playing = Some((source.clone(), uri.clone()));
        self.shown.source = Some(source.clone());
        self.shown.uri = Some(uri.clone());
        self.shown.position_ms = position_ms;
        self.shown.duration_ms = 0;
        self.shown.state = PlayerState::Playing;
        let mut events: Vec<PlayerEvent> = Vec::new();
        events.push(PlayerEvent::Loading { source: source.clone(), uri: uri.clone() });
        assert(events@ =~= seq![PlayerEvent::Loading { source: *source, uri: *uri }]);
        let step = if self.device {
            LoadStep::Open
        } else {
            LoadStep::NoDevice
        };
        (self.generation, events, step)
    }

    /// A load reports back: with its length when it can be played.
    pub fn loaded(
        &mut self,
        generation: u64,
        source: SourceId,
        uri: String,
        start_paused: bool,
        position_ms: u32,
        opened: Option<u32>,
    ) -> (r: (Vec<PlayerEvent>, LoadedStep))
        ensures
            (*final(self), r.0@, r.1) == load_result(
                *old(self),
                generation,
                source,
                uri,
                start_paused,
                position_ms,
                opened,
            ),
    {
        let mut events: Vec<PlayerEvent> = Vec::new();
        if generation != self.generation {
            assert(events@ =~= seq![]);
            return (events, LoadedStep::Stale);
        }
        if self.device {
            if let Some(duration_ms) = opened {
                self.duration_ms = duration_ms;
                self.sink = true;
                self.finished_sent = false;
                self.shown.duration_ms = duration_ms;
                let ghost told = PlayerEvent::Playing { source, uri };
                events.push(PlayerEvent::Playing { source, uri });
                if start_paused {
                    self.shown.state = PlayerState::Paused;
                    self.shown.position_ms = position_ms;
                    events.push(PlayerEvent::Paused);
                    assert(events@ =~= seq![told, PlayerEvent::Paused]);
                } else {
                    assert(events@ =~= seq![told]);
                }
                return (events, LoadedStep::Start { from_ms: position_ms, pause: start_paused });
            }
        }
        self.sink = false;
        self.playing = None;
        self.shown.state = PlayerState::Stopped;
        self.shown.position_ms = 0;
        let ghost told = PlayerEvent::LoadFailed { source, uri };
        events.push(PlayerEvent::LoadFailed { source, uri });
        assert(events@ =~= seq![told]);
        (events, LoadedStep::Failed)
    }

    /// Pauses the sound, or plays it when it is paused.
    pub fn toggle(&mut self, paused: bool) -> (r: (Vec<PlayerEvent>, SinkStep))
        ensures
            *final(self) == (Worker { shown: final(self).shown, ..*old(self) }),
            match old(self).playing {
                Some((source, uri)) if old(self).sink => {
                    &&& r.1 == (if paused {
                        SinkStep::Play
                    } else {
                        SinkStep::Pause
                    })
                    &&& r.0@ == (if paused {
                        seq![PlayerEvent::Playing { source, uri }]
                    } else {
                        seq![PlayerEvent::Paused]
                    })
                    &&& final(self).shown == (Snapshot {
                        state: if paused {
                            PlayerState::Playing
                        } else {
                            PlayerState::Paused
                        },
                        ..old(self).shown
                    })
                },
                _ => *final(self) == *old(self) && r.0@.len() == 0 && r.1 == SinkStep::Leave,
            },
    {
        let mut events: Vec<PlayerEvent> = Vec::new();
        if self.sink {
            if let Some(p) = &self.playing {
                if paused {
                    events.push(PlayerEvent::Playing { source: p.0.clone(), uri: p.1.clone() });
                    self.shown.state = PlayerState::Playing;
                    return (events, SinkStep::Play);
                }
                events.push(PlayerEvent::Paused);
                self.shown.state = PlayerState::Paused;
                return (events, SinkStep::Pause);
            }
        }
        (events, SinkStep::Leave)
    }

    /// A seek of the sound was carried out or not.
    pub fn sought(&mut self, position_ms: u32, done: bool)
        ensures
            *final(self) == (if old(self).sink && done {
                Worker { shown: Snapshot { position_ms, ..old(self).shown }, ..*old(self) }
            } else {
                *old(self)
            }),
    {
        if self.sink && done {
            self.shown.position_ms = position_ms;
        }
    }

    /// Ends the playback, and any load under way.
    pub fn stop(&mut self) -> (events: Vec<PlayerEvent>)
        requires
            old(self).generation < u64::MAX,
        ensures
            *final(self) == (Worker {
                generation: (old(self).generation + 1) as u64,
                ..load_failed(*old(self))
            }),
            events@ == seq![PlayerEvent::Stopped],
    {
        self.generation = self.generation + 1;
        self.sink = false;
        self.playing = None;
        self.shown.state = PlayerState::Stopped;
        self.shown.position_ms = 0;
        let mut events: Vec<PlayerEvent> = Vec::new();
        events.push(PlayerEvent::Stopped);
        assert(events@ =~= seq![PlayerEvent::Stopped]);
        events
    }

    /// A look at the sound: whether it is paused, how far it is, and whether nothing is left.
    pub fn tick(&mut self, paused: bool, position_ms: u32, empty: bool) -> (events: Vec<PlayerEvent>)
        ensures
            (*final(self), events@) == ticked(*old(self), paused, position_ms, empty),
    {
        let mut events: Vec<PlayerEvent> = Vec::new();
        if self.sink && !paused {
            if let Some(p) = &self.playing {
                events.push(PlayerEvent::Progress { position_ms, duration_ms: self.duration_ms });
                if empty && !self.finished_sent {
                    events.push(PlayerEvent::Finished { source: p.0.clone(), uri: p.1.clone() });
                    self.finished_sent = true;
                    self.shown.state = PlayerState::Stopped;
                    self.shown.position_ms = 0;
                } else {
                    self.shown.position_ms = position_ms;
                }
            }
        }
        assert(events@ =~= ticked(*old(self), paused, position_ms, empty).1);
        events
    }
}

/// The end of a track is told once: a second look finds nothing more to tell of it.
pub proof fn the_end_is_told_once(w: Worker, pos: u32, again: u32, source: SourceId, uri: String)
    requires
        w.sink,
        w.playing == Some((source, uri)),
        !w.finished_sent,
    ensures
        ({
            let first = ticked(w, false, pos, true);
            &&& first.1.last() == PlayerEvent::Finished { source, uri }
            &&& ticked(first.0, false, again, true).1 == seq![
                PlayerEvent::Progress { position_ms: again, duration_ms: w.duration_ms },
            ]
        }),
{
}

/// While a load is under way no look at the sound tells an end: the emptied sound of the track
/// before says nothing of the new one.
pub proof fn no_end_while_loading(
    w: Worker,
    source: SourceId,
    uri: String,
    from_ms: u32,
    paused: bool,
    pos: u32,
    empty: bool,
)
    ensures
        forall|i: int|
            0 <= i < ticked(load_begun(w, source, uri, from_ms), paused, pos, empty).1.len()
                ==> !(#[trigger] ticked(load_begun(w, source, uri, from_ms), paused, pos, empty).1[i] is Finished),
{
}

/// A load that another load or a stop replaced changes nothing when it reports back, whether it
/// could be opened or not.
pub proof fn a_replaced_load_is_dropped(
    w: Worker,
    source: SourceId,
    uri: String,
    other: SourceId,
    other_uri: String,
    from_ms: u32,
    start_paused: bool,
    opened: Option<u32>,
)
    requires
        w.generation < u64::MAX,
    ensures
        ({
            let later = load_begun(w, other, other_uri, from_ms);
            load_result(later, w.generation, source, uri, start_paused, from_ms, opened) == (
                later,
                Seq::<PlayerEvent>::empty(),
                LoadedStep::Stale,
            )
        }),
{
}

/// Without a device every load fails.
pub proof fn no_device_no_playback(
    w: Worker,
    source: SourceId,
    uri: String,
    from_ms: u32,
    start_paused: bool,
    opened: Option<u32>,
)
    requires
        !w.device,
        w.generation < u64::MAX,
    ensures
        ({
            let begun = load_begun(w, source, uri, from_ms);
            load_result(begun, begun.generation, source, uri, start_paused, from_ms, opened).1 == seq![
                PlayerEvent::LoadFailed { source, uri },
            ]
        }),
{
}

} // verus!
