//! Playback order: what plays now, what was queued by hand, and what was played.
//!
//! The queue is strictly first in, first out, apart from what is put at its front, and apart from
//! the track that plays: a track leaves the queue when it is handed out.

use vstd::prelude::*;
use std::collections::VecDeque;
use crate::event::{Bus, CoreEvent};
use crate::moment::Moment;
use crate::types::TrackId;

verus! {

/// How many plays the history keeps.
pub const MAX_HISTORY: usize = 5000;

#[derive(Clone, Copy, PartialEq, Eq, Structural, Debug)]
pub enum RepeatSetting {
    Off,
    RepeatPlaylist,
    RepeatTrack,
}

/// The state of playback order.
pub struct Queue {
    queue: VecDeque<TrackId>,
    current: Option<TrackId>,
    repeat: RepeatSetting,
    shuffle: bool,
    history: VecDeque<(TrackId, Moment)>,
    queue_gen: u64,
    history_gen: u64,
}

/// What a queue holds. The history is oldest first.
pub struct QueueView {
    pub queue: Seq<TrackId>,
    pub current: Option<TrackId>,
    pub repeat: RepeatSetting,
    pub shuffle: bool,
    pub history: Seq<(TrackId, Moment)>,
    /// How often the queue changed.
    pub queue_gen: u64,
    /// How often the history changed.
    pub history_gen: u64,
}

impl View for Queue {
    type V = QueueView;

    closed spec fn view(&self) -> QueueView {
        QueueView {
            queue: self.queue@,
            current: self.current,
            repeat: self.repeat,
            shuffle: self.shuffle,
            history: self.history@,
            queue_gen: self.queue_gen,
            history_gen: self.history_gen,
        }
    }
}

/// The last entries of a history that keeps `MAX_HISTORY`.
pub open spec fn bounded(h: Seq<(TrackId, Moment)>) -> Seq<(TrackId, Moment)> {
    if h.len() > MAX_HISTORY {
        h.skip(h.len() - MAX_HISTORY)
    } else {
        h
    }
}

/// The history after a play: the same track twice in a row counts once.
pub open spec fn played(h: Seq<(TrackId, Moment)>, id: TrackId, at: Moment) -> Seq<(TrackId, Moment)> {
    if h.len() > 0 && h.last().0 == id {
        h
    } else {
        bounded(h.push((id, at)))
    }
}

/// What a queue holds after a play; a repeat of the last play changes nothing.
pub open spec fn after_play(q: QueueView, id: TrackId, at: Moment) -> QueueView {
    QueueView {
        history: played(q.history, id, at),
        history_gen: if q.history.len() > 0 && q.history.last().0 == id {
            q.history_gen
        } else {
            bumped(q.history_gen)
        },
        ..q
    }
}

/// What a queue holds once the last play is off its history.
pub open spec fn stepped_back(q: QueueView) -> QueueView {
    if q.history.len() > 0 {
        QueueView { history: q.history.drop_last(), history_gen: bumped(q.history_gen), ..q }
    } else {
        q
    }
}

/// What a queue holds once other tracks wait in it.
pub open spec fn requeued(q: QueueView, tracks: Seq<TrackId>) -> QueueView {
    QueueView { queue: tracks, queue_gen: bumped(q.queue_gen), ..q }
}

/// What a queue holds once the first occurrence of a track, if any, is out of it.
pub open spec fn taken_out(q: QueueView, id: TrackId) -> QueueView {
    if q.queue.contains(id) {
        requeued(q, without_first(q.queue, id))
    } else {
        q
    }
}

/// Whoever looks at the counters of a queue learns that it went from `a` to `b`: each of them
/// moved if what it stands for did.
pub open spec fn counted(a: QueueView, b: QueueView) -> bool {
    &&& a.queue != b.queue ==> a.queue_gen != b.queue_gen
    &&& a.history != b.history ==> a.history_gen != b.history_gen
}

pub open spec fn ids_of(h: Seq<(TrackId, Moment)>) -> Seq<TrackId> {
    h.map_values(|e: (TrackId, Moment)| e.0)
}

/// The part of a list from `offset` on, with at most `limit` items.
pub open spec fn window_of<T>(s: Seq<T>, offset: nat, limit: nat) -> Seq<T> {
    if offset >= s.len() {
        seq![]
    } else if s.len() - offset <= limit {
        s.skip(offset as int)
    } else {
        s.subrange(offset as int, (offset + limit) as int)
    }
}

/// The place of a play in a history: behind the last play that is not later.
pub open spec fn place_of(h: Seq<(TrackId, Moment)>, at: Moment, n: int) -> int
    decreases n,
{
    if n <= 0 || n > h.len() {
        0
    } else if !at.before(h[n - 1].1) {
        n
    } else {
        place_of(h, at, n - 1)
    }
}

/// The history with one more play at its place.
pub open spec fn with_play(h: Seq<(TrackId, Moment)>, e: (TrackId, Moment)) -> Seq<(TrackId, Moment)> {
    h.insert(place_of(h, e.1, h.len() as int), e)
}

/// The history with more plays, each at its place.
pub open spec fn with_plays(
    h: Seq<(TrackId, Moment)>,
    new: Seq<(TrackId, Moment)>,
) -> Seq<(TrackId, Moment)>
    decreases new.len(),
{
    if new.len() == 0 {
        h
    } else {
        with_play(with_plays(h, new.drop_last()), new.last())
    }
}

impl Queue {
    /// The history keeps its bound.
    pub closed spec fn wf(&self) -> bool {
        self.history@.len() <= MAX_HISTORY
    }

    pub fn new() -> (r: Queue)
        ensures
            r.wf(),
            r@ == (QueueView {
                queue: seq![],
                current: None,
                repeat: RepeatSetting::Off,
                shuffle: false,
                history: seq![],
                queue_gen: 0,
                history_gen: 0,
            }),
    {
        Queue {
            queue: VecDeque::new(),
            current: None,
            repeat: RepeatSetting::Off,
            shuffle: false,
            history: VecDeque::new(),
            queue_gen: 0,
            history_gen: 0,
        }
    }

    pub fn queue_gen(&self) -> (r: u64)
        ensures
            r == self@.queue_gen,
    {
        self.queue_gen
    }

    pub fn history_gen(&self) -> (r: u64)
        ensures
            r == self@.history_gen,
    {
        self.history_gen
    }

    fn queue_changed(&mut self, bus: &mut Bus)
        ensures
            final(self)@ == (QueueView { queue_gen: bumped(old(self)@.queue_gen), ..old(self)@ }),
            final(self).wf() == old(self).wf(),
            final(bus)@ == old(bus)@.push(CoreEvent::QueueChanged),
    {
        self.queue_gen = self.queue_gen.wrapping_add(1);
        bus.send(CoreEvent::QueueChanged);
    }

    /// Takes in that a track started to play at the time `now`. A repeat of the last play is not
    /// recorded again.
    pub fn record_played_at(&mut self, id: TrackId, now: Moment) -> (r: Option<Moment>)
        requires
            old(self).wf(),
        ensures
            final(self).wf(),
            final(self)@ == after_play(old(self)@, id, now),
            r == (if old(self)@.history.len() > 0 && old(self)@.history.last().0 == id {
                None
            } else {
                Some(now)
            }),
    {
        let n: usize = self.history.len();
        if n > 0 && self.history[n - 1].0 == id {
            return None;
        }
        let ghost before = self.history@;
        self.history.push_back((id, now));
        if self.history.len() > MAX_HISTORY {
            self.history.pop_front();
        }
        proof {
            let all = before.push((id, now));
            assert(self.history@ =~= bounded(all));
        }
        self.history_gen = self.history_gen.wrapping_add(1);
        Some(now)
    }

    /// Takes in that a track started to play now.
    pub fn record_played(&mut self, id: TrackId) -> (r: Option<Moment>)
        requires
            old(self).wf(),
        ensures
            final(self).wf(),
            exists|now: Moment|
                final(self)@ == #[trigger] after_play(old(self)@, id, now) && r == (if old(self)@.history.len() > 0 && old(self)@.history.last().0 == id {
                    None
                } else {
                    Some(now)
                }),
    {
        let now = Moment::now();
        self.record_played_at(id, now)
    }

    /// Takes the last play off the history and gives the one before it.
    pub fn previous_from_history(&mut self) -> (r: Option<TrackId>)
        requires
            old(self).wf(),
        ensures
            final(self).wf(),
            final(self)@ == stepped_back(old(self)@),
            r == (if old(self)@.history.len() > 1 {
                Some(old(self)@.history[old(self)@.history.len() - 2].0)
            } else {
                None
            }),
    {
        if self.history.pop_back().is_some() {
            self.history_gen = self.history_gen.wrapping_add(1);
        }
        let n: usize = self.history.len();
        if n > 0 {
            Some(self.history[n - 1].0)
        } else {
            None
        }
    }

    /// The played tracks, oldest first.
    pub fn history_snapshot(&self) -> (r: Vec<TrackId>)
        ensures
            r@ == ids_of(self@.history),
    {
        let mut out: Vec<TrackId> = Vec::new();
        let mut i: usize = 0;
        while i < self.history.len()
            invariant
                i <= self.history@.len(),
                out@.len() == i,
                forall|j: int| 0 <= j < i ==> out@[j] == self.history@[j].0,
            decreases self.history@.len() - i,
        {
            out.push(self.history[i].0);
            i = i + 1;
        }
        assert(out@ =~= ids_of(self@.history));
        out
    }

    pub fn history_len(&self) -> (r: usize)
        ensures
            r == self@.history.len(),
    {
        self.history.len()
    }

    /// The played tracks, newest first, from `offset` on, at most `limit`.
    pub fn history_window(&self, offset: usize, limit: usize) -> (r: Vec<TrackId>)
        ensures
            r@ == window_of(ids_of(self@.history).reverse(), offset as nat, limit as nat),
    {
        let n: usize = self.history.len();
        let ghost all = ids_of(self@.history).reverse();
        let mut out: Vec<TrackId> = Vec::new();
        if offset >= n {
            return out;
        }
        let count: usize = if n - offset <= limit {
            n - offset
        } else {
            limit
        };
        let mut i: usize = 0;
        while i < count
            invariant
                n == self.history@.len(),
                all == ids_of(self@.history).reverse(),
                offset < n,
                i <= count <= n - offset,
                out@.len() == i,
                forall|j: int| 0 <= j < i ==> out@[j] == all[offset + j],
            decreases count - i,
        {
            out.push(self.history[n - 1 - offset - i].0);
            i = i + 1;
        }
        assert(out@ =~= window_of(all, offset as nat, limit as nat));
        out
    }

    /// Replaces the history; of too many plays the oldest are dropped.
    pub fn restore_history(&mut self, entries: &Vec<(TrackId, Moment)>)
        ensures
            final(self).wf(),
            final(self)@ == (QueueView {
                history: bounded(entries@),
                history_gen: bumped(old(self)@.history_gen),
                ..old(self)@
            }),
    {
        let n: usize = entries.len();
        let start: usize = if n > MAX_HISTORY {
            n - MAX_HISTORY
        } else {
            0
        };
        let mut h: VecDeque<(TrackId, Moment)> = VecDeque::new();
        let mut i: usize = start;
        while i < n
            invariant
                n == entries@.len(),
                start <= i <= n,
                h@ == entries@.subrange(start as int, i as int),
            decreases n - i,
        {
            h.push_back(entries[i]);
            i = i + 1;
        }
        assert(h@ =~= bounded(entries@));
        self.history = h;
        self.history_gen = self.history_gen.wrapping_add(1);
    }

    /// Folds in plays from elsewhere, each at its place in time; of too many the oldest are
    /// dropped.
    pub fn merge_new_history(&mut self, new: &Vec<(TrackId, Moment)>)
        requires
            old(self).wf(),
            old(self)@.history.len() + new@.len() <= usize::MAX,
        ensures
            final(self).wf(),
            final(self)@ == (QueueView {
                history: bounded(with_plays(old(self)@.history, new@)),
                history_gen: if new@.len() > 0 {
                    bumped(old(self)@.history_gen)
                } else {
                    old(self)@.history_gen
                },
                ..old(self)@
            }),
    {
        if new.len() == 0 {
            assert(new@ =~= seq![]);
            return;
        }
        let ghost before = self.history@;
        let mut h: VecDeque<(TrackId, Moment)> = VecDeque::new();
        std::mem::swap(&mut h, &mut self.history);
        let mut i: usize = 0;
        assert(new@.take(0) =~= seq![]);
        while i < new.len()
            invariant
                i <= new@.len(),
                before.len() + new@.len() <= usize::MAX,
                h@ == with_plays(before, new@.take(i as int)),
                h@.len() == before.len() + i,
            decreases new@.len() - i,
        {
            let e = new[i];
            let mut k: usize = h.len();
            while k > 0 && h[k - 1].1.later_than(&e.1)
                invariant
                    k <= h@.len(),
                    place_of(h@, e.1, k as int) == place_of(h@, e.1, h@.len() as int),
                decreases k,
            {
                k = k - 1;
            }
            assert(k == place_of(h@, e.1, h@.len() as int));
            h.insert(k, e);
            proof {
                assert(new@.take(i + 1).drop_last() =~= new@.take(i as int));
                assert(new@.take(i + 1).last() == e);
            }
            i = i + 1;
        }
        assert(new@.take(i as int) =~= new@);
        let ghost all = h@;
        while h.len() > MAX_HISTORY
            invariant
                h@.len() <= all.len(),
                h@ == all.skip(all.len() - h@.len()),
                h@.len() >= MAX_HISTORY || h@ == all,
            decreases h@.len(),
        {
            h.pop_front();
            assert(h@ =~= all.skip(all.len() - h@.len()));
        }
        assert(h@ =~= bounded(all));
        self.history = h;
        self.history_gen = self.history_gen.wrapping_add(1);
    }

    pub fn get_current(&self) -> (r: Option<TrackId>)
        ensures
            r == self@.current,
    {
        self.current
    }

    /// Says what plays, and announces it.
    pub fn set_current(&mut self, track: Option<TrackId>, bus: &mut Bus)
        ensures
            final(self)@ == (QueueView { current: track, ..old(self)@ }),
            final(self).wf() == old(self).wf(),
            final(bus)@ == old(bus)@.push(CoreEvent::QueueChanged),
    {
        self.current = track;
        bus.send(CoreEvent::QueueChanged);
    }

    /// The queued tracks, the next one first.
    pub fn snapshot(&self) -> (r: Vec<TrackId>)
        ensures
            r@ == self@.queue,
    {
        let mut out: Vec<TrackId> = Vec::new();
        let mut i: usize = 0;
        while i < self.queue.len()
            invariant
                i <= self.queue@.len(),
                out@ == self.queue@.take(i as int),
            decreases self.queue@.len() - i,
        {
            out.push(self.queue[i]);
            i = i + 1;
        }
        assert(out@ =~= self.queue@);
        out
    }

    /// The queued tracks from `offset` on, at most `limit`.
    pub fn window(&self, offset: usize, limit: usize) -> (r: Vec<TrackId>)
        ensures
            r@ == window_of(self@.queue, offset as nat, limit as nat),
    {
        let n: usize = self.queue.len();
        let mut out: Vec<TrackId> = Vec::new();
        if offset >= n {
            return out;
        }
        let count: usize = if n - offset <= limit {
            n - offset
        } else {
            limit
        };
        let mut i: usize = 0;
        while i < count
            invariant
                n == self.queue@.len(),
                offset < n,
                i <= count <= n - offset,
                out@ == self.queue@.subrange(offset as int, offset + i),
            decreases count - i,
        {
            out.push(self.queue[offset + i]);
            i = i + 1;
        }
        assert(out@ =~= window_of(self@.queue, offset as nat, limit as nat));
        out
    }

    /// How many tracks are queued, without the one that plays.
    pub fn len(&self) -> (r: usize)
        ensures
            r == self@.queue.len(),
    {
        self.queue.len()
    }

    pub fn is_empty(&self) -> (r: bool)
        ensures
            r == (self@.queue.len() == 0),
    {
        self.queue.len() == 0
    }

    /// Puts a track at the back.
    pub fn append(&mut self, track: TrackId, bus: &mut Bus)
        ensures
            final(self)@ == requeued(old(self)@, old(self)@.queue.push(track)),
            final(self).wf() == old(self).wf(),
            final(bus)@ == old(bus)@.push(CoreEvent::QueueChanged),
    {
        self.queue.push_back(track);
        self.queue_changed(bus);
    }

    /// Puts tracks at the back, in order.
    pub fn append_many(&mut self, tracks: &Vec<TrackId>, bus: &mut Bus)
        ensures
            final(self)@ == requeued(old(self)@, old(self)@.queue + tracks@),
            final(self).wf() == old(self).wf(),
            final(bus)@ == old(bus)@.push(CoreEvent::QueueChanged),
    {
        let mut i: usize = 0;
        while i < tracks.len()
            invariant
                i <= tracks@.len(),
                self@ == (QueueView {
                    queue: old(self)@.queue + tracks@.take(i as int),
                    ..old(self)@
                }),
                self.wf() == old(self).wf(),
                bus@ == old(bus)@,
            decreases tracks@.len() - i,
        {
            self.queue.push_back(tracks[i]);
            i = i + 1;
            assert(self@.queue =~= old(self)@.queue + tracks@.take(i as int));
        }
        assert(tracks@.take(i as int) =~= tracks@);
        self.queue_changed(bus);
    }

    /// Puts a track at the front: it plays next.
    pub fn play_next(&mut self, track: TrackId, bus: &mut Bus)
        ensures
            final(self)@ == requeued(old(self)@, seq![track] + old(self)@.queue),
            final(self).wf() == old(self).wf(),
            final(bus)@ == old(bus)@.push(CoreEvent::QueueChanged),
    {
        self.queue.push_front(track);
        assert(self@.queue =~= seq![track] + old(self)@.queue);
        self.queue_changed(bus);
    }

    /// Puts tracks at the front, in order.
    pub fn play_next_many(&mut self, tracks: &Vec<TrackId>, bus: &mut Bus)
        ensures
            final(self)@ == requeued(old(self)@, tracks@ + old(self)@.queue),
            final(self).wf() == old(self).wf(),
            final(bus)@ == old(bus)@.push(CoreEvent::QueueChanged),
    {
        let n: usize = tracks.len();
        let mut i: usize = n;
        assert(tracks@.skip(n as int) + self@.queue =~= self@.queue);
        while i > 0
            invariant
                i <= n == tracks@.len(),
                self@ == (QueueView {
                    queue: tracks@.skip(i as int) + old(self)@.queue,
                    ..old(self)@
                }),
                self.wf() == old(self).wf(),
                bus@ == old(bus)@,
            decreases i,
        {
            let ghost before = self@.queue;
            self.queue.push_front(tracks[i - 1]);
            i = i - 1;
            assert(self@.queue =~= tracks@.skip(i as int) + old(self)@.queue);
        }
        assert(tracks@.skip(0) =~= tracks@);
        self.queue_changed(bus);
    }

    /// Takes the first occurrence of a track out; tells whether there was one.
    pub fn remove_track(&mut self, track: TrackId, bus: &mut Bus) -> (found: bool)
        ensures
            found == old(self)@.queue.contains(track),
            final(self)@ == taken_out(old(self)@, track),
            final(self).wf() == old(self).wf(),
            final(bus)@ == (if found {
                old(bus)@.push(CoreEvent::QueueChanged)
            } else {
                old(bus)@
            }),
    {
        let ghost q = self.queue@;
        let mut i: usize = 0;
        while i < self.queue.len()
            invariant
                i <= self.queue@.len(),
                self.queue@ == q,
                *self == *old(self),
                bus@ == old(bus)@,
                q == old(self)@.queue,
                first_at(q, track, i as int) == first_at(q, track, 0),
                forall|j: int| 0 <= j < i ==> q[j] != track,
            decreases self.queue@.len() - i,
        {
            if self.queue[i] == track {
                self.queue.remove(i);
                self.queue_changed(bus);
                assert(q[i as int] == track);
                assert(self@.queue =~= q.remove(i as int));
                return true;
            }
            i = i + 1;
        }
        false
    }

    /// Takes the item at a position out; a position outside is ignored.
    pub fn remove_at(&mut self, index: usize, bus: &mut Bus)
        ensures
            final(self)@ == (if index < old(self)@.queue.len() {
                requeued(old(self)@, old(self)@.queue.remove(index as int))
            } else {
                old(self)@
            }),
            final(self).wf() == old(self).wf(),
            final(bus)@ == (if index < old(self)@.queue.len() {
                old(bus)@.push(CoreEvent::QueueChanged)
            } else {
                old(bus)@
            }),
    {
        if index < self.queue.len() {
            self.queue.remove(index);
            self.queue_changed(bus);
        }
    }

    /// Hands out the next track.
    pub fn pop_front(&mut self, bus: &mut Bus) -> (r: Option<TrackId>)
        ensures
            r == (if old(self)@.queue.len() > 0 {
                Some(old(self)@.queue[0])
            } else {
                None
            }),
            final(self)@ == (if old(self)@.queue.len() > 0 {
                requeued(old(self)@, old(self)@.queue.drop_first())
            } else {
                old(self)@
            }),
            final(self).wf() == old(self).wf(),
            final(bus)@ == (if old(self)@.queue.len() > 0 {
                old(bus)@.push(CoreEvent::QueueChanged)
            } else {
                old(bus)@
            }),
    {
        let item = self.queue.pop_front();
        if item.is_some() {
            assert(self@.queue =~= old(self)@.queue.drop_first());
            self.queue_changed(bus);
        }
        item
    }

    /// Empties the queue and stops playback.
    pub fn clear(&mut self, bus: &mut Bus)
        ensures
            final(self)@ == (QueueView { current: None, ..requeued(old(self)@, seq![]) }),
            final(self).wf() == old(self).wf(),
            final(bus)@ == old(bus)@.push(CoreEvent::QueueChanged).push(CoreEvent::QueueChanged),
    {
        self.stop(bus);
        self.queue.clear();
        self.queue_changed(bus);
    }

    /// Nothing plays; the queue stays.
    pub fn stop(&mut self, bus: &mut Bus)
        ensures
            final(self)@ == (QueueView { current: None, ..old(self)@ }),
            final(self).wf() == old(self).wf(),
            final(bus)@ == old(bus)@.push(CoreEvent::QueueChanged),
    {
        self.current = None;
        bus.send(CoreEvent::QueueChanged);
    }

    /// Starts the queue when nothing plays. What plays is left to its player.
    pub fn toggleplayback(&mut self, bus: &mut Bus)
        ensures
            final(self).wf() == old(self).wf(),
            if old(self)@.current is None && old(self)@.queue.len() > 0 {
                &&& final(self)@ == (QueueView {
                    current: Some(old(self)@.queue[0]),
                    ..requeued(old(self)@, old(self)@.queue.drop_first())
                })
                &&& final(bus)@ == old(bus)@.push(CoreEvent::QueueChanged).push(
                    CoreEvent::PlayRequested(old(self)@.queue[0]),
                )
            } else {
                final(self)@ == old(self)@ && final(bus)@ == old(bus)@
            },
    {
        if self.current.is_some() {
            return;
        }
        if let Some(id) = self.pop_front(bus) {
            self.current = Some(id);
            bus.send(CoreEvent::PlayRequested(id));
        }
    }

    pub fn get_repeat(&self) -> (r: RepeatSetting)
        ensures
            r == self@.repeat,
    {
        self.repeat
    }

    pub fn set_repeat(&mut self, new: RepeatSetting)
        ensures
            final(self)@ == (QueueView { repeat: new, ..old(self)@ }),
            final(self).wf() == old(self).wf(),
    {
        self.repeat = new;
    }

    pub fn get_shuffle(&self) -> (r: bool)
        ensures
            r == self@.shuffle,
    {
        self.shuffle
    }

    /// Sets shuffle; the queue keeps its order.
    pub fn set_shuffle(&mut self, new: bool)
        ensures
            final(self)@ == (QueueView { shuffle: new, ..old(self)@ }),
            final(self).wf() == old(self).wf(),
    {
        self.shuffle = new;
    }
}

/// A counter of changes after one more.
pub open spec fn bumped(n: u64) -> u64 {
    if n == u64::MAX {
        0
    } else {
        (n + 1) as u64
    }
}

/// The first position from `i` on that holds `x`.
pub open spec fn first_at(s: Seq<TrackId>, x: TrackId, i: int) -> Option<int>
    decreases s.len() - i,
{
    if i < 0 || i >= s.len() {
        None
    } else if s[i] == x {
        Some(i)
    } else {
        first_at(s, x, i + 1)
    }
}

/// The list without the first occurrence of `x`.
pub open spec fn without_first(s: Seq<TrackId>, x: TrackId) -> Seq<TrackId> {
    match first_at(s, x, 0) {
        Some(i) => s.remove(i),
        None => s,
    }
}

/// No play is earlier than one before it.
pub open spec fn in_time_order(h: Seq<(TrackId, Moment)>) -> bool {
    forall|i: int, j: int| 0 <= i < j < h.len() ==> !(#[trigger] h[j]).1.before((#[trigger] h[i]).1)
}

proof fn lemma_place(h: Seq<(TrackId, Moment)>, at: Moment, n: int)
    requires
        0 <= n <= h.len(),
    ensures
        0 <= place_of(h, at, n) <= n,
        forall|i: int| place_of(h, at, n) <= i < n ==> at.before((#[trigger] h[i]).1),
        place_of(h, at, n) > 0 ==> !at.before(h[place_of(h, at, n) - 1].1),
    decreases n,
{
    if n > 0 && at.before(h[n - 1].1) {
        lemma_place(h, at, n - 1);
    }
}

/// Folding in a play keeps the plays in time order, and takes none of them away.
pub proof fn merging_keeps_time_order(h: Seq<(TrackId, Moment)>, e: (TrackId, Moment))
    requires
        in_time_order(h),
    ensures
        in_time_order(with_play(h, e)),
        exists|p: int| 0 <= p <= h.len() && with_play(h, e)[p] == e && #[trigger] with_play(h, e).remove(p) == h,
{
    let p = place_of(h, e.1, h.len() as int);
    lemma_place(h, e.1, h.len() as int);
    let w = with_play(h, e);
    assert(w.remove(p) =~= h);
    assert forall|i: int, j: int| 0 <= i < j < w.len() implies !(#[trigger] w[j]).1.before((#[trigger] w[i]).1) by {
        if j == p {
            if i < p {
                assert(w[i] == h[i]);
                if i < p - 1 {
                    assert(!h[p - 1].1.before(h[i].1));
                }
            }
        } else if i == p {
            assert(w[j] == h[j - 1]);
        } else {
            let oi = if i < p { i } else { i - 1 };
            let oj = if j < p { j } else { j - 1 };
            assert(w[i] == h[oi] && w[j] == h[oj]);
        }
    }
}

/// `a` is `b` without some of its entries: `at` says where each of `a` stands in `b`.
pub open spec fn stands_in(a: Seq<(TrackId, Moment)>, b: Seq<(TrackId, Moment)>, at: Seq<int>) -> bool {
    &&& at.len() == a.len()
    &&& forall|i: int| 0 <= i < at.len() ==> 0 <= #[trigger] at[i] < b.len() && b[at[i]] == a[i]
    &&& forall|i: int, j: int| 0 <= i < j < at.len() ==> #[trigger] at[i] < #[trigger] at[j]
}

/// A history in which new plays were folded in is in time order, holds the plays of both and no
/// others, and keeps the order of the old ones; without new plays it is as it was. Of more plays
/// than are kept the oldest are dropped.
pub proof fn merged_history_is_whole(h: Seq<(TrackId, Moment)>, new: Seq<(TrackId, Moment)>)
    requires
        in_time_order(h),
    ensures
        in_time_order(with_plays(h, new)),
        with_plays(h, new).to_multiset() == h.to_multiset().add(new.to_multiset()),
        exists|at: Seq<int>| #[trigger] stands_in(h, with_plays(h, new), at),
        new.len() == 0 ==> with_plays(h, new) == h,
        bounded(with_plays(h, new)).is_suffix_of(with_plays(h, new)),
        in_time_order(bounded(with_plays(h, new))),
    decreases new.len(),
{
    broadcast use vstd::seq_lib::group_to_multiset_ensures;

    let w = with_plays(h, new);
    if new.len() == 0 {
        let at = Seq::new(h.len(), |i: int| i);
        assert(stands_in(h, w, at));
        assert(new =~= seq![]);
        assert(h.to_multiset().add(new.to_multiset()) =~= h.to_multiset());
    } else {
        let m = with_plays(h, new.drop_last());
        let e = new.last();
        merged_history_is_whole(h, new.drop_last());
        merging_keeps_time_order(m, e);
        let p = place_of(m, e.1, m.len() as int);
        lemma_place(m, e.1, m.len() as int);
        let at = choose|at: Seq<int>| #[trigger] stands_in(h, m, at);
        let bt = at.map_values(
            |k: int|
                if k < p {
                    k
                } else {
                    k + 1
                },
        );
        assert forall|i: int| 0 <= i < bt.len() implies 0 <= #[trigger] bt[i] < w.len() && w[bt[i]] == h[i] by {
            assert(0 <= at[i] < m.len() && m[at[i]] == h[i]);
        }
        assert forall|i: int, j: int| 0 <= i < j < bt.len() implies #[trigger] bt[i] < #[trigger] bt[j] by {
            assert(at[i] < at[j]);
        }
        assert(stands_in(h, w, bt));
        assert(new =~= new.drop_last().push(e));
        lemma_insert_multiset(m, p, e);
        assert(w.to_multiset() =~= h.to_multiset().add(new.to_multiset()));
    }
    assert(bounded(w).is_suffix_of(w)) by {
        assert(w.subrange(w.len() - bounded(w).len(), w.len() as int) =~= bounded(w));
    }
    let b = bounded(w);
    let d = w.len() - b.len();
    assert forall|i: int, j: int| 0 <= i < j < b.len() implies !(#[trigger] b[j]).1.before((#[trigger] b[i]).1) by {
        assert(b[i] == w[i + d] && b[j] == w[j + d]);
    }
}

proof fn lemma_insert_multiset(s: Seq<(TrackId, Moment)>, p: int, e: (TrackId, Moment))
    requires
        0 <= p <= s.len(),
    ensures
        s.insert(p, e).to_multiset() == s.to_multiset().insert(e),
{
    broadcast use vstd::seq_lib::group_to_multiset_ensures;

    let a = s.take(p);
    let b = s.skip(p);
    assert(s =~= a + b);
    assert(s.insert(p, e) =~= a.push(e) + b);
    vstd::seq_lib::lemma_multiset_commutative(a, b);
    vstd::seq_lib::lemma_multiset_commutative(a.push(e), b);
    assert(s.insert(p, e).to_multiset() =~= s.to_multiset().insert(e));
}

/// Among plays of one time a new one comes behind the old ones.
pub proof fn equal_times_keep_the_old_first(h: Seq<(TrackId, Moment)>, e: (TrackId, Moment), i: int)
    requires
        in_time_order(h),
        0 <= i < h.len(),
        !e.1.before(h[i].1),
    ensures
        i < place_of(h, e.1, h.len() as int),
{
    lemma_place(h, e.1, h.len() as int);
    let p = place_of(h, e.1, h.len() as int);
    if p <= i {
        assert(e.1.before(h[i].1));
    }
}

/// However much is played, the history keeps its bound, and the last play is its last entry.
pub proof fn history_is_bounded(h: Seq<(TrackId, Moment)>, id: TrackId, at: Moment)
    requires
        h.len() <= MAX_HISTORY,
    ensures
        played(h, id, at).len() <= MAX_HISTORY,
        played(h, id, at).len() > 0,
        played(h, id, at).last().0 == id,
        played(played(h, id, at), id, at) == played(h, id, at),
{
}

/// What is put at the front plays next, and what is put at the back plays after all that was
/// queued before it.
pub proof fn queue_order(q: Seq<TrackId>, front: TrackId, back: TrackId)
    ensures
        (seq![front] + q)[0] == front,
        (seq![front] + q).drop_first() == q,
        q.push(back)[q.len() as int] == back,
        q.len() > 0 ==> q.push(back)[0] == q[0] && q.push(back).drop_first() == q.drop_first().push(back),
{
    assert((seq![front] + q).drop_first() =~= q);
    if q.len() > 0 {
        assert(q.push(back).drop_first() =~= q.drop_first().push(back));
    }
}

} // verus!
