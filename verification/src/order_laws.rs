//! The order in which tracks wait, are played and are remembered: how one call on the queue shows
//! in the next.

use vstd::prelude::*;
use crate::event::Bus;
use crate::moment::Moment;
use crate::queue::{Queue, RepeatSetting, MAX_HISTORY};
use crate::types::TrackId;

verus! {

/// What is put in front is what comes out next; the others wait as they did.
pub proof fn what_is_put_in_front_comes_next(q: &mut Queue, id: TrackId, bus: &mut Bus, after: &mut Queue, then: &mut Bus, r: Option<TrackId>)
    requires
        call_ensures(Queue::play_next, (q, id, bus), ()),
        *old(after) == *final(q),
        call_ensures(Queue::pop_front, (after, then), r),
    ensures
        r == Some(id),
        final(after)@.queue == old(q)@.queue,
        final(bus)@.last() is QueueChanged,
        final(then)@.last() is QueueChanged,
{
    assert(final(after)@.queue =~= old(q)@.queue);
}

/// Several that are put in front keep their order, the first of them first.
pub proof fn several_in_front_keep_their_order(q: &mut Queue, ids: &Vec<TrackId>, bus: &mut Bus, i: int)
    requires
        call_ensures(Queue::play_next_many, (q, ids, bus), ()),
        0 <= i,
    ensures
        final(q)@.queue.len() == ids@.len() + old(q)@.queue.len(),
        i < ids@.len() ==> final(q)@.queue[i] == ids@[i],
        i < old(q)@.queue.len() ==> final(q)@.queue[ids@.len() + i] == old(q)@.queue[i],
{
}

/// What is appended comes out last: with nothing else waiting next, otherwise behind what came
/// out before.
pub proof fn what_is_appended_comes_last(q: &mut Queue, id: TrackId, bus: &mut Bus, after: &mut Queue, then: &mut Bus, r: Option<TrackId>)
    requires
        call_ensures(Queue::append, (q, id, bus), ()),
        *old(after) == *final(q),
        call_ensures(Queue::pop_front, (after, then), r),
    ensures
        old(q)@.queue.len() == 0 ==> r == Some(id) && final(after)@.queue.len() == 0,
        old(q)@.queue.len() > 0 ==> r == Some(old(q)@.queue[0]) && final(after)@.queue.last() == id
            && final(after)@.queue.len() == old(q)@.queue.len(),
        final(bus)@.last() is QueueChanged,
{
}

/// To append several is to append one after the other.
pub proof fn several_appended_keep_their_order(q: &mut Queue, ids: &Vec<TrackId>, bus: &mut Bus, i: int)
    requires
        call_ensures(Queue::append_many, (q, ids, bus), ()),
        0 <= i,
    ensures
        final(q)@.queue.len() == old(q)@.queue.len() + ids@.len(),
        i < old(q)@.queue.len() ==> final(q)@.queue[i] == old(q)@.queue[i],
        i < ids@.len() ==> final(q)@.queue[old(q)@.queue.len() + i] == ids@[i],
{
}

/// A row that is removed is gone, those before it stay where they are and those behind it move up;
/// where there is no such row nothing changes.
pub proof fn removed_rows_are_gone(q: &mut Queue, index: usize, bus: &mut Bus, i: int)
    requires
        call_ensures(Queue::remove_at, (q, index, bus), ()),
        0 <= i < final(q)@.queue.len(),
    ensures
        index < old(q)@.queue.len() ==> final(q)@.queue.len() == old(q)@.queue.len() - 1,
        index >= old(q)@.queue.len() ==> final(q)@ == old(q)@ && final(bus)@ == old(bus)@,
        i < index ==> final(q)@.queue[i] == old(q)@.queue[i],
        i >= index ==> final(q)@.queue[i] == old(q)@.queue[i + 1],
        final(q)@.current == old(q)@.current,
        final(q)@.history == old(q)@.history,
{
}

/// To remove a track takes its first place out of the queue and no other.
pub proof fn removed_tracks_go_once(q: &mut Queue, id: TrackId, bus: &mut Bus, found: bool, k: int)
    requires
        call_ensures(Queue::remove_track, (q, id, bus), found),
        0 <= k < old(q)@.queue.len(),
        old(q)@.queue[k] == id,
        forall|j: int| 0 <= j < k ==> old(q)@.queue[j] != id,
    ensures
        found,
        final(q)@.queue == old(q)@.queue.take(k) + old(q)@.queue.skip(k + 1),
        final(bus)@.last() is QueueChanged,
{
    lemma_first_at(old(q)@.queue, id, 0, k);
    assert(final(q)@.queue =~= old(q)@.queue.take(k) + old(q)@.queue.skip(k + 1));
}

proof fn lemma_first_at(s: Seq<TrackId>, x: TrackId, i: int, k: int)
    requires
        0 <= i <= k < s.len(),
        s[k] == x,
        forall|j: int| i <= j < k ==> s[j] != x,
    ensures
        crate::queue::first_at(s, x, i) == Some(k),
    decreases k - i,
{
    if i < k {
        lemma_first_at(s, x, i + 1, k);
    }
}

/// A play is remembered last, and at the moment it happened; the same track again at once is not
/// remembered twice.
pub proof fn plays_are_remembered(q: &mut Queue, id: TrackId, now: Moment, r: Option<Moment>, after: &mut Queue, later: Moment, again: Option<Moment>)
    requires
        old(q)@.history.len() <= MAX_HISTORY,
        call_ensures(Queue::record_played_at, (q, id, now), r),
        *old(after) == *final(q),
        call_ensures(Queue::record_played_at, (after, id, later), again),
    ensures
        final(q)@.history.len() > 0 && final(q)@.history.last().0 == id,
        r is Some ==> r == Some(now) && final(q)@.history.last() == (id, now),
        r is None <==> old(q)@.history.len() > 0 && old(q)@.history.last().0 == id,
        final(q)@.history.len() <= MAX_HISTORY,
        final(after)@.history == final(q)@.history,
        again is None,
        final(q)@.queue == old(q)@.queue,
{
}

/// What was played before is what the history takes one back to: after two plays, the first of
/// them.
pub proof fn going_back_leads_to_the_play_before(q: &mut Queue, id: TrackId, now: Moment, r: Option<Moment>, after: &mut Queue, back: Option<TrackId>)
    requires
        0 < old(q)@.history.len() < MAX_HISTORY,
        old(q)@.history.last().0 != id,
        call_ensures(Queue::record_played_at, (q, id, now), r),
        *old(after) == *final(q),
        call_ensures(Queue::previous_from_history, (after,), back),
    ensures
        back == Some(old(q)@.history.last().0),
        final(after)@.history == old(q)@.history,
{
    assert(final(after)@.history =~= old(q)@.history);
}

/// To clear leaves nothing waiting and nothing current; to stop leaves what waits.
pub proof fn clearing_and_stopping(q: &mut Queue, bus: &mut Bus, p: &mut Queue, then: &mut Bus)
    requires
        call_ensures(Queue::clear, (q, bus), ()),
        call_ensures(Queue::stop, (p, then), ()),
    ensures
        final(q)@.queue.len() == 0 && final(q)@.current is None,
        final(q)@.history == old(q)@.history,
        final(p)@.current is None && final(p)@.queue == old(p)@.queue && final(p)@.history == old(p)@.history,
        final(bus)@.last() is QueueChanged && final(then)@.last() is QueueChanged,
{
}

/// What is set is what is read, and one setting leaves the other alone.
pub proof fn settings_are_read_as_set(q: &mut Queue, repeat: RepeatSetting, shuffle: bool, after: &mut Queue, then: &Queue, r: RepeatSetting, s: bool)
    requires
        call_ensures(Queue::set_repeat, (q, repeat), ()),
        *old(after) == *final(q),
        call_ensures(Queue::set_shuffle, (after, shuffle), ()),
        *then == *final(after),
        call_ensures(Queue::get_repeat, (then,), r),
        call_ensures(Queue::get_shuffle, (then,), s),
    ensures
        r == repeat,
        s == shuffle,
        then@.queue == old(q)@.queue && then@.current == old(q)@.current,
{
}

/// A window on the queue holds its rows from the offset on, as many as were asked for or there are.
pub proof fn queue_windows_hold_their_rows(q: &Queue, offset: usize, limit: usize, r: Vec<TrackId>, i: int)
    requires
        call_ensures(Queue::window, (q, offset, limit), r),
        0 <= i,
    ensures
        i < r@.len() ==> offset + i < q@.queue.len() && r@[i] == q@.queue[offset + i],
        r@.len() <= limit,
        r@.len() < limit && offset <= q@.queue.len() ==> offset + r@.len() == q@.queue.len(),
{
}

/// A window on the history begins with the latest play.
pub proof fn history_windows_begin_with_the_latest(q: &Queue, offset: usize, limit: usize, r: Vec<TrackId>, i: int)
    requires
        call_ensures(Queue::history_window, (q, offset, limit), r),
        0 <= i < r@.len(),
    ensures
        r@.len() <= limit,
        offset + i < q@.history.len(),
        r@[i] == q@.history[q@.history.len() - 1 - offset - i].0,
{
}

} // verus!
