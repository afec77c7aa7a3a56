//! What holds of playback whatever is played.

use vstd::prelude::*;
use crate::env::{cached_file, picked_player, presence, EnvView};
use crate::event::PlayerEvent;
use crate::playback::{
    dealt, other_than, ready_index, w_advance, w_from_cache, w_next_in_context, w_ready, w_start, w_warn, ContextView,
    EffectView, PlaybackView, World, MAX_LOAD_FAILURES,
};
use crate::player_events::{
    context_decides, event_track_of, load_failed_text, upcoming, w_finished, w_give_up, w_learn, w_load_failed,
    w_next, w_player_event, w_previous, w_upcoming,
};
use crate::queue::{QueueView, RepeatSetting};
use crate::resolver::{resolved_excluding, ResolutionView};
use crate::store::track_of;
use crate::traits::{PlayerState, PlayerStatus};
use crate::types::{RenditionView, TrackView};
use crate::view_cache::CacheView;

verus! {

/// What waits in the queue plays before the list goes on, in its order, and leaves the queue.
pub proof fn queued_tracks_come_first(w: World, e: EnvView, c: CacheView, manual: bool)
    requires
        w.p.queue.queue.len() > 0,
        manual || w.p.queue.repeat != RepeatSetting::RepeatTrack || w.p.queue.current is None,
    ensures
        w_advance(w, e, c, manual).p.queue.current == Some(w.p.queue.queue[0]),
        w_advance(w, e, c, manual).p.queue.queue == w.p.queue.queue.drop_first(),
        w_advance(w, e, c, manual).p.context == w.p.context,
{
}

/// A track that is repeated plays again when it ends, and takes nothing out of the queue.
pub proof fn repeated_track_plays_again(w: World, e: EnvView, c: CacheView)
    requires
        w.p.queue.repeat == RepeatSetting::RepeatTrack,
        w.p.queue.current is Some,
    ensures
        w_advance(w, e, c, false).p.queue.current == w.p.queue.current,
        w_advance(w, e, c, false).p.queue.queue == w.p.queue.queue,
        w_advance(w, e, c, true).p.queue.repeat == RepeatSetting::RepeatPlaylist,
{
}

/// What is said to come next is what plays next.
pub proof fn upcoming_is_what_plays(w: World, e: EnvView, c: CacheView)
    ensures
        ({
            let w1 = w_upcoming(w, e, c);
            let next = w_advance(w1, e, c, false);
            match upcoming(w1) {
                Some(id) => next.p.queue.current == Some(id),
                None => next.p.queue.current is None,
            }
        }),
{
    let w1 = w_upcoming(w, e, c);
    if context_decides(w) {
        assert(context_decides(w1));
        if ready_index(w1.p) is Some {
            assert(w_ready(w1, e, c) == w1);
        } else {
            assert(ready_index(w_ready(w1, e, c).p) is None);
        }
    }
}

/// Only one player makes sound: whatever starts, every other player is silenced first.
pub proof fn others_fall_silent_first(w: World, e: EnvView, t: TrackView, r: RenditionView, player: u32, record: bool)
    ensures
        ({
            let before = w.p.effects.len() as int;
            let after = w_start(w, e, t, r, player, record).p.effects;
            &&& after.len() >= before + 2
            &&& after[before] == EffectView::StopOthers(player)
            &&& after[before + 1] == (if w.p.skipping {
                EffectView::DeferLoad(crate::queue::bumped(w.p.deferred_seq))
            } else {
                EffectView::Load { player, rendition: r }
            })
            &&& after.take(before) == w.p.effects
        }),
{
    let before = w.p.effects.len() as int;
    assert(w_start(w, e, t, r, player, record).p.effects.take(before) =~= w.p.effects);
}

/// The report of a rendition that is not the current track's changes nothing of what plays.
pub proof fn stale_reports_are_ignored(w: World, e: EnvView, c: CacheView, source: Seq<char>, uri: Seq<char>)
    requires
        event_track_of(w, source, uri) is None || event_track_of(w, source, uri) != w.p.queue.current,
    ensures
        w_finished(w, e, c, source, uri) == w,
        w_load_failed(w, e, c, source, uri) == (World {
            p: PlaybackView { state: PlayerState::Stopped, ..w.p },
            ..w
        }),
{
    reveal(w_finished);
    reveal(w_load_failed);
    assert(event_track_of(
        World { p: PlaybackView { state: PlayerState::Stopped, ..w.p }, ..w },
        source,
        uri,
    ) == event_track_of(w, source, uri));
}

proof fn lemma_advance_failures(w: World, e: EnvView, c: CacheView, manual: bool)
    ensures
        w_advance(w, e, c, manual).p.load_failures == w.p.load_failures,
{
}

proof fn lemma_give_up_failures(w: World, e: EnvView, c: CacheView, source: Seq<char>, uri: Seq<char>, t: TrackView)
    ensures
        w_give_up(w, e, c, source, uri, t).p.load_failures < MAX_LOAD_FAILURES,
{
    let w1 = w_warn(w, source, load_failed_text(t.title, uri));
    if w1.p.load_failures + 1 < MAX_LOAD_FAILURES {
        lemma_advance_failures(
            World { p: PlaybackView { load_failures: (w1.p.load_failures + 1) as u32, ..w1.p }, ..w1 },
            e,
            c,
            false,
        );
    }
}

/// However tracks fail, fewer than the limit have failed in a row while playback goes on.
pub proof fn failures_stay_below_the_limit(w: World, e: EnvView, c: CacheView, source: Seq<char>, uri: Seq<char>)
    requires
        w.p.load_failures < MAX_LOAD_FAILURES,
    ensures
        w_load_failed(w, e, c, source, uri).p.load_failures < MAX_LOAD_FAILURES,
        w_finished(w, e, c, source, uri).p.load_failures < MAX_LOAD_FAILURES,
{
    reveal(w_load_failed);
    assert(w_finished(w, e, c, source, uri).p.load_failures < MAX_LOAD_FAILURES) by {
        reveal(w_finished);
        if let Some(id) = event_track_of(w, source, uri) {
            let (drained, known) = w.p.progress;
            let w1 = if known == 0 && drained > 0 {
                w_learn(w, id, drained)
            } else {
                w
            };
            lemma_advance_failures(w1, e, c, false);
        }
    }
    let w1 = World { p: PlaybackView { state: PlayerState::Stopped, ..w.p }, ..w };
    if let Some(id) = event_track_of(w1, source, uri) {
        let t = w1.s.tracks[id.0];
        let w2 = World {
            p: PlaybackView { failed_sources: w1.p.failed_sources.push(source), ..w1.p },
            ..w1
        };
        let (w3, ok) = w_from_cache(
            World { p: PlaybackView { pending_fallback: None, ..w2.p }, ..w2 },
            e,
            t,
            true,
        );
        if !ok {
            lemma_give_up_failures(w3, e, c, source, uri, t);
        }
    }
}

/// The current track failed to load, no other rendition of it can be played, and it cannot be
/// played from the cache.
pub open spec fn fails_for_good(w: World, e: EnvView, source: Seq<char>, uri: Seq<char>) -> bool {
    match event_track_of(w, source, uri) {
        Some(id) => w.p.queue.current == Some(id) && match track_of(w.s, id) {
            Some(t) => {
                &&& match resolved_excluding(t, w.p.failed_sources.push(source), presence(e, t)) {
                    ResolutionView::Ready(r) => picked_player(e.players, r.source, r.uri) is None,
                    ResolutionView::Gap(_) => true,
                }
                &&& match cached_file(e, t.renditions, 0) {
                    Some(path) => picked_player(e.players, "local"@, path) is None,
                    None => true,
                }
            },
            None => false,
        },
        None => false,
    }
}

/// What is left of `w` once one more track failed for good: the next one is played, or, at the
/// limit, playback stops and what is queued stays.
pub open spec fn gone_on(w: World, r: World, e: EnvView, c: CacheView) -> bool {
    if w.p.load_failures + 1 < MAX_LOAD_FAILURES {
        &&& r.p.load_failures == w.p.load_failures + 1
        &&& r.p.queue.repeat == w.p.queue.repeat
        &&& r.p.queue.current == upcoming(w_upcoming(w, e, c))
        &&& w.p.queue.queue.len() > 0 ==> r.p.queue.queue == w.p.queue.queue.drop_first()
    } else {
        &&& r.p.load_failures == 0
        &&& r.p.queue == (QueueView { current: None, ..w.p.queue })
        &&& r.p.now_playing is None
        &&& r.p.state == PlayerState::Stopped
    }
}

/// The next track plays, and the settings stay.
proof fn lemma_advance_goes_on(w: World, e: EnvView, c: CacheView)
    requires
        w.p.queue.repeat != RepeatSetting::RepeatTrack,
    ensures
        ({
            let r = w_advance(w, e, c, false);
            &&& r.p.load_failures == w.p.load_failures
            &&& r.p.queue.repeat == w.p.queue.repeat
            &&& r.p.queue.current == upcoming(w_upcoming(w, e, c))
            &&& w.p.queue.queue.len() > 0 ==> r.p.queue.queue == w.p.queue.queue.drop_first()
        }),
{
}

proof fn lemma_give_up_goes_on(w: World, e: EnvView, c: CacheView, source: Seq<char>, uri: Seq<char>, t: TrackView)
    requires
        w.p.queue.repeat != RepeatSetting::RepeatTrack,
        w.p.state == PlayerState::Stopped,
    ensures
        gone_on(w, w_give_up(w, e, c, source, uri, t), e, c),
{
    let w1 = w_warn(w, source, load_failed_text(t.title, uri));
    let w2 = World { p: PlaybackView { load_failures: (w1.p.load_failures + 1) as u32, ..w1.p }, ..w1 };
    if w.p.load_failures + 1 < MAX_LOAD_FAILURES {
        lemma_advance_goes_on(w2, e, c);
        lemma_same_upcoming(w, w2, e, c);
    }
}

/// What comes next depends on the queue, the context and the library alone.
proof fn lemma_same_upcoming(a: World, b: World, e: EnvView, c: CacheView)
    requires
        a.p.queue == b.p.queue,
        a.p.context == b.p.context,
        a.s == b.s,
    ensures
        upcoming(w_upcoming(a, e, c)) == upcoming(w_upcoming(b, e, c)),
{
    if context_decides(a) {
        let x = w_ready(a, e, c);
        let y = w_ready(b, e, c);
        assert(x.p.context == y.p.context && x.p.queue == y.p.queue);
        assert(ready_index(x.p) == ready_index(y.p));
    }
}

pub(crate) proof fn lemma_failed_for_good(w: World, e: EnvView, c: CacheView, source: Seq<char>, uri: Seq<char>)
    requires
        fails_for_good(w, e, source, uri),
        w.p.queue.repeat != RepeatSetting::RepeatTrack,
    ensures
        gone_on(w, w_load_failed(w, e, c, source, uri), e, c),
{
    reveal(w_load_failed);
    let id = event_track_of(w, source, uri)->0;
    let t = w.s.tracks[id.0];
    let w1 = World { p: PlaybackView { state: PlayerState::Stopped, ..w.p }, ..w };
    assert(event_track_of(w1, source, uri) == Some(id));
    let w2 = World { p: PlaybackView { failed_sources: w1.p.failed_sources.push(source), ..w1.p }, ..w1 };
    let w3 = w_from_cache(World { p: PlaybackView { pending_fallback: None, ..w2.p }, ..w2 }, e, t, true).0;
    assert(w_load_failed(w, e, c, source, uri) == w_give_up(w3, e, c, source, uri, t));
    lemma_give_up_goes_on(w3, e, c, source, uri, t);
    lemma_same_upcoming(w, w3, e, c);
}

/// Three tracks in a row that fail for good stop playback: the first two failures go on to the
/// next track, the third leaves nothing playing, and what is queued stays. In between anything
/// may happen that leaves the count of failures as it is.
pub proof fn three_failures_stop_playback(
    w1: World,
    e1: EnvView,
    c1: CacheView,
    source1: Seq<char>,
    uri1: Seq<char>,
    w2: World,
    e2: EnvView,
    c2: CacheView,
    source2: Seq<char>,
    uri2: Seq<char>,
    w3: World,
    e3: EnvView,
    c3: CacheView,
    source3: Seq<char>,
    uri3: Seq<char>,
)
    requires
        w1.p.load_failures == 0,
        fails_for_good(w1, e1, source1, uri1),
        w1.p.queue.repeat == RepeatSetting::Off,
        w2.p.load_failures == w_load_failed(w1, e1, c1, source1, uri1).p.load_failures,
        fails_for_good(w2, e2, source2, uri2),
        w2.p.queue.repeat == RepeatSetting::Off,
        w3.p.load_failures == w_load_failed(w2, e2, c2, source2, uri2).p.load_failures,
        fails_for_good(w3, e3, source3, uri3),
        w3.p.queue.repeat == RepeatSetting::Off,
    ensures
        w_load_failed(w1, e1, c1, source1, uri1).p.queue.current == upcoming(w_upcoming(w1, e1, c1)),
        w_load_failed(w2, e2, c2, source2, uri2).p.queue.current == upcoming(w_upcoming(w2, e2, c2)),
        ({
            let r = w_load_failed(w3, e3, c3, source3, uri3);
            &&& r.p.queue.current is None
            &&& r.p.now_playing is None
            &&& r.p.state == PlayerState::Stopped
            &&& r.p.queue.queue == w3.p.queue.queue
            &&& r.p.queue.history == w3.p.queue.history
            &&& r.p.load_failures == 0
        }),
{
    lemma_failed_for_good(w1, e1, c1, source1, uri1);
    lemma_failed_for_good(w2, e2, c2, source2, uri2);
    lemma_failed_for_good(w3, e3, c3, source3, uri3);
}

/// Of a player's reports only that a track plays makes playback forget the failures before it,
/// and only a failure adds to them.
pub proof fn only_playing_forgets_failures(w: World, e: EnvView, c: CacheView, ev: PlayerEvent, status: PlayerStatus)
    requires
        !(ev is Playing),
        !(ev is LoadFailed),
    ensures
        w_player_event(w, e, c, ev, status).p.load_failures == w.p.load_failures,
{
    if let PlayerEvent::Finished { source, uri } = ev {
        reveal(w_finished);
        if let Some(id) = event_track_of(w, source@, uri@) {
            let (drained, known) = w.p.progress;
            let w1 = if known == 0 && drained > 0 {
                w_learn(w, id, drained)
            } else {
                w
            };
            lemma_advance_failures(w1, e, c, false);
        }
    }
}

/// Going back and skipping forward again comes to what played.
pub proof fn back_and_forth(w: World, e: EnvView, c: CacheView, e2: EnvView, c2: CacheView)
    requires
        w.p.queue.history.len() > 1,
        w.p.now_playing is Some,
    ensures
        ({
            let back = w_previous(w, e);
            let h = w.p.queue.history;
            &&& back.p.queue.current == Some(h[h.len() - 2].0)
            &&& back.p.queue.history == h.drop_last()
            &&& w_next(back, e2, c2).p.queue.current == w.p.now_playing
            &&& w_next(back, e2, c2).p.queue.queue == w.p.queue.queue
        }),
{
    let id = w.p.now_playing->0;
    assert((seq![id] + w.p.queue.queue).drop_first() =~= w.p.queue.queue);
}

proof fn lemma_others_differ(v: Seq<usize>, index: usize)
    requires
        v.no_duplicates(),
    ensures
        v.filter(other_than(index)).no_duplicates(),
    decreases v.len(),
{
    reveal(Seq::filter);
    if v.len() > 0 {
        let w = v.drop_last();
        let kept = w.filter(other_than(index));
        lemma_others_differ(w, index);
        if v.last() != index {
            assert forall|i: int| 0 <= i < kept.len() implies kept[i] != v.last() by {
                assert(kept.contains(kept[i]));
                w.lemma_filter_contains_rev(other_than(index), kept[i]);
                assert(w.contains(kept[i]));
                let k = choose|k: int| 0 <= k < w.len() && w[k] == kept[i];
                assert(v[k] != v[v.len() - 1]);
            }
        }
    }
}

/// An order by chance holds every other track of the context once, and not the one that plays:
/// each track has its turn before any comes again, and none is played twice in a row.
pub proof fn shuffled_order_is_fair(deal: Seq<usize>, index: usize)
    requires
        deal.no_duplicates(),
        deal.len() > 1,
    ensures
        dealt(deal, index).no_duplicates(),
        forall|k: usize| #[trigger] dealt(deal, index).contains(k) <==> deal.contains(k) && k != index,
{
    let d = dealt(deal, index);
    let other = other_than(index);
    lemma_others_differ(deal, index);
    assert forall|k: usize| #[trigger] d.contains(k) <==> deal.contains(k) && k != index by {
        if d.contains(k) {
            let j = choose|j: int| 0 <= j < d.len() && d[j] == k;
            deal.lemma_filter_pred(other, j);
            deal.lemma_filter_contains_rev(other, k);
        }
        if deal.contains(k) && k != index {
            let j = choose|j: int| 0 <= j < deal.len() && deal[j] == k;
            assert(other(deal[j]));
            deal.lemma_filter_contains(other, j);
        }
    }
}

/// While the order by chance lasts, each of its tracks is taken once, from its end.
pub proof fn shuffled_order_is_followed(w: World, e: EnvView, c: CacheView)
    requires
        w.p.queue.shuffle,
        w.p.context is Some,
        w.p.context->0.shuffle_bag.len() > 0,
        w.p.context->0.shuffle_bag.last() < w.p.context->0.tracks.len(),
    ensures
        ({
            let x = w.p.context->0;
            let (after, ok) = w_next_in_context(w, e, c);
            &&& ok
            &&& after.p.queue.current == Some(x.tracks[x.shuffle_bag.last() as int])
            &&& after.p.context == Some(
                ContextView { index: x.shuffle_bag.last(), shuffle_bag: x.shuffle_bag.drop_last(), ..x },
            )
        }),
{
}

} // verus!
