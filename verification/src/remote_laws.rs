//! What a list of a source holds while it is fetched, and how changes of it are shown.

use vstd::prelude::*;
use crate::folders::{folder_step, folders_due, folders_landed, FolderStep, FoldersView};
use crate::paged::{asked, landed as page_landed, PagedView, WalkStep};
use crate::remote::{changed_list, folded_in, holds_track, landed, loaded_of, Browse, Landing, ListView, Loaded};
use crate::types::{TrackId, TrackView};
use crate::view_cache::{adds, membership_of, shown_rows, Membership, PendingView};

verus! {

/// A walk fetches page after page at once while more is wanted than is there, and slowly after
/// that; it ends once everything is there.
pub proof fn walks_go_on_until_all_is_there<T>(l: PagedView<T>, hits: Seq<T>, total: usize, consumed: usize)
    requires
        l.consumed + consumed <= usize::MAX,
        consumed > 0,
    ensures
        ({
            let (f, step) = page_landed(l, Some((hits, total, consumed)));
            &&& l.consumed + consumed >= total ==> step is End && !f.fetching
            &&& l.consumed + consumed < total ==> (step matches WalkStep::Fetch { offset, wait } && offset == l.consumed + consumed
                && (f.items.len() < l.demand ==> wait == 0) && (f.items.len() >= l.demand ==> wait == l.page_delay))
            &&& f.total == Some(total)
        }),
{
}

/// Asking for more than before is remembered, and the first to ask starts the walk.
pub proof fn demand_is_remembered<T>(l: PagedView<T>, want: usize)
    ensures
        asked(l, want).0.demand >= want,
        asked(l, want).0.demand >= l.demand,
        asked(l, want).0.demand == want || asked(l, want).0.demand == l.demand,
        l.total is None && !l.fetching ==> asked(l, want).1 && asked(l, want).0.fetching,
        asked(l, want).0.items == l.items,
{
}

/// New tracks go behind those that are there, unless the list is replaced as a whole.
pub proof fn new_rows_go_behind(e: ListView, skip: nat, new: Seq<TrackView>, partial: bool)
    ensures
        skip > 0 ==> folded_in(e, skip, new, partial).0.tracks == e.tracks + new,
        skip == 0 ==> folded_in(e, skip, new, partial).0.tracks == new,
        folded_in(e, skip, new, partial).0.partial == partial,
        !folded_in(e, skip, new, partial).0.ingesting,
        folded_in(e, skip, new, partial).0.generation != e.generation,
        !partial ==> folded_in(e, skip, new, partial).1,
{
}

/// A track can be played at an address of a source.
pub open spec fn stands_for(t: TrackView, source: Seq<char>, uri: Seq<char>) -> bool {
    exists|k: int| 0 <= k < t.renditions.len() && (#[trigger] t.renditions[k]).source == source && t.renditions[k].uri == uri
}

/// Every row of a list is still what the source has there.
pub open spec fn agree(e: ListView, hits: Seq<TrackView>, source: Seq<char>) -> bool {
    forall|i: int| 0 <= i < e.tracks.len() ==> #[trigger] stands_for(e.tracks[i], source, hits[i].renditions[0].uri)
}

/// A saved list that still agrees with its source is kept and only grows; one that does not is
/// read anew.
pub proof fn saved_lists_are_checked(e: ListView, hits: Seq<TrackView>, partial: bool, b: Browse, source: Seq<char>, now: u64)
    requires
        b.check,
        b.cached_len == e.tracks.len(),
        hits.len() >= b.cached_len,
    ensures
        ({
            let agrees = agree(e, hits, source);
            let (r, step) = landed(e, hits, partial, false, b, source, now);
            &&& agrees && hits.len() > e.tracks.len() ==> step == Landing::Ingest(b.cached_len) && r.revalidated
            &&& agrees && hits.len() == e.tracks.len() ==> step is Settled && r.revalidated && r.partial == partial
            &&& !agrees ==> step == Landing::Ingest(0)
            &&& r.tracks == e.tracks && !r.browsing && r.consecutive_failures == 0
        }),
{
    if !agree(e, hits, source) {
        let i = choose|i: int| 0 <= i < e.tracks.len() && !#[trigger] stands_for(e.tracks[i], source, hits[i].renditions[0].uri);
        assert(!crate::remote::row_matches(e, hits, source, i));
    } else {
        assert forall|i: int| 0 <= i < b.cached_len && i < hits.len() implies #[trigger] crate::remote::row_matches(
            e,
            hits,
            source,
            i,
        ) by {
            assert(stands_for(e.tracks[i], source, hits[i].renditions[0].uri));
        }
    }
}

/// A track that was added stands at the head or at the tail of the list, where the source puts
/// it, and once; one that was taken out leaves the other rows in their order.
pub proof fn answered_changes_show(e: ListView, front: bool, t: TrackView, row: usize)
    ensures
        ({
            let a = changed_list(e, true, None, front, t).0.tracks;
            &&& holds_track(e.tracks, t.id) ==> a == e.tracks
            &&& !holds_track(e.tracks, t.id) && front ==> a.len() == e.tracks.len() + 1 && a[0] == t && a.drop_first() == e.tracks
            &&& !holds_track(e.tracks, t.id) && !front ==> a.len() == e.tracks.len() + 1 && a.last() == t && a.drop_last()
                == e.tracks
        }),
        ({
            let (r, reload) = changed_list(e, false, Some(row), front, t);
            let there = row < e.tracks.len() && e.tracks[row as int].id == t.id;
            &&& there ==> !reload && r.tracks.len() == e.tracks.len() - 1 && (forall|i: int|
                0 <= i < row ==> #[trigger] r.tracks[i] == e.tracks[i]) && (forall|i: int|
                row <= i < r.tracks.len() ==> #[trigger] r.tracks[i] == e.tracks[i + 1])
            &&& !there ==> reload && r.tracks == e.tracks
        }),
{
    let v = e.tracks;
    if !holds_track(v, t.id) {
        assert((seq![t] + v).drop_first() =~= v);
        assert(v.push(t).drop_last() =~= v);
    }
}

/// Whether a list is known whole, and what is in it.
pub proof fn loaded_lists_know(e: ListView, id: TrackId)
    ensures
        e.partial || e.browsing || e.ingesting ==> loaded_of(e, id) == Loaded::NotYet,
        !e.partial && !e.browsing && !e.ingesting && e.errored ==> loaded_of(e, id) == Loaded::Broken,
        !e.partial && !e.browsing && !e.ingesting && !e.errored ==> loaded_of(e, id) == Loaded::Complete(
            exists|i: int| 0 <= i < e.tracks.len() && (#[trigger] e.tracks[i]).id == id,
        ),
{
}

/// A track that is being added shows in the list already: at its head or at its tail.
pub proof fn pending_additions_show(list: Seq<TrackView>, t: TrackView, front: bool)
    requires
        !holds_track(list, t.id),
    ensures
        ({
            let v = seq![PendingView { track: t, add: true, position: None, front }];
            &&& front ==> shown_rows(v, list) == seq![t] + list
            &&& !front ==> shown_rows(v, list) == list.push(t)
            &&& membership_of(v, list, t.id) == Membership::PendingAdd
        }),
{
    let c = PendingView { track: t, add: true, position: None, front };
    let v = seq![c];
    assert(v.drop_last() =~= seq![]);
    assert(adds(v.drop_last(), list, true) =~= seq![]);
    assert(adds(v.drop_last(), list, false) =~= seq![]);
    assert(v.last() == c);
    assert(adds(v, list, front) =~= seq![t]);
    assert(adds(v, list, !front) =~= seq![]);
    if front {
        assert(shown_rows(v, list) =~= seq![t] + list);
    } else {
        assert(shown_rows(v, list) =~= list.push(t));
    }
    assert(v[0].track.id == t.id);
}

/// A track is a member of a list that has no unanswered change exactly if the list holds it.
pub proof fn members_are_in_the_list(list: Seq<TrackView>, id: TrackId)
    ensures
        membership_of(seq![], list, id) == Membership::Member <==> exists|i: int| 0 <= i < list.len() && (#[trigger] list[i]).id
            == id,
        membership_of(seq![], list, id) == Membership::NotMember <==> forall|i: int|
            0 <= i < list.len() ==> (#[trigger] list[i]).id != id,
{
}

/// Folders are fetched again only while they are not known for good, and at most twice a minute.
pub proof fn folders_are_fetched_now_and_again(f: FoldersView, now: u64)
    ensures
        f.browsing || f.settled ==> !folders_due(f, now),
        (f.last_attempt matches Some(at) && at <= now && now < at + 30_000) ==> !folders_due(f, now),
        !f.browsing && !f.settled && f.last_attempt is None ==> folders_due(f, now),
        !f.browsing && !f.settled && (f.last_attempt matches Some(at) && now >= at + 30_000) ==> folders_due(f, now),
{
}

/// A complete answer replaces the folders that were known.
pub proof fn complete_answers_replace_folders(f: FoldersView, new: Seq<(Seq<char>, Option<Seq<char>>)>)
    requires
        new.len() > 0,
    ensures
        folders_landed(f, new, false, false, true).folders == new,
        folders_landed(f, new, false, false, true).settled,
        folders_landed(f, new, false, false, true).generation != f.generation,
        folder_step(false, false) == FolderStep::Done,
        folder_step(true, false) == FolderStep::Poll,
        folder_step(false, true) == FolderStep::Failed,
{
}

/// A list that has come to its end is saved where it has rows that are not saved yet, and then it
/// is saved as long as it is; one that goes on is not saved here. What changed is told.
pub proof fn ended_lists_are_saved(e: ListView, hits: Seq<TrackView>, partial: bool, b: Browse, source: Seq<char>, now: u64)
    requires
        !b.check,
        hits.len() <= b.cached_len,
        e.tracks.len() <= usize::MAX,
    ensures
        ({
            let (r, step) = landed(e, hits, partial, false, b, source, now);
            let unsaved = e.persisted_len < e.tracks.len();
            &&& step matches Landing::Settled { announce, persist } && (persist <==> !partial && unsaved) && (persist
                ==> announce) && (e.partial != partial ==> announce)
            &&& !partial && unsaved ==> r.persisted_len == e.tracks.len()
            &&& partial || !unsaved ==> r.persisted_len == e.persisted_len
            &&& r.partial == partial && r.tracks == e.tracks
        }),
{
}

} // verus!
