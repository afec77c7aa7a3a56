//! Which rendition of a track is played and which is exported.

use vstd::prelude::*;
use crate::resolver::{
    best_is_best, best_of, first_on, local_files, other_sources, playable, remote_ones, resolved,
    resolved_excluding, ResolutionView, TargetView,
};
use crate::types::{RenditionView, TrackView};

verus! {

/// Whether `r` is at least as good to play as `x`, which is playable too: nothing goes before a
/// local file, and of remote renditions a lossless one goes before a lossy one and that before one
/// of unknown quality. Between two of a kind the one that was added later goes first.
pub open spec fn preferred(r: RenditionView, x: RenditionView) -> bool {
    &&& x.source == "local"@ ==> r.source == "local"@
    &&& r.source != "local"@ && x.quality is Lossless ==> r.quality is Lossless
    &&& r.source != "local"@ && x.quality is Lossy ==> !(r.quality is Unknown)
    &&& r.source == "local"@ && x.source == "local"@ ==> !r.added_at.before(x.added_at)
    &&& r.source != "local"@ && x.source != "local"@ && r.quality is Lossless && x.quality is Lossless ==> !r.added_at.before(
        x.added_at,
    )
    &&& r.source != "local"@ && x.source != "local"@ && r.quality is Lossy && x.quality is Lossy ==> !r.added_at.before(
        x.added_at,
    )
    &&& r.source != "local"@ && x.source != "local"@ && r.quality is Unknown && x.quality is Unknown ==> !r.added_at.before(
        x.added_at,
    )
}

/// Every remote rendition can be played, and a local one whose file is there; nothing else.
pub open spec fn can_play(r: RenditionView, present: bool) -> bool {
    if r.source == "local"@ {
        present
    } else {
        true
    }
}

/// A track can be played exactly if one of its renditions can, and none is preferred to the one
/// that is played: where a local file is there, a local file is played.
pub proof fn the_preferred_rendition_plays(t: TrackView, present: Seq<bool>, j: int)
    requires
        present.len() == t.renditions.len(),
        0 <= j < t.renditions.len(),
        can_play(t.renditions[j], present[j]),
    ensures
        resolved(t, TargetView::Playback, present) matches ResolutionView::Ready(r) && preferred(r, t.renditions[j])
            && exists|k: int| 0 <= k < t.renditions.len() && #[trigger] t.renditions[k] == r && can_play(r, present[k]),
{
    let v = t.renditions;
    let ok = playable(v, present);
    best_is_best(v, ok, v.len() as int);
    assert(ok[j]);
    let k = best_of(v, ok, v.len() as int)->0;
    assert(v[k] == v[k]);
}

/// A track none of whose renditions can be played is not played.
pub proof fn unplayable_tracks_are_gaps(t: TrackView, present: Seq<bool>)
    requires
        present.len() == t.renditions.len(),
        forall|j: int| 0 <= j < t.renditions.len() ==> !can_play(#[trigger] t.renditions[j], present[j]),
    ensures
        resolved(t, TargetView::Playback, present) is Gap,
        resolved(t, TargetView::ExportM3u, present) is Gap,
{
    let v = t.renditions;
    let n = v.len() as int;
    best_is_best(v, playable(v, present), n);
    best_is_best(v, local_files(v, present), n);
    best_is_best(v, remote_ones(v), n);
}

/// After sources failed, what is played next is the preferred one of what they do not offer; it
/// is found whenever there is one.
pub proof fn fallbacks_are_preferred_too(t: TrackView, exclude: Seq<Seq<char>>, present: Seq<bool>, j: int)
    requires
        present.len() == t.renditions.len(),
        0 <= j < t.renditions.len(),
        can_play(t.renditions[j], present[j]),
        !exclude.contains(t.renditions[j].source),
    ensures
        resolved_excluding(t, exclude, present) matches ResolutionView::Ready(r) && preferred(r, t.renditions[j])
            && !exclude.contains(r.source) && exists|k: int|
            0 <= k < t.renditions.len() && #[trigger] t.renditions[k] == r && can_play(r, present[k]),
{
    let v = t.renditions;
    let ok = other_sources(v, present, exclude);
    best_is_best(v, ok, v.len() as int);
    assert(ok[j]);
    let k = best_of(v, ok, v.len() as int)->0;
    assert(v[k] == v[k]);
}

/// A track none of whose renditions is left once sources are excluded has nothing to fall back to.
pub proof fn nothing_left_is_a_gap(t: TrackView, exclude: Seq<Seq<char>>, present: Seq<bool>)
    requires
        present.len() == t.renditions.len(),
        forall|j: int|
            0 <= j < t.renditions.len() ==> !can_play(#[trigger] t.renditions[j], present[j]) || exclude.contains(
                t.renditions[j].source,
            ),
    ensures
        resolved_excluding(t, exclude, present) is Gap,
{
    let v = t.renditions;
    let ok = other_sources(v, present, exclude);
    best_is_best(v, ok, v.len() as int);
    if let Some(k) = best_of(v, ok, v.len() as int) {
        assert(can_play(v[k], present[k]));
    }
}

/// A playlist file names the local file of a track where it is there, and else the preferred of
/// its remote renditions.
pub proof fn exports_prefer_local_files(t: TrackView, present: Seq<bool>, j: int)
    requires
        present.len() == t.renditions.len(),
        0 <= j < t.renditions.len(),
        can_play(t.renditions[j], present[j]),
    ensures
        resolved(t, TargetView::ExportM3u, present) matches ResolutionView::Ready(r) && preferred(r, t.renditions[j])
            && exists|k: int| 0 <= k < t.renditions.len() && #[trigger] t.renditions[k] == r && can_play(r, present[k]),
{
    let v = t.renditions;
    let n = v.len() as int;
    let files = local_files(v, present);
    let far = remote_ones(v);
    best_is_best(v, files, n);
    best_is_best(v, far, n);
    if v[j].source == "local"@ {
        assert(files[j]);
        let k = best_of(v, files, n)->0;
        assert(v[k] == v[k]);
    } else {
        assert(far[j]);
        match best_of(v, files, n) {
            Some(k) => {
                assert(files[k]);
                assert(v[k] == v[k]);
            },
            None => {
                let k = best_of(v, far, n)->0;
                assert(far[k]);
                assert(v[k] == v[k]);
            },
        }
    }
}

proof fn lemma_first_on(v: Seq<RenditionView>, source: Seq<char>, i: int)
    requires
        0 <= i,
    ensures
        match first_on(v, source, i) {
            Some(k) => i <= k < v.len() && v[k].source == source && forall|j: int| i <= j < k ==> (#[trigger] v[j]).source
                != source,
            None => forall|j: int| i <= j < v.len() ==> (#[trigger] v[j]).source != source,
        },
    decreases v.len() - i,
{
    if i < v.len() {
        lemma_first_on(v, source, i + 1);
    }
}

/// An export to a source takes the first rendition that the track has there, and there is a gap
/// exactly if it has none.
pub proof fn exports_to_a_source_stay_on_it(t: TrackView, source: Seq<char>, present: Seq<bool>)
    ensures
        match resolved(t, TargetView::ExportTo(source), present) {
            ResolutionView::Ready(r) => r.source == source && exists|k: int|
                0 <= k < t.renditions.len() && #[trigger] t.renditions[k] == r && forall|j: int|
                    0 <= j < k ==> (#[trigger] t.renditions[j]).source != source,
            ResolutionView::Gap(_) => forall|j: int|
                0 <= j < t.renditions.len() ==> (#[trigger] t.renditions[j]).source != source,
        },
{
    lemma_first_on(t.renditions, source, 0);
    if let Some(k) = first_on(t.renditions, source, 0) {
        assert(t.renditions[k] == t.renditions[k]);
    }
}

} // verus!
