//! From a track to the rendition that is played or exported.

use vstd::prelude::*;
use crate::text::{chars_of, string_of, strip_prefix, stripped};
use crate::types::{
    format_minutes, minutes_text, rendition_views, Playlist, Quality, Rendition, RenditionView,
    SourceId, Track, TrackId, TrackView, track_views,
};

verus! {

/// What a rendition is wanted for.
pub enum Target {
    Playback,
    ExportM3u,
    ExportTo(SourceId),
}

/// The rendition, or why there is none.
pub enum Resolution {
    Ready(Rendition),
    Gap { reason: String },
}

pub enum ResolutionView {
    Ready(RenditionView),
    Gap(Seq<char>),
}

impl View for Resolution {
    type V = ResolutionView;

    open spec fn view(&self) -> ResolutionView {
        match *self {
            Resolution::Ready(r) => ResolutionView::Ready(r@),
            Resolution::Gap { reason } => ResolutionView::Gap(reason@),
        }
    }
}

/// Whether a source is the local one, whose renditions are files.
pub fn is_local_source(source: &SourceId) -> (r: bool)
    ensures
        r == (source@ == "local"@),
{
    source.named("local")
}

/// The path of a local address, which may be written as a `file://` URL.
pub open spec fn local_path(uri: Seq<char>) -> Seq<char> {
    match stripped(uri, "file://"@) {
        Some(p) => p,
        None => uri,
    }
}

/// Takes a `file://` prefix off.
pub fn local_path_from_uri(uri: &str) -> (r: String)
    ensures
        r@ == local_path(uri@),
{
    let c = chars_of(uri);
    match strip_prefix(&c, "file://") {
        Some(p) => string_of(&p),
        None => uri.to_owned(),
    }
}

/// Higher is better: local, then remote lossless, lossy and unknown.
pub open spec fn rank_of(r: RenditionView) -> u8 {
    if r.source == "local"@ {
        4
    } else {
        match r.quality {
            Quality::Lossless { .. } => 3,
            Quality::Lossy { .. } => 2,
            Quality::Unknown => 1,
        }
    }
}

/// Whether `b` is at least as good as `a`: by rank, then by the later time.
pub open spec fn no_worse(a: RenditionView, b: RenditionView) -> bool {
    rank_of(a) < rank_of(b) || (rank_of(a) == rank_of(b) && !b.added_at.before(a.added_at))
}

/// The best of the first `n` renditions among those that count; of equal ones the last.
pub open spec fn best_of(v: Seq<RenditionView>, ok: Seq<bool>, n: int) -> Option<int>
    decreases n,
{
    if n <= 0 || n > v.len() || n > ok.len() {
        None
    } else {
        match best_of(v, ok, n - 1) {
            None => if ok[n - 1] {
                Some(n - 1)
            } else {
                None
            },
            Some(k) => if ok[n - 1] && no_worse(v[k], v[n - 1]) {
                Some(n - 1)
            } else {
                Some(k)
            },
        }
    }
}

/// The best rendition is one that counts, and none that counts is better; there is one exactly
/// when any counts.
pub proof fn best_is_best(v: Seq<RenditionView>, ok: Seq<bool>, n: int)
    requires
        0 <= n <= v.len(),
        n <= ok.len(),
    ensures
        match best_of(v, ok, n) {
            Some(k) => 0 <= k < n && ok[k] && forall|j: int|
                0 <= j < n && ok[j] ==> no_worse(#[trigger] v[j], v[k]),
            None => forall|j: int| 0 <= j < n ==> !#[trigger] ok[j],
        },
    decreases n,
{
    if n > 0 {
        best_is_best(v, ok, n - 1);
        if let Some(k) = best_of(v, ok, n - 1) {
            if ok[n - 1] && no_worse(v[k], v[n - 1]) {
                assert forall|j: int| 0 <= j < n && ok[j] implies no_worse(
                    #[trigger] v[j],
                    v[n - 1],
                ) by {
                    if j < n - 1 {
                        assert(no_worse(v[j], v[k]));
                    }
                }
            }
        }
    }
}

/// Whether a rendition can be used now: everything remote, and a local file that is there.
pub open spec fn live(r: RenditionView, present: bool) -> bool {
    r.source != "local"@ || present
}

pub open spec fn playable(v: Seq<RenditionView>, present: Seq<bool>) -> Seq<bool> {
    Seq::new(v.len(), |i: int| live(v[i], present[i]))
}

pub open spec fn local_files(v: Seq<RenditionView>, present: Seq<bool>) -> Seq<bool> {
    Seq::new(v.len(), |i: int| v[i].source == "local"@ && present[i])
}

pub open spec fn remote_ones(v: Seq<RenditionView>) -> Seq<bool> {
    Seq::new(v.len(), |i: int| v[i].source != "local"@)
}

/// The playable renditions on other sources than the excluded ones.
pub open spec fn other_sources(
    v: Seq<RenditionView>,
    present: Seq<bool>,
    exclude: Seq<Seq<char>>,
) -> Seq<bool> {
    Seq::new(v.len(), |i: int| live(v[i], present[i]) && !exclude.contains(v[i].source))
}

/// The first rendition on a source.
pub open spec fn first_on(v: Seq<RenditionView>, source: Seq<char>, i: int) -> Option<int>
    decreases v.len() - i,
{
    if i < 0 || i >= v.len() {
        None
    } else if v[i].source == source {
        Some(i)
    } else {
        first_on(v, source, i + 1)
    }
}

pub open spec fn quoted(before: Seq<char>, title: Seq<char>) -> Seq<char> {
    before + title + "\""@
}

pub enum TargetView {
    Playback,
    ExportM3u,
    ExportTo(Seq<char>),
}

impl View for Target {
    type V = TargetView;

    open spec fn view(&self) -> TargetView {
        match *self {
            Target::Playback => TargetView::Playback,
            Target::ExportM3u => TargetView::ExportM3u,
            Target::ExportTo(s) => TargetView::ExportTo(s@),
        }
    }
}

/// The rendition of a track for a target. `present` tells of each rendition whether its local
/// file is there.
pub open spec fn resolved(t: TrackView, target: TargetView, present: Seq<bool>) -> ResolutionView {
    let v = t.renditions;
    let n = v.len() as int;
    match target {
        TargetView::ExportTo(s) => match first_on(v, s, 0) {
            Some(i) => ResolutionView::Ready(v[i]),
            None => ResolutionView::Gap("no rendition on source "@ + s),
        },
        TargetView::ExportM3u => match best_of(v, local_files(v, present), n) {
            Some(i) => ResolutionView::Ready(v[i]),
            None => match best_of(v, remote_ones(v), n) {
                Some(i) => ResolutionView::Ready(v[i]),
                None => ResolutionView::Gap(quoted("nothing exportable for \""@, t.title)),
            },
        },
        TargetView::Playback => match best_of(v, playable(v, present), n) {
            Some(i) => ResolutionView::Ready(v[i]),
            None => ResolutionView::Gap(quoted("nothing playable for \""@, t.title)),
        },
    }
}

/// The rendition for playback that is on none of the excluded sources.
pub open spec fn resolved_excluding(
    t: TrackView,
    exclude: Seq<Seq<char>>,
    present: Seq<bool>,
) -> ResolutionView {
    let v = t.renditions;
    match best_of(v, other_sources(v, present, exclude), v.len() as int) {
        Some(i) => ResolutionView::Ready(v[i]),
        None => ResolutionView::Gap(quoted("no other rendition playable for \""@, t.title)),
    }
}

pub open spec fn source_views(v: Seq<SourceId>) -> Seq<Seq<char>> {
    v.map_values(|s: SourceId| s@)
}

fn playback_rank(r: &Rendition) -> (n: u8)
    ensures
        n == rank_of(r@),
{
    if is_local_source(&r.source) {
        4
    } else {
        match r.quality {
            Quality::Lossless { .. } => 3,
            Quality::Lossy { .. } => 2,
            Quality::Unknown => 1,
        }
    }
}

fn best_by_rank(v: &Vec<Rendition>, ok: &Vec<bool>) -> (r: Option<usize>)
    requires
        ok@.len() == v@.len(),
    ensures
        match r {
            Some(i) => i < v@.len() && best_of(rendition_views(v@), ok@, v@.len() as int) == Some(
                i as int,
            ),
            None => best_of(rendition_views(v@), ok@, v@.len() as int) is None,
        },
{
    let ghost all = rendition_views(v@);
    let mut best: Option<usize> = None;
    let mut i: usize = 0;
    while i < v.len()
        invariant
            i <= v@.len(),
            ok@.len() == v@.len(),
            all == rendition_views(v@),
            match best {
                Some(k) => k < i && best_of(all, ok@, i as int) == Some(k as int),
                None => best_of(all, ok@, i as int) is None,
            },
        decreases v@.len() - i,
    {
        if ok[i] {
            match best {
                None => {
                    best = Some(i);
                },
                Some(k) => {
                    let a: u8 = playback_rank(&v[k]);
                    let b: u8 = playback_rank(&v[i]);
                    if a < b || (a == b && !v[k].added_at.later_than(&v[i].added_at)) {
                        best = Some(i);
                    }
                },
            }
        }
        i = i + 1;
    }
    best
}

fn gap(before: &str, title: &str) -> (r: Resolution)
    ensures
        r@ == ResolutionView::Gap(quoted(before@, title@)),
{
    let mut reason = before.to_owned();
    reason.append(title);
    reason.append("\"");
    Resolution::Gap { reason }
}

pub fn contains_source(v: &Vec<SourceId>, s: &SourceId) -> (r: bool)
    ensures
        r == source_views(v@).contains(s@),
{
    let mut i: usize = 0;
    while i < v.len()
        invariant
            i <= v@.len(),
            forall|j: int| 0 <= j < i ==> v@[j]@ != s@,
        decreases v@.len() - i,
    {
        if v[i].same(s) {
            assert(source_views(v@)[i as int] == s@);
            return true;
        }
        i = i + 1;
    }
    proof {
        if source_views(v@).contains(s@) {
            let j = choose|j: int| 0 <= j < v@.len() && source_views(v@)[j] == s@;
            assert(v@[j]@ == s@);
        }
    }
    false
}

pub struct Resolver;

impl Resolver {
    /// Whether a rendition can be used now, given whether its local file is there.
    pub fn is_live(r: &Rendition, present: bool) -> (l: bool)
        ensures
            l == live(r@, present),
    {
        if is_local_source(&r.source) {
            present
        } else {
            true
        }
    }

    /// Picks the rendition of a track for a target.
    pub fn resolve_track(t: &Track, target: &Target, present: &Vec<bool>) -> (r: Resolution)
        requires
            present@.len() == t.renditions@.len(),
        ensures
            r@ == resolved(t@, target@, present@),
    {
        let ghost v = t@.renditions;
        match target {
            Target::ExportTo(s) => {
                let mut i: usize = 0;
                while i < t.renditions.len()
                    invariant
                        i <= t.renditions@.len(),
                        v == t@.renditions,
                        target@ == TargetView::ExportTo(s@),
                        first_on(v, s@, i as int) == first_on(v, s@, 0),
                    decreases t.renditions@.len() - i,
                {
                    assert(v[i as int] == t.renditions@[i as int]@);
                    if t.renditions[i].source.same(s) {
                        return Resolution::Ready(t.renditions[i].clone());
                    }
                    i = i + 1;
                }
                let mut reason = "no rendition on source ".to_owned();
                reason.append(s.as_str());
                Resolution::Gap { reason }
            },
            Target::ExportM3u => {
                let mut files: Vec<bool> = Vec::new();
                let mut remote: Vec<bool> = Vec::new();
                let mut i: usize = 0;
                while i < t.renditions.len()
                    invariant
                        i <= t.renditions@.len(),
                        v == t@.renditions,
                        present@.len() == t.renditions@.len(),
                        files@.len() == i,
                        remote@.len() == i,
                        forall|j: int|
                            0 <= j < i ==> files@[j] == local_files(v, present@)[j] && remote@[j]
                                == remote_ones(v)[j],
                    decreases t.renditions@.len() - i,
                {
                    assert(v[i as int] == t.renditions@[i as int]@);
                    let local: bool = is_local_source(&t.renditions[i].source);
                    files.push(local && present[i]);
                    remote.push(!local);
                    i = i + 1;
                }
                proof {
                    assert(files@ =~= local_files(v, present@));
                    assert(remote@ =~= remote_ones(v));
                }
                if let Some(k) = best_by_rank(&t.renditions, &files) {
                    assert(v[k as int] == t.renditions@[k as int]@);
                    return Resolution::Ready(t.renditions[k].clone());
                }
                if let Some(k) = best_by_rank(&t.renditions, &remote) {
                    assert(v[k as int] == t.renditions@[k as int]@);
                    return Resolution::Ready(t.renditions[k].clone());
                }
                gap("nothing exportable for \"", &t.title)
            },
            Target::Playback => {
                let mut ok: Vec<bool> = Vec::new();
                let mut i: usize = 0;
                while i < t.renditions.len()
                    invariant
                        i <= t.renditions@.len(),
                        v == t@.renditions,
                        present@.len() == t.renditions@.len(),
                        ok@.len() == i,
                        forall|j: int| 0 <= j < i ==> ok@[j] == playable(v, present@)[j],
                    decreases t.renditions@.len() - i,
                {
                    assert(v[i as int] == t.renditions@[i as int]@);
                    ok.push(Resolver::is_live(&t.renditions[i], present[i]));
                    i = i + 1;
                }
                assert(ok@ =~= playable(v, present@));
                match best_by_rank(&t.renditions, &ok) {
                    Some(k) => {
                        assert(v[k as int] == t.renditions@[k as int]@);
                        Resolution::Ready(t.renditions[k].clone())
                    },
                    None => gap("nothing playable for \"", &t.title),
                }
            },
        }
    }

    /// Picks the rendition for playback on another source than the excluded ones.
    pub fn resolve_playback_excluding(t: &Track, exclude: &Vec<SourceId>, present: &Vec<bool>) -> (r:
        Resolution)
        requires
            present@.len() == t.renditions@.len(),
        ensures
            r@ == resolved_excluding(t@, source_views(exclude@), present@),
    {
        let ghost v = t@.renditions;
        let ghost ex = source_views(exclude@);
        let mut ok: Vec<bool> = Vec::new();
        let mut i: usize = 0;
        while i < t.renditions.len()
            invariant
                i <= t.renditions@.len(),
                v == t@.renditions,
                ex == source_views(exclude@),
                present@.len() == t.renditions@.len(),
                ok@.len() == i,
                forall|j: int| 0 <= j < i ==> ok@[j] == other_sources(v, present@, ex)[j],
            decreases t.renditions@.len() - i,
        {
            assert(v[i as int] == t.renditions@[i as int]@);
            let l: bool = Resolver::is_live(&t.renditions[i], present[i]);
            let out: bool = contains_source(exclude, &t.renditions[i].source);
            ok.push(l && !out);
            i = i + 1;
        }
        assert(ok@ =~= other_sources(v, present@, ex));
        match best_by_rank(&t.renditions, &ok) {
            Some(k) => {
                assert(v[k as int] == t.renditions@[k as int]@);
                Resolution::Ready(t.renditions[k].clone())
            },
            None => gap("no other rendition playable for \"", &t.title),
        }
    }
}

/// A rendition that is picked for playback after sources failed is on none of them.
pub proof fn excluded_sources_are_not_played(t: TrackView, exclude: Seq<Seq<char>>, present: Seq<bool>)
    ensures
        resolved_excluding(t, exclude, present) matches ResolutionView::Ready(r) ==> !exclude.contains(r.source)
            && t.renditions.contains(r),
{
    let v = t.renditions;
    best_is_best(v, other_sources(v, present, exclude), v.len() as int);
}

/// What is picked for playback is live, and no live rendition of the track is better.
pub proof fn playback_picks_the_best(t: TrackView, present: Seq<bool>)
    requires
        present.len() == t.renditions.len(),
    ensures
        match resolved(t, TargetView::Playback, present) {
            ResolutionView::Ready(r) => exists|k: int|
                0 <= k < t.renditions.len() && #[trigger] t.renditions[k] == r && live(r, present[k])
                    && forall|j: int|
                    0 <= j < t.renditions.len() && live(t.renditions[j], present[j]) ==> no_worse(
                        #[trigger] t.renditions[j],
                        r,
                    ),
            ResolutionView::Gap(_) => forall|j: int|
                0 <= j < t.renditions.len() ==> !live(#[trigger] t.renditions[j], present[j]),
        },
{
    let v = t.renditions;
    let ok = playable(v, present);
    best_is_best(v, ok, v.len() as int);
    match best_of(v, ok, v.len() as int) {
        Some(k) => {
            assert(v[k] == v[k] && ok[k]);
            assert forall|j: int| 0 <= j < v.len() && live(v[j], present[j]) implies no_worse(
                #[trigger] v[j],
                v[k],
            ) by {
                assert(ok[j]);
            }
        },
        None => {
            assert forall|j: int| 0 <= j < v.len() implies !live(#[trigger] v[j], present[j]) by {
                assert(!ok[j]);
            }
        },
    }
}

/// The position of a track in a list, by its identifier.
pub open spec fn track_at(v: Seq<TrackView>, id: TrackId, i: int) -> Option<int>
    decreases v.len() - i,
{
    if i < 0 || i >= v.len() {
        None
    } else if v[i].id == id {
        Some(i)
    } else {
        track_at(v, id, i + 1)
    }
}

/// What a playlist gives for one of its tracks.
pub open spec fn item_resolution(
    id: TrackId,
    tracks: Seq<TrackView>,
    target: TargetView,
    present: Seq<Seq<bool>>,
) -> ResolutionView {
    match track_at(tracks, id, 0) {
        Some(k) => resolved(tracks[k], target, present[k]),
        None => ResolutionView::Gap("track not found"@),
    }
}

pub open spec fn bool_views(v: Seq<Vec<bool>>) -> Seq<Seq<bool>> {
    v.map_values(|b: Vec<bool>| b@)
}

pub fn find_track(tracks: &Vec<Track>, id: TrackId) -> (r: Option<usize>)
    ensures
        match r {
            Some(k) => k < tracks@.len() && track_at(track_views(tracks@), id, 0) == Some(k as int)
                && tracks@[k as int].id == id,
            None => track_at(track_views(tracks@), id, 0) is None,
        },
{
    let ghost v = track_views(tracks@);
    let mut i: usize = 0;
    while i < tracks.len()
        invariant
            i <= tracks@.len(),
            v == track_views(tracks@),
            track_at(v, id, i as int) == track_at(v, id, 0),
        decreases tracks@.len() - i,
    {
        assert(v[i as int] == tracks@[i as int]@);
        if tracks[i].id == id {
            return Some(i);
        }
        i = i + 1;
    }
    None
}

impl Resolver {
    /// Resolves every item of a playlist, in order. `present` tells of each track which of its
    /// local files are there.
    pub fn resolve_playlist(
        p: &Playlist,
        tracks: &Vec<Track>,
        target: &Target,
        present: &Vec<Vec<bool>>,
    ) -> (r: Vec<(TrackId, Resolution)>)
        requires
            present@.len() == tracks@.len(),
            forall|i: int|
                0 <= i < tracks@.len() ==> (#[trigger] present@[i])@.len()
                    == tracks@[i].renditions@.len(),
        ensures
            r@.len() == p.items@.len(),
            forall|i: int|
                0 <= i < r@.len() ==> (#[trigger] r@[i]).0 == p.items@[i] && r@[i].1@
                    == item_resolution(
                    p.items@[i],
                    track_views(tracks@),
                    target@,
                    bool_views(present@),
                ),
    {
        let mut out: Vec<(TrackId, Resolution)> = Vec::new();
        let mut i: usize = 0;
        while i < p.items.len()
            invariant
                i <= p.items@.len(),
                out@.len() == i,
                present@.len() == tracks@.len(),
                forall|k: int|
                    0 <= k < tracks@.len() ==> (#[trigger] present@[k])@.len()
                        == tracks@[k].renditions@.len(),
                forall|k: int|
                    0 <= k < i ==> (#[trigger] out@[k]).0 == p.items@[k] && out@[k].1@
                        == item_resolution(
                        p.items@[k],
                        track_views(tracks@),
                        target@,
                        bool_views(present@),
                    ),
            decreases p.items@.len() - i,
        {
            let id: TrackId = p.items[i];
            let res = match find_track(tracks, id) {
                Some(k) => {
                    proof {
                        assert(track_views(tracks@)[k as int] == tracks@[k as int]@);
                        assert(bool_views(present@)[k as int] == present@[k as int]@);
                    }
                    Resolver::resolve_track(&tracks[k], target, &present[k])
                },
                None => Resolution::Gap { reason: "track not found".to_owned() },
            };
            out.push((id, res));
            i = i + 1;
        }
        out
    }
}

impl Track {
    /// The rendition that playback picks.
    pub fn best_rendition(&self, present: &Vec<bool>) -> (r: Option<Rendition>)
        requires
            present@.len() == self.renditions@.len(),
        ensures
            match r {
                Some(x) => resolved(self@, TargetView::Playback, present@)
                    == ResolutionView::Ready(x@),
                None => resolved(self@, TargetView::Playback, present@) is Gap,
            },
    {
        match Resolver::resolve_track(self, &Target::Playback, present) {
            Resolution::Ready(r) => Some(r),
            Resolution::Gap { .. } => None,
        }
    }

    /// The length for display: the track's own, else that of the rendition that playback picks.
    pub fn duration_str(&self, present: &Vec<bool>) -> (r: String)
        requires
            present@.len() == self.renditions@.len(),
        ensures
            r@ == minutes_text(
                if self.duration_ms > 0 {
                    self.duration_ms
                } else {
                    match resolved(self@, TargetView::Playback, present@) {
                        ResolutionView::Ready(x) => x.duration_ms,
                        ResolutionView::Gap(_) => 0,
                    }
                },
            ),
    {
        let ms: u32 = if self.duration_ms > 0 {
            self.duration_ms
        } else {
            match self.best_rendition(present) {
                Some(r) => r.duration_ms,
                None => 0,
            }
        };
        format_minutes(ms)
    }
}

} // verus!
