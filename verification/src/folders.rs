//! The playlists and saved albums of a source: when they are fetched, and what an answer means.
//! Times are milliseconds of a clock that never goes back.

use vstd::prelude::*;
use crate::queue::bumped;
use crate::scan::within;
use crate::store::pair_views;
use crate::traits::BrowseNode;

verus! {

/// The least gap between two attempts to fetch the folders of a source.
pub const PLAYLISTS_RETRY_FLOOR: u64 = 30_000;

/// How often a list that is still loading is looked at again.
pub const PLAYLISTS_POLL: u64 = 300;

/// The folders of a source, each with its place in the source's tree.
pub struct Folders {
    pub folders: Vec<(String, BrowseNode)>,
    pub generation: u64,
    /// A fetch is running.
    pub browsing: bool,
    /// The last fetch ended well; it need not be repeated.
    pub settled: bool,
    pub last_attempt: Option<u64>,
}

pub struct FoldersView {
    pub folders: Seq<(Seq<char>, Option<Seq<char>>)>,
    pub generation: u64,
    pub browsing: bool,
    pub settled: bool,
    pub last_attempt: Option<u64>,
}

pub open spec fn folder_views(v: Seq<(String, BrowseNode)>) -> Seq<(Seq<char>, Option<Seq<char>>)> {
    v.map_values(|f: (String, BrowseNode)| (f.0@, f.1@))
}

impl View for Folders {
    type V = FoldersView;

    open spec fn view(&self) -> FoldersView {
        FoldersView {
            folders: folder_views(self.folders@),
            generation: self.generation,
            browsing: self.browsing,
            settled: self.settled,
            last_attempt: self.last_attempt,
        }
    }
}

pub fn clone_folders(v: &Vec<(String, BrowseNode)>) -> (r: Vec<(String, BrowseNode)>)
    ensures
        folder_views(r@) == folder_views(v@),
{
    let mut out: Vec<(String, BrowseNode)> = Vec::new();
    let mut i: usize = 0;
    while i < v.len()
        invariant
            i <= v@.len(),
            out@.len() == i,
            forall|j: int| 0 <= j < i ==> (#[trigger] out@[j]).0@ == v@[j].0@ && out@[j].1@ == v@[j].1@,
        decreases v@.len() - i,
    {
        out.push((v[i].0.clone(), v[i].1.clone()));
        i = i + 1;
    }
    assert(folder_views(out@) =~= folder_views(v@));
    out
}

/// Stored folders as they stand in a list.
pub open spec fn from_stored(v: Seq<(Seq<char>, Seq<char>)>) -> Seq<(Seq<char>, Option<Seq<char>>)> {
    v.map_values(|p: (Seq<char>, Seq<char>)| (p.0, Some(p.1)))
}

/// The folders that can be stored: those with a path.
pub open spec fn to_store(v: Seq<(Seq<char>, Option<Seq<char>>)>) -> Seq<(Seq<char>, Seq<char>)>
    decreases v.len(),
{
    if v.len() == 0 {
        seq![]
    } else {
        match v.last().1 {
            Some(p) => to_store(v.drop_last()).push((v.last().0, p)),
            None => to_store(v.drop_last()),
        }
    }
}

/// What was stored of folders that all have paths is read back as it was.
pub proof fn stored_folders_round_trip(v: Seq<(Seq<char>, Option<Seq<char>>)>)
    requires
        forall|i: int| 0 <= i < v.len() ==> (#[trigger] v[i]).1 is Some,
    ensures
        from_stored(to_store(v)) == v,
    decreases v.len(),
{
    if v.len() > 0 {
        stored_folders_round_trip(v.drop_last());
        let (n, p) = (v.last().0, v.last().1->0);
        assert(from_stored(to_store(v)) =~= from_stored(to_store(v.drop_last())).push((n, Some(p))));
        assert(v.last() == (n, Some(p)));
        assert(v.drop_last().push(v.last()) =~= v);
    } else {
        assert(from_stored(to_store(v)) =~= v);
    }
}

/// What an answer means for a fetch.
#[derive(Clone, Copy, Debug, PartialEq, Eq, Structural)]
pub enum FolderStep {
    /// The list is complete.
    Done,
    /// The source failed.
    Failed,
    /// More is coming.
    Poll,
}

pub open spec fn folder_step(partial: bool, errored: bool) -> FolderStep {
    if !partial && !errored {
        FolderStep::Done
    } else if errored {
        FolderStep::Failed
    } else {
        FolderStep::Poll
    }
}

/// The folders after an answer. A list that is cut short or empty never replaces a longer one. A
/// complete one that holds something settles where it need not hold a real playlist, or does.
pub open spec fn folders_landed(f: FoldersView, new: Seq<(Seq<char>, Option<Seq<char>>)>, partial: bool, errored: bool, settles: bool) -> FoldersView {
    let clean = !partial && !errored;
    let take = (clean && new.len() > 0) || new.len() > f.folders.len();
    FoldersView {
        folders: if take {
            new
        } else {
            f.folders
        },
        generation: if take {
            bumped(f.generation)
        } else {
            f.generation
        },
        settled: if clean {
            settles && new.len() > 0
        } else {
            f.settled
        },
        ..f
    }
}

/// Whether a fetch starts now.
pub open spec fn folders_due(f: FoldersView, now: u64) -> bool {
    !f.browsing && !f.settled && !(f.last_attempt matches Some(at) && within(at, now, PLAYLISTS_RETRY_FLOOR))
}

impl Folders {
    /// The folders that were stored.
    pub fn hydrated(stored: &Vec<(String, String)>) -> (r: Folders)
        ensures
            r@ == (FoldersView {
                folders: from_stored(pair_views(stored@)),
                generation: 1,
                browsing: false,
                settled: false,
                last_attempt: None,
            }),
    {
        let mut out: Vec<(String, BrowseNode)> = Vec::new();
        let mut i: usize = 0;
        while i < stored.len()
            invariant
                i <= stored@.len(),
                out@.len() == i,
                forall|j: int|
                    0 <= j < i ==> (#[trigger] out@[j]).0@ == stored@[j].0@ && out@[j].1@ == Some(stored@[j].1@),
            decreases stored@.len() - i,
        {
            out.push((stored[i].0.clone(), BrowseNode::Path(stored[i].1.clone())));
            i = i + 1;
        }
        assert(folder_views(out@) =~= from_stored(pair_views(stored@)));
        Folders { folders: out, generation: 1, browsing: false, settled: false, last_attempt: None }
    }

    /// Starts a fetch, if one is due; says whether it is.
    pub fn start(&mut self, now: u64) -> (r: bool)
        ensures
            r == folders_due(old(self)@, now),
            final(self)@ == (if r {
                FoldersView { browsing: true, last_attempt: Some(now), ..old(self)@ }
            } else {
                old(self)@
            }),
    {
        if self.browsing || self.settled {
            return false;
        }
        if let Some(at) = self.last_attempt {
            if now.saturating_sub(at) < PLAYLISTS_RETRY_FLOOR {
                return false;
            }
        }
        self.browsing = true;
        self.last_attempt = Some(now);
        true
    }

    /// Takes an answer.
    pub fn landed(&mut self, new: &Vec<(String, BrowseNode)>, partial: bool, errored: bool, settles: bool) -> (r: FolderStep)
        ensures
            r == folder_step(partial, errored),
            final(self)@ == folders_landed(old(self)@, folder_views(new@), partial, errored, settles),
    {
        let clean: bool = !partial && !errored;
        if (clean && new.len() > 0) || new.len() > self.folders.len() {
            self.folders = clone_folders(new);
            self.generation = self.generation.wrapping_add(1);
        }
        if clean {
            self.settled = settles && new.len() > 0;
            FolderStep::Done
        } else if errored {
            FolderStep::Failed
        } else {
            FolderStep::Poll
        }
    }

    /// The folders that can be stored.
    pub fn storable(&self) -> (r: Vec<(String, String)>)
        ensures
            pair_views(r@) == to_store(self@.folders),
    {
        let ghost v = self@.folders;
        let mut out: Vec<(String, String)> = Vec::new();
        let mut i: usize = 0;
        assert(v.take(0) =~= seq![]);
        assert(pair_views(out@) =~= seq![]);
        while i < self.folders.len()
            invariant
                i <= self.folders@.len(),
                v == self@.folders,
                pair_views(out@) == to_store(v.take(i as int)),
            decreases self.folders@.len() - i,
        {
            assert(v.take(i + 1).drop_last() =~= v.take(i as int));
            assert(v[i as int] == (self.folders@[i as int].0@, self.folders@[i as int].1@));
            if let BrowseNode::Path(p) = &self.folders[i].1 {
                let ghost before = out@;
                out.push((self.folders[i].0.clone(), p.clone()));
                assert(pair_views(out@) =~= pair_views(before).push((v[i as int].0, p@)));
            }
            i = i + 1;
        }
        assert(v.take(i as int) =~= v);
        out
    }
}

/// A list that is cut short or empty never replaces a longer one that is known.
pub proof fn short_answers_keep_the_list(f: FoldersView, new: Seq<(Seq<char>, Option<Seq<char>>)>, partial: bool, errored: bool, settles: bool)
    requires
        partial || errored || new.len() == 0,
    ensures
        folders_landed(f, new, partial, errored, settles).folders.len() >= f.folders.len(),
        new.len() <= f.folders.len() ==> folders_landed(f, new, partial, errored, settles).folders == f.folders,
{
}

/// A fetch that failed or brought nothing can be repeated, at most once in each gap.
pub proof fn empty_answers_are_retried(f: FoldersView, new: Seq<(Seq<char>, Option<Seq<char>>)>, partial: bool, errored: bool, settles: bool, now: u64)
    requires
        !f.settled,
        partial || errored || new.len() == 0,
        f.last_attempt is Some,
    ensures
        ({
            let g = FoldersView { browsing: false, ..folders_landed(f, new, partial, errored, settles) };
            folders_due(g, now) == !within(f.last_attempt->0, now, PLAYLISTS_RETRY_FLOOR)
        }),
{
}

} // verus!
