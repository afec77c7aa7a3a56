//! Taking over the indexes that stand beside the index of the cache: which they are, what each
//! brings, and that nothing is lost when one of them cannot be read to its end.

use vstd::prelude::*;
use crate::media_cache::{extra_index, is_extra_index, merged_index, MediaCache, MergeCount};
use crate::strmap::StrMap;
use crate::text::{append_decimal, append_str, decimal, str_views, string_of};

verus! {

/// Another index, as far as it could be read.
pub enum Incoming {
    /// It is no index.
    Unusable,
    Entries(StrMap<String>),
    /// It was read, but taking it over failed part of the way.
    Broken,
}

/// Whether an index beside the index of the cache is to be taken over.
pub open spec fn wanted_index(stem: Seq<char>, live: Seq<char>) -> spec_fn(Seq<char>) -> bool {
    |name: Seq<char>| extra_index(name, stem, live)
}

/// The files of a directory that are further indexes of the cache, in the order of the directory.
pub fn extra_indexes(names: &Vec<String>, stem: &str, live: &str) -> (r: Vec<String>)
    ensures
        str_views(r@) == str_views(names@).filter(wanted_index(stem@, live@)),
{
    let mut out: Vec<String> = Vec::new();
    let ghost all = str_views(names@);
    let ghost keep = wanted_index(stem@, live@);
    let n: usize = names.len();
    let mut i: usize = 0;
    proof {
        reveal(Seq::filter);
        assert(all.take(0).filter(keep) =~= seq![]);
        assert(str_views(out@) =~= seq![]);
    }
    while i < n
        invariant
            i <= n == names@.len(),
            all == str_views(names@),
            all.len() == n,
            keep == wanted_index(stem@, live@),
            str_views(out@) == all.take(i as int).filter(keep),
        decreases n - i,
    {
        let ghost before = out@;
        proof {
            reveal(Seq::filter);
            assert(all.take(i + 1).drop_last() =~= all.take(i as int));
            assert(all.take(i + 1).last() == names@[i as int]@);
        }
        if is_extra_index(&names[i], stem, live) {
            out.push(names[i].clone());
            assert(str_views(out@) =~= str_views(before).push(names@[i as int]@));
        }
        i = i + 1;
    }
    assert(all.take(n as int) =~= all);
    out
}

/// What the first `n` indexes come to: the entries, which were taken over, and whether one failed.
pub struct IngestView {
    pub index: Map<Seq<char>, String>,
    pub taken: Seq<int>,
    /// What each of those brought: inserted, without a file, skipped.
    pub counts: Seq<(nat, nat, nat)>,
    pub failed: bool,
}

/// The first `n` indexes are taken over one after the other, those that are none are passed over,
/// and the first that fails ends it.
pub open spec fn ingested(m: Map<Seq<char>, String>, extras: Seq<Incoming>, dir: Seq<char>, files: Set<Seq<char>>, n: int) -> IngestView
    decreases n,
{
    if n <= 0 || n > extras.len() {
        IngestView { index: m, taken: seq![], counts: seq![], failed: false }
    } else {
        let v = ingested(m, extras, dir, files, n - 1);
        if v.failed {
            v
        } else {
            match extras[n - 1] {
                Incoming::Unusable => v,
                Incoming::Entries(t) => {
                    let g = merged_index(v.index, t.keys(), t.values(), dir, files, t.keys().len() as int);
                    IngestView {
                        index: g.index,
                        taken: v.taken.push(n - 1),
                        counts: v.counts.push((g.inserted, g.fileless, g.skipped)),
                        ..v
                    }
                },
                Incoming::Broken => IngestView { failed: true, ..v },
            }
        }
    }
}

pub open spec fn count_view(c: MergeCount) -> (nat, nat, nat) {
    (c.inserted as nat, c.fileless as nat, c.skipped as nat)
}

pub open spec fn count_views(v: Seq<MergeCount>) -> Seq<(nat, nat, nat)> {
    v.map_values(|c: MergeCount| count_view(c))
}

/// What came of it: the indexes whose files are deleted, and what each brought.
pub struct Ingested {
    pub delete: Vec<usize>,
    pub counts: Vec<MergeCount>,
    /// The index was put back to what it was, and nothing is deleted.
    pub restored: bool,
}

impl MediaCache {
    /// Takes over the indexes that stand beside this one; entries that are there already stay.
    /// Where one fails part of the way, the index is put back to what it was.
    pub fn ingest_extra_indexes(&mut self, extras: &Vec<Incoming>, files: &StrMap<()>) -> (r: Ingested)
        ensures
            final(self).dir == old(self).dir,
            ({
                let v = ingested(old(self).index@, extras@, old(self).dir@, files@.dom(), extras@.len() as int);
                &&& r.restored == v.failed
                &&& final(self).index@ == (if v.failed {
                    old(self).index@
                } else {
                    v.index
                })
                &&& r.delete@.map_values(|k: usize| k as int) == (if v.failed {
                    seq![]
                } else {
                    v.taken
                })
                &&& count_views(r.counts@) == v.counts
            }),
    {
        let backup = self.index.duplicate();
        let ghost m = self.index@;
        let ghost ix = |k: usize| k as int;
        let mut delete: Vec<usize> = Vec::new();
        let mut counts: Vec<MergeCount> = Vec::new();
        let n: usize = extras.len();
        let mut i: usize = 0;
        assert(delete@.map_values(ix) =~= seq![]);
        assert(count_views(counts@) =~= seq![]);
        while i < n
            invariant
                i <= n == extras@.len(),
                m == old(self).index@,
                backup@ == m,
                ix == (|k: usize| k as int),
                self.dir == old(self).dir,
                ({
                    let v = ingested(m, extras@, old(self).dir@, files@.dom(), i as int);
                    &&& !v.failed
                    &&& self.index@ == v.index
                    &&& delete@.map_values(ix) == v.taken
                    &&& count_views(counts@) == v.counts
                }),
            decreases n - i,
        {
            match &extras[i] {
                Incoming::Unusable => {},
                Incoming::Entries(t) => {
                    let ghost before = delete@;
                    let ghost told = counts@;
                    let c = self.merge_index(t, files);
                    delete.push(i);
                    counts.push(c);
                    assert(delete@.map_values(ix) =~= before.map_values(ix).push(i as int));
                    assert(count_views(counts@) =~= count_views(told).push(count_view(c)));
                },
                Incoming::Broken => {
                    self.index = backup;
                    let none: Vec<usize> = Vec::new();
                    proof {
                        lemma_failure_ends_it(m, extras@, old(self).dir@, files@.dom(), i + 1, n as int);
                        assert(none@.map_values(ix) =~= seq![]);
                    }
                    return Ingested { delete: none, counts, restored: true };
                },
            }
            i = i + 1;
        }
        Ingested { delete, counts, restored: false }
    }
}

proof fn lemma_failure_ends_it(m: Map<Seq<char>, String>, extras: Seq<Incoming>, dir: Seq<char>, files: Set<Seq<char>>, k: int, n: int)
    requires
        0 < k <= n <= extras.len(),
        ingested(m, extras, dir, files, k).failed,
    ensures
        ingested(m, extras, dir, files, n) == ingested(m, extras, dir, files, k),
    decreases n,
{
    if n > k {
        lemma_failure_ends_it(m, extras, dir, files, k, n - 1);
    }
}

/// Taking over further indexes loses no entry of this one.
pub proof fn ingesting_keeps_entries(m: Map<Seq<char>, String>, extras: Seq<Incoming>, dir: Seq<char>, files: Set<Seq<char>>, n: int)
    requires
        0 <= n <= extras.len(),
        forall|i: int| 0 <= i < extras.len() ==> (#[trigger] extras[i] matches Incoming::Entries(t) ==> t.wf()),
    ensures
        forall|k: Seq<char>| #[trigger]
            m.dom().contains(k) ==> ingested(m, extras, dir, files, n).index.dom().contains(k) && ingested(
                m,
                extras,
                dir,
                files,
                n,
            ).index[k] == m[k],
    decreases n,
{
    if n > 0 {
        ingesting_keeps_entries(m, extras, dir, files, n - 1);
        let v = ingested(m, extras, dir, files, n - 1);
        if !v.failed {
            if let Incoming::Entries(t) = extras[n - 1] {
                t.keys_are_the_domain();
                crate::media_cache::merging_keeps_entries(v.index, t.keys(), t.values(), dir, files, t.keys().len() as int);
            }
        }
    }
}

/// The message of an index that was taken over.
pub open spec fn ingested_text(path: Seq<char>, c: MergeCount) -> Seq<char> {
    "ingested "@ + path + ": inserted "@ + decimal(c.inserted as nat) + (if c.fileless > 0 {
        " ("@ + decimal(c.fileless as nat) + " without a file, will be dropped by the next prune)"@
    } else {
        seq![]
    }) + ", skipped "@ + decimal(c.skipped as nat)
}

pub fn ingested_message(path: &str, c: MergeCount) -> (r: String)
    ensures
        r@ == ingested_text(path@, c),
{
    let mut v: Vec<char> = Vec::new();
    append_str(&mut v, "ingested ");
    append_str(&mut v, path);
    append_str(&mut v, ": inserted ");
    append_decimal(&mut v, c.inserted as u64);
    if c.fileless > 0 {
        append_str(&mut v, " (");
        append_decimal(&mut v, c.fileless as u64);
        append_str(&mut v, " without a file, will be dropped by the next prune)");
    }
    append_str(&mut v, ", skipped ");
    append_decimal(&mut v, c.skipped as u64);
    assert(v@ =~= ingested_text(path@, c));
    string_of(&v)
}

} // verus!
