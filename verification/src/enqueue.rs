//! Appending a remote collection to the queue as its pages come.

use vstd::prelude::*;
use crate::event::{Bus, CoreEvent};
use crate::queue::{requeued, Queue};
use crate::text::{append_decimal, append_str, decimal, string_of};
use crate::traits::BrowseNode;
use crate::types::{SourceId, TrackId};

verus! {

/// How long a collection may take to load, in milliseconds.
pub const ENQUEUE_TIMEOUT: u64 = 60_000;

/// The most tracks of one collection.
pub const ENQUEUE_CAP: usize = 500;

/// A collection that is being appended.
pub struct PendingEnqueue {
    pub source: SourceId,
    pub node: BrowseNode,
    pub name: String,
    /// How many of its tracks are in the queue already.
    pub appended: usize,
    pub deadline: u64,
}

pub open spec fn queued_text(name: Seq<char>, n: nat, capped: bool) -> Seq<char> {
    "queued "@ + name + " ("@ + decimal(n) + " tracks"@ + (if capped {
        ", first 500 only"@
    } else {
        seq![]
    }) + ")"@
}

pub fn queued_note(name: &str, n: usize, capped: bool) -> (r: String)
    ensures
        r@ == queued_text(name@, n as nat, capped),
{
    let mut v: Vec<char> = Vec::new();
    append_str(&mut v, "queued ");
    append_str(&mut v, name);
    append_str(&mut v, " (");
    append_decimal(&mut v, n as u64);
    append_str(&mut v, " tracks");
    if capped {
        append_str(&mut v, ", first 500 only");
    }
    append_str(&mut v, ")");
    assert(v@ =~= queued_text(name@, n as nat, capped));
    string_of(&v)
}

pub open spec fn count_text(head: Seq<char>, name: Seq<char>, n: nat) -> Seq<char> {
    head + name + " ("@ + decimal(n) + " tracks queued)"@
}

fn count_note(head: &str, name: &str, n: usize) -> (r: String)
    ensures
        r@ == count_text(head@, name@, n as nat),
{
    let mut v: Vec<char> = Vec::new();
    append_str(&mut v, head);
    append_str(&mut v, name);
    append_str(&mut v, " (");
    append_decimal(&mut v, n as u64);
    append_str(&mut v, " tracks queued)");
    assert(v@ =~= count_text(head@, name@, n as nat));
    string_of(&v)
}

/// How many tracks of a list go into the queue.
pub open spec fn taken(len: nat) -> nat {
    if len < ENQUEUE_CAP {
        len
    } else {
        ENQUEUE_CAP as nat
    }
}

/// What is said once a collection is through; nothing while it goes on.
pub open spec fn enqueue_text(name: Seq<char>, queued: nat, len: nat, errored: bool, loading: bool, late: bool) -> Option<Seq<char>> {
    if len > ENQUEUE_CAP {
        Some(queued_text(name, queued, true))
    } else if errored {
        Some(count_text("could not load "@, name, queued))
    } else if !loading {
        Some(
            if queued == 0 {
                "nothing to queue from "@ + name
            } else {
                queued_text(name, queued, false)
            },
        )
    } else if late {
        Some(count_text("gave up loading "@, name, queued))
    } else {
        None
    }
}

impl PendingEnqueue {
    /// Appends what the list has gained since; says so once the collection is through.
    pub fn advance(&mut self, ids: &Vec<TrackId>, errored: bool, loading: bool, queue: &mut Queue, now: u64, bus: &mut Bus) -> (r: Option<String>)
        ensures
            ({
                let n = taken(ids@.len());
                let from = old(self).appended as nat;
                let queued = if n > from {
                    n
                } else {
                    from
                };
                &&& final(self).appended == queued
                &&& final(self).source == old(self).source
                &&& final(self).node == old(self).node
                &&& final(self).name == old(self).name
                &&& final(self).deadline == old(self).deadline
                &&& final(queue)@ == (if n > from {
                    requeued(old(queue)@, old(queue)@.queue + ids@.subrange(from as int, n as int))
                } else {
                    old(queue)@
                })
                &&& final(queue).wf() == old(queue).wf()
                &&& final(bus)@ == (if n > from {
                    old(bus)@.push(CoreEvent::QueueChanged)
                } else {
                    old(bus)@
                })
                &&& match r {
                    Some(m) => enqueue_text(
                        old(self).name@,
                        queued,
                        ids@.len(),
                        errored,
                        loading,
                        now >= old(self).deadline,
                    ) == Some(m@),
                    None => enqueue_text(
                        old(self).name@,
                        queued,
                        ids@.len(),
                        errored,
                        loading,
                        now >= old(self).deadline,
                    ) is None,
                }
            }),
    {
        let take: usize = if ids.len() < ENQUEUE_CAP {
            ids.len()
        } else {
            ENQUEUE_CAP
        };
        if take > self.appended {
            let mut new: Vec<TrackId> = Vec::new();
            let from: usize = self.appended;
            let mut i: usize = from;
            while i < take
                invariant
                    from <= i <= take <= ids@.len(),
                    new@ == ids@.subrange(from as int, i as int),
                decreases take - i,
            {
                new.push(ids[i]);
                assert(ids@.subrange(from as int, i + 1) =~= ids@.subrange(from as int, i as int).push(
                    ids@[i as int],
                ));
                i = i + 1;
            }
            queue.append_many(&new, bus);
            self.appended = take;
        }
        let queued: usize = self.appended;
        if ids.len() > ENQUEUE_CAP {
            Some(queued_note(&self.name, queued, true))
        } else if errored {
            Some(count_note("could not load ", &self.name, queued))
        } else if !loading {
            if queued == 0 {
                let mut s = "nothing to queue from ".to_owned();
                s.append(&self.name);
                Some(s)
            } else {
                Some(queued_note(&self.name, queued, false))
            }
        } else if now >= self.deadline {
            Some(count_note("gave up loading ", &self.name, queued))
        } else {
            None
        }
    }
}

/// However its pages come, a collection puts at most as many tracks into the queue as allowed,
/// and once a list only grows each of its tracks goes in once.
pub proof fn enqueue_is_capped(a: Seq<TrackId>, b: Seq<TrackId>)
    requires
        a.is_prefix_of(b),
    ensures
        taken(b.len()) <= ENQUEUE_CAP,
        a.subrange(0, taken(a.len()) as int) + b.subrange(taken(a.len()) as int, taken(b.len()) as int)
            == b.subrange(0, taken(b.len()) as int),
{
    let n = taken(a.len()) as int;
    assert forall|i: int| 0 <= i < n implies a[i] == b[i] by {
        assert(a == b.subrange(0, a.len() as int));
    }
    assert(a.subrange(0, n) + b.subrange(n, taken(b.len()) as int) =~= b.subrange(0, taken(b.len()) as int));
}

} // verus!
