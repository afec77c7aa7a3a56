//! A value with a count of its changes.

use vstd::prelude::*;
use crate::queue::bumped;

verus! {

/// A value that is read freely and whose every write is counted.
pub struct Revised<T> {
    value: T,
    revision: u64,
}

impl<T> Revised<T> {
    pub closed spec fn held(&self) -> T {
        self.value
    }

    pub closed spec fn revisions(&self) -> u64 {
        self.revision
    }

    pub fn new(value: T) -> (r: Revised<T>)
        ensures
            r.held() == value,
            r.revisions() == 0,
    {
        Revised { value, revision: 0 }
    }

    pub fn revision(&self) -> (r: u64)
        ensures
            r == self.revisions(),
    {
        self.revision
    }

    /// Counts a change to something that is kept elsewhere.
    pub fn touch(&mut self)
        ensures
            final(self).held() == old(self).held(),
            final(self).revisions() == bumped(old(self).revisions()),
    {
        self.revision = self.revision.wrapping_add(1);
    }

    pub fn get(&self) -> (r: &T)
        ensures
            *r == self.held(),
    {
        &self.value
    }

    /// The value for writing; the write is counted.
    pub fn write(&mut self) -> (r: &mut T)
        ensures
            *r == old(self).held(),
            final(self).held() == *final(r),
            final(self).revisions() == bumped(old(self).revisions()),
    {
        self.revision = self.revision.wrapping_add(1);
        &mut self.value
    }
}

} // verus!
