//! The latest lines of the log.

use vstd::prelude::*;
use crate::text::str_views;

verus! {

/// At most `cap` lines, the oldest first, and how many were ever pushed.
pub struct LogBuf {
    cap: usize,
    lines: Vec<String>,
    pushed: u64,
}

impl View for LogBuf {
    type V = Seq<Seq<char>>;

    closed spec fn view(&self) -> Seq<Seq<char>> {
        str_views(self.lines@)
    }
}

/// The last `n` lines.
pub open spec fn last_lines(v: Seq<Seq<char>>, n: int) -> Seq<Seq<char>> {
    if n < v.len() {
        v.skip(v.len() - n)
    } else {
        v
    }
}

/// The lines from `lo` to before `hi`, as far as there are any.
pub open spec fn lines_between(v: Seq<Seq<char>>, lo: int, hi: int) -> Seq<Seq<char>> {
    let to = if hi < v.len() {
        hi
    } else {
        v.len() as int
    };
    if lo < to {
        v.subrange(lo, to)
    } else {
        seq![]
    }
}

impl LogBuf {
    #[verifier::type_invariant]
    spec fn wf(self) -> bool {
        1 <= self.cap && self.lines@.len() <= self.cap
    }

    pub closed spec fn capacity(&self) -> nat {
        self.cap as nat
    }

    pub closed spec fn count(&self) -> u64 {
        self.pushed
    }

    pub fn new(cap: usize) -> (r: LogBuf)
        ensures
            r@ == Seq::<Seq<char>>::empty(),
            r.count() == 0,
            r.capacity() == (if cap == 0 {
                1
            } else {
                cap as nat
            }),
    {
        let r = LogBuf {
            cap: if cap == 0 {
                1
            } else {
                cap
            },
            lines: Vec::new(),
            pushed: 0,
        };
        assert(r@ =~= seq![]);
        r
    }

    /// Appends a line; the oldest goes once there are more than fit.
    pub fn push(&mut self, line: String)
        ensures
            final(self)@ == last_lines(old(self)@.push(line@), old(self).capacity() as int),
            final(self).capacity() == old(self).capacity(),
            final(self).count() == crate::queue::bumped(old(self).count()),
    {
        proof {
            use_type_invariant(&*self);
        }
        let ghost was = self.lines@;
        let mut v: Vec<String> = Vec::new();
        std::mem::swap(&mut v, &mut self.lines);
        if v.len() >= self.cap {
            v.remove(0);
        }
        let ghost mid = v@;
        v.push(line);
        proof {
            let want = last_lines(str_views(was).push(line@), self.cap as int);
            assert(str_views(v@) =~= str_views(mid).push(line@));
            if was.len() >= self.cap {
                assert(str_views(mid) =~= str_views(was).skip(1));
                assert(str_views(v@) =~= want);
            } else {
                assert(str_views(v@) =~= want);
            }
        }
        self.lines = v;
        self.pushed = self.pushed.wrapping_add(1);
    }

    /// How many lines are held.
    pub fn len(&self) -> (r: usize)
        ensures
            r == self@.len(),
    {
        self.lines.len()
    }

    pub fn is_empty(&self) -> (r: bool)
        ensures
            r == (self@.len() == 0),
    {
        self.lines.len() == 0
    }

    /// How many lines were ever pushed.
    pub fn total_pushed(&self) -> (r: u64)
        ensures
            r == self.count(),
    {
        self.pushed
    }

    /// All lines that are held, the oldest first.
    pub fn snapshot(&self) -> (r: Vec<String>)
        ensures
            str_views(r@) == self@,
    {
        let r = self.range(0, self.lines.len());
        assert(lines_between(self@, 0, self@.len() as int) =~= self@);
        r
    }

    /// The last `n` lines.
    pub fn tail(&self, n: usize) -> (r: Vec<String>)
        ensures
            str_views(r@) == last_lines(self@, n as int),
    {
        let len: usize = self.lines.len();
        let lo: usize = if n < len {
            len - n
        } else {
            0
        };
        let r = self.range(lo, len);
        assert(lines_between(self@, lo as int, len as int) =~= last_lines(self@, n as int));
        r
    }

    /// The lines from `lo` to before `hi`, as far as they are held.
    pub fn range(&self, lo: usize, hi: usize) -> (r: Vec<String>)
        ensures
            str_views(r@) == lines_between(self@, lo as int, hi as int),
    {
        let len: usize = self.lines.len();
        let to: usize = if hi < len {
            hi
        } else {
            len
        };
        let mut out: Vec<String> = Vec::new();
        let mut i: usize = lo;
        if lo >= to {
            assert(str_views(out@) =~= seq![]);
            return out;
        }
        while i < to
            invariant
                lo <= i <= to <= self.lines@.len(),
                out@.len() == i - lo,
                forall|j: int| 0 <= j < out@.len() ==> (#[trigger] out@[j])@ == self.lines@[lo + j]@,
            decreases to - i,
        {
            out.push(self.lines[i].clone());
            i = i + 1;
        }
        assert(str_views(out@) =~= self@.subrange(lo as int, to as int));
        out
    }
}

impl Default for LogBuf {
    fn default() -> (r: LogBuf)
        ensures
            r@ == Seq::<Seq<char>>::empty(),
            r.capacity() == 200,
            r.count() == 0,
    {
        LogBuf::new(200)
    }
}

/// The buffer never holds more than its capacity, and what it holds is the end of what was
/// pushed.
pub proof fn buffer_is_the_latest(all: Seq<Seq<char>>, line: Seq<char>, cap: int)
    requires
        cap >= 1,
    ensures
        last_lines(last_lines(all, cap).push(line), cap) == last_lines(all.push(line), cap),
        last_lines(all, cap).len() <= cap,
{
    assert(last_lines(last_lines(all, cap).push(line), cap) =~= last_lines(all.push(line), cap));
}

} // verus!
