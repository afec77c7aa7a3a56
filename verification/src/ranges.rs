//! The bytes of a sparse file that are present: a sorted list of spans that do not touch.

use vstd::prelude::*;

verus! {

/// The bytes from `start` up to, not including, `end`.
#[derive(Clone, Copy, PartialEq, Eq, Structural, Debug)]
pub struct Span {
    pub start: u64,
    pub end: u64,
}

impl Span {
    pub open spec fn has(self, p: int) -> bool {
        self.start <= p < self.end
    }
}

/// No span is empty, and between two neighbours a byte is missing.
pub open spec fn canonical(v: Seq<Span>) -> bool {
    (forall|i: int| 0 <= i < v.len() ==> (#[trigger] v[i]).start < v[i].end) && forall|i: int, j: int|
        0 <= i < j < v.len() ==> (#[trigger] v[i]).end < (#[trigger] v[j]).start
}

/// Whether the byte at `p` is present.
pub open spec fn holds(v: Seq<Span>, p: int) -> bool {
    exists|i: int| 0 <= i < v.len() && (#[trigger] v[i]).has(p)
}

/// How many bytes the spans have.
pub open spec fn total(v: Seq<Span>) -> nat
    decreases v.len(),
{
    if v.len() == 0 {
        0
    } else {
        total(v.drop_last()) + (v.last().end - v.last().start) as nat
    }
}

/// No byte at or beyond `len` is present.
pub open spec fn within(v: Seq<Span>, len: u64) -> bool {
    forall|i: int| 0 <= i < v.len() ==> (#[trigger] v[i]).end <= len
}

/// The spans of a whole file of `len` bytes.
pub fn whole(len: u64) -> (r: Vec<Span>)
    ensures
        canonical(r@),
        forall|p: int| holds(r@, p) <==> 0 <= p < len,
        r@ == (if len == 0 {
            seq![]
        } else {
            seq![Span { start: 0, end: len }]
        }),
{
    let mut r: Vec<Span> = Vec::new();
    if len > 0 {
        r.push(Span { start: 0, end: len });
        assert forall|p: int| holds(r@, p) <==> 0 <= p < len by {
            if 0 <= p < len {
                assert(r@[0].has(p));
            }
        }
    }
    r
}

/// The spans have no more bytes than the file up to the last of them.
pub proof fn lemma_total_bound(v: Seq<Span>)
    requires
        canonical(v),
    ensures
        v.len() > 0 ==> total(v) <= v.last().end - v[0].start,
        v.len() == 0 ==> total(v) == 0,
    decreases v.len(),
{
    if v.len() > 1 {
        let h = v.drop_last();
        assert(canonical(h)) by {
            assert forall|i: int| 0 <= i < h.len() implies (#[trigger] h[i]).start < h[i].end by {
                assert(h[i] == v[i]);
            }
            assert forall|i: int, j: int| 0 <= i < j < h.len() implies (#[trigger] h[i]).end
                < (#[trigger] h[j]).start by {
                assert(h[i] == v[i] && h[j] == v[j]);
            }
        }
        lemma_total_bound(h);
        assert(v[v.len() - 2].end < v[v.len() - 1].start);
        assert(v[v.len() - 1].start < v[v.len() - 1].end);
        assert(h[0] == v[0]);
        assert(h.last() == v[v.len() - 2]);
    } else if v.len() == 1 {
        assert(total(v.drop_last()) == 0);
        assert(v[0].start < v[0].end);
    }
}

/// How many bytes are present.
pub fn downloaded(ranges: &Vec<Span>) -> (r: u64)
    requires
        canonical(ranges@),
    ensures
        r == total(ranges@),
{
    let mut sum: u64 = 0;
    let mut i: usize = 0;
    assert(ranges@.take(0) =~= seq![]);
    while i < ranges.len()
        invariant
            i <= ranges@.len(),
            canonical(ranges@),
            sum == total(ranges@.take(i as int)),
        decreases ranges@.len() - i,
    {
        proof {
            let t = ranges@.take(i + 1);
            assert(t.drop_last() =~= ranges@.take(i as int));
            assert(t.last() == ranges@[i as int]);
            assert(canonical(t)) by {
                assert forall|a: int| 0 <= a < t.len() implies (#[trigger] t[a]).start < t[a].end by {
                    assert(t[a] == ranges@[a]);
                }
                assert forall|a: int, b: int| 0 <= a < b < t.len() implies (#[trigger] t[a]).end
                    < (#[trigger] t[b]).start by {
                    assert(t[a] == ranges@[a] && t[b] == ranges@[b]);
                }
            }
            lemma_total_bound(t);
            assert(ranges@[i as int].start < ranges@[i as int].end);
        }
        sum = sum + (ranges[i].end - ranges[i].start);
        i = i + 1;
    }
    assert(ranges@.take(i as int) =~= ranges@);
    sum
}

/// How many bytes are present from the start of the file without a gap.
pub open spec fn prefix_of(v: Seq<Span>) -> u64 {
    if v.len() > 0 && v[0].start == 0 {
        v[0].end
    } else {
        0
    }
}

pub fn prefix(ranges: &Vec<Span>) -> (r: u64)
    requires
        canonical(ranges@),
    ensures
        r == prefix_of(ranges@),
        forall|p: int| 0 <= p < r ==> holds(ranges@, p),
        !holds(ranges@, r as int),
{
    let r: u64 = if ranges.len() > 0 && ranges[0].start == 0 {
        ranges[0].end
    } else {
        0
    };
    proof {
        assert forall|p: int| 0 <= p < r implies holds(ranges@, p) by {
            assert(ranges@[0].has(p));
        }
        if holds(ranges@, r as int) {
            let i = choose|i: int| 0 <= i < ranges@.len() && (#[trigger] ranges@[i]).has(r as int);
            if i > 0 {
                assert(ranges@[0].end < ranges@[i].start);
                assert(ranges@[0].start < ranges@[0].end);
            }
        }
    }
    r
}

/// Adds the bytes of a span.
pub fn insert_range(v: &mut Vec<Span>, r: Span)
    requires
        canonical(old(v)@),
    ensures
        canonical(final(v)@),
        forall|p: int| #[trigger] holds(final(v)@, p) <==> holds(old(v)@, p) || r.has(p),
        r.start >= r.end ==> final(v)@ == old(v)@,
{
    if r.start >= r.end {
        return;
    }
    let ghost before = v@;
    let mut start: u64 = r.start;
    let mut end: u64 = r.end;
    let mut out: Vec<Span> = Vec::new();
    let mut placed: bool = false;
    let mut i: usize = 0;
    while i < v.len()
        invariant
            v@ == before,
            canonical(before),
            i <= before.len(),
            start <= r.start,
            r.end <= end,
            start < end,
            canonical(out@),
            // what was read so far is covered by the output and, until it is placed, by the span
            // at hand
            forall|p: int|
                #![trigger holds(out@, p)]
                #![trigger holds(before.take(i as int), p)]
                (holds(out@, p) || (!placed && start <= p < end)) <==> (holds(before.take(i as int), p)
                    || r.has(p)),
            // the output ends before the next span, and before the span at hand
            out@.len() > 0 && i < before.len() ==> out@.last().end < before[i as int].start,
            !placed && out@.len() > 0 ==> out@.last().end < start,
            !placed && i < before.len() && i > 0 ==> before[i - 1].end < before[i as int].start,
            placed ==> out@.len() > 0 && i > 0 && before[i - 1].start > end,
        decreases before.len() - i,
    {
        let x = v[i];
        let ghost was = out@;
        let ghost s0 = start;
        let ghost e0 = end;
        let ghost p0 = placed;
        assert(x == before[i as int]);
        assert(x.start < x.end);
        if x.end < start {
            out.push(x);
        } else if x.start > end {
            if !placed {
                out.push(Span { start, end });
                placed = true;
            }
            out.push(x);
        } else {
            if x.start < start {
                start = x.start;
            }
            if x.end > end {
                end = x.end;
            }
        }
        proof {
            lemma_take_push(before, i as int);
            lemma_holds_push(before.take(i as int), x);
            if i + 1 < before.len() {
                assert(before[i as int].end < before[i + 1].start);
            }
            if i > 0 {
                assert(before[i - 1].end < before[i as int].start);
                assert(before[i - 1].start < before[i - 1].end);
            }
            assert forall|p: int|
                #![trigger holds(out@, p)]
                #![trigger holds(before.take(i + 1), p)]
                (holds(out@, p) || (!placed && start <= p < end)) <==> (holds(before.take(i + 1), p)
                    || r.has(p)) by {
                lemma_holds_push(was, x);
                lemma_holds_push(was, Span { start: s0, end: e0 });
                lemma_holds_push(was.push(Span { start: s0, end: e0 }), x);
                assert(holds(before.take(i as int), p) || r.has(p) <==> holds(was, p) || (!p0 && s0
                    <= p < e0));
            }
        }
        i = i + 1;
    }
    if !placed {
        let ghost was = out@;
        out.push(Span { start, end });
        proof {
            lemma_holds_push(was, Span { start, end });
        }
    }
    proof {
        assert(before.take(before.len() as int) =~= before);
        assert forall|p: int| #[trigger] holds(out@, p) <==> holds(before, p) || r.has(p) by {
            assert(holds(before.take(i as int), p) == holds(before, p));
        }
    }
    *v = out;
}

proof fn lemma_take_push(v: Seq<Span>, i: int)
    requires
        0 <= i < v.len(),
    ensures
        v.take(i + 1) == v.take(i).push(v[i]),
{
    assert(v.take(i + 1) =~= v.take(i).push(v[i]));
}

proof fn lemma_holds_push(v: Seq<Span>, x: Span)
    ensures
        forall|p: int| #[trigger] holds(v.push(x), p) <==> holds(v, p) || x.has(p),
{
    assert forall|p: int| #[trigger] holds(v.push(x), p) <==> holds(v, p) || x.has(p) by {
        if holds(v.push(x), p) {
            let i = choose|i: int| 0 <= i < v.push(x).len() && (#[trigger] v.push(x)[i]).has(p);
            if i < v.len() {
                assert(v[i].has(p));
            }
        }
        if holds(v, p) {
            let i = choose|i: int| 0 <= i < v.len() && (#[trigger] v[i]).has(p);
            assert(v.push(x)[i].has(p));
        }
        if x.has(p) {
            assert(v.push(x)[v.len() as int].has(p));
        }
    }
}


/// The end of the run of bytes that `pos` stands in.
pub fn run_end(ranges: &Vec<Span>, pos: u64) -> (r: Option<u64>)
    requires
        canonical(ranges@),
    ensures
        r is Some <==> holds(ranges@, pos as int),
        r matches Some(end) ==> pos < end && (forall|p: int| pos <= p < end ==> holds(ranges@, p))
            && !holds(ranges@, end as int),
{
    let mut i: usize = 0;
    while i < ranges.len()
        invariant
            i <= ranges@.len(),
            canonical(ranges@),
            forall|j: int| 0 <= j < i ==> !(#[trigger] ranges@[j]).has(pos as int),
        decreases ranges@.len() - i,
    {
        if ranges[i].start <= pos && pos < ranges[i].end {
            proof {
                let x = ranges@[i as int];
                assert(x.has(pos as int));
                assert forall|p: int| pos <= p < x.end implies holds(ranges@, p) by {
                    assert(x.has(p));
                }
                if holds(ranges@, x.end as int) {
                    let k = choose|k: int| 0 <= k < ranges@.len() && (#[trigger] ranges@[k]).has(
                        x.end as int,
                    );
                    if k < i {
                        assert(ranges@[k].end < ranges@[i as int].start);
                    } else if k > i {
                        assert(ranges@[i as int].end < ranges@[k].start);
                    }
                }
            }
            return Some(ranges[i].end);
        }
        i = i + 1;
    }
    None
}

/// Whether every byte of a span is present.
pub fn covers(ranges: &Vec<Span>, r: Span) -> (c: bool)
    requires
        canonical(ranges@),
    ensures
        c <==> forall|p: int| r.has(p) ==> #[trigger] holds(ranges@, p),
{
    if r.start >= r.end {
        return true;
    }
    match run_end(ranges, r.start) {
        None => {
            assert(r.has(r.start as int) && !holds(ranges@, r.start as int));
            false
        },
        Some(end) => {
            if end < r.end {
                assert(r.has(end as int) && !holds(ranges@, end as int));
            }
            end >= r.end
        },
    }
}

/// The first missing span that ends after `from`, looking at the spans from the `i`-th on, with
/// everything below `cursor` accounted for.
pub open spec fn hole_after(v: Seq<Span>, len: u64, from: u64, i: int, cursor: u64) -> Option<Span>
    decreases v.len() - i,
{
    let max = if cursor > from {
        cursor
    } else {
        from
    };
    if i < 0 || i >= v.len() {
        if len > cursor && len > from {
            Some(Span { start: max, end: len })
        } else {
            None
        }
    } else if v[i].start > cursor && v[i].start > from {
        Some(Span { start: max, end: if v[i].start < len { v[i].start } else { len } })
    } else {
        hole_after(v, len, from, i + 1, if v[i].end > cursor { v[i].end } else { cursor })
    }
}

/// The first missing span of `0..len` that ends after `from`, starting no earlier than `from`.
pub fn hole_from(ranges: &Vec<Span>, len: u64, from: u64) -> (r: Option<Span>)
    requires
        canonical(ranges@),
    ensures
        r == hole_after(ranges@, len, from, 0, 0),
        within(ranges@, len) ==> first_hole(ranges@, len, from, r),
{
    let mut cursor: u64 = 0;
    let mut i: usize = 0;
    while i < ranges.len()
        invariant
            i <= ranges@.len(),
            canonical(ranges@),
            hole_after(ranges@, len, from, i as int, cursor) == hole_after(ranges@, len, from, 0, 0),
        decreases ranges@.len() - i,
    {
        if ranges[i].start > cursor && ranges[i].start > from {
            let end: u64 = if ranges[i].start < len {
                ranges[i].start
            } else {
                len
            };
            let start: u64 = if cursor > from {
                cursor
            } else {
                from
            };
            proof {
                if within(ranges@, len) {
                    lemma_hole(ranges@, len, from, 0, 0);
                }
            }
            return Some(Span { start, end });
        }
        if ranges[i].end > cursor {
            cursor = ranges[i].end;
        }
        i = i + 1;
    }
    proof {
        if within(ranges@, len) {
            lemma_hole(ranges@, len, from, 0, 0);
        }
    }
    if len > cursor && len > from {
        let start: u64 = if cursor > from {
            cursor
        } else {
            from
        };
        Some(Span { start, end: len })
    } else {
        None
    }
}

/// What the first missing span from `from` on is: nothing is missing before it, all of it is
/// missing, and it ends at a present byte or at the end of the file. Without one nothing is
/// missing.
pub open spec fn first_hole(v: Seq<Span>, len: u64, from: u64, r: Option<Span>) -> bool {
    match r {
        Some(h) => from <= h.start < h.end <= len && (forall|p: int|
            from <= p < h.start ==> #[trigger] holds(v, p)) && (forall|p: int|
            h.has(p) ==> !#[trigger] holds(v, p)) && (h.end == len || holds(v, h.end as int)),
        None => forall|p: int| from <= p < len ==> #[trigger] holds(v, p),
    }
}

proof fn lemma_hole(v: Seq<Span>, len: u64, from: u64, i: int, cursor: u64)
    requires
        canonical(v),
        within(v, len),
        0 <= i <= v.len(),
        i == 0 ==> cursor == 0,
        i > 0 ==> cursor == v[i - 1].end,
        // everything from `from` up to the cursor is present
        forall|p: int| from <= p < cursor ==> #[trigger] holds(v, p),
    ensures
        first_hole(v, len, from, hole_after(v, len, from, i, cursor)),
    decreases v.len() - i,
{
    if i < v.len() {
        let x = v[i];
        if i > 0 {
            assert(v[i - 1].end < v[i].start);
        }
        assert(x.start < x.end);
        if x.start > cursor && x.start > from {
            let max = if cursor > from {
                cursor
            } else {
                from
            };
            assert(x.end <= len);
            assert forall|p: int| max <= p < x.start implies !#[trigger] holds(v, p) by {
                if holds(v, p) {
                    let k = choose|k: int| 0 <= k < v.len() && (#[trigger] v[k]).has(p);
                    if k < i {
                        if k < i - 1 {
                            assert(v[k].end < v[i - 1].start);
                            assert(v[i - 1].start < v[i - 1].end);
                        }
                    } else if k > i {
                        assert(v[i].end < v[k].start);
                    }
                }
            }
            assert(x.has(x.start as int));
        } else {
            assert forall|p: int| from <= p < x.end implies #[trigger] holds(v, p) by {
                if p >= cursor {
                    assert(x.has(p));
                }
            }
            lemma_hole(v, len, from, i + 1, x.end);
        }
    } else {
        if len > cursor && len > from {
            let max = if cursor > from {
                cursor
            } else {
                from
            };
            assert forall|p: int| max <= p < len implies !#[trigger] holds(v, p) by {
                if holds(v, p) {
                    let k = choose|k: int| 0 <= k < v.len() && (#[trigger] v[k]).has(p);
                    if k < v.len() - 1 {
                        assert(v[k].end < v[v.len() - 1].start);
                        assert(v[v.len() - 1].start < v[v.len() - 1].end);
                    }
                }
            }
        }
    }
}

/// A set of bytes has one canonical list of spans, so the order in which spans are added does
/// not matter.
pub proof fn canonical_is_unique(a: Seq<Span>, b: Seq<Span>)
    requires
        canonical(a),
        canonical(b),
        forall|p: int| #[trigger] holds(a, p) <==> holds(b, p),
    ensures
        a == b,
    decreases a.len(),
{
    if a.len() == 0 {
        if b.len() > 0 {
            assert(b[0].start < b[0].end);
            assert(b[0].has(b[0].start as int));
            assert(holds(b, b[0].start as int));
            assert(holds(a, b[0].start as int));
        }
        assert(a =~= b);
    } else {
        assert(a[0].start < a[0].end);
        assert(a[0].has(a[0].start as int));
        assert(holds(a, a[0].start as int));
        assert(holds(b, a[0].start as int));
        assert(b.len() > 0);
        assert(b[0].start < b[0].end);
        assert(b[0].has(b[0].start as int));
        assert(holds(b, b[0].start as int));
        assert(holds(a, b[0].start as int));
        lemma_first(a);
        lemma_first(b);
        assert(a[0].start == b[0].start);
        if a[0].end < b[0].end {
            assert(b[0].has(a[0].end as int));
            assert(holds(b, a[0].end as int));
            assert(holds(a, a[0].end as int));
        }
        if b[0].end < a[0].end {
            assert(a[0].has(b[0].end as int));
            assert(holds(a, b[0].end as int));
            assert(holds(b, b[0].end as int));
        }
        assert(a[0].end == b[0].end);
        let x = a.drop_first();
        let y = b.drop_first();
        lemma_rest(a);
        lemma_rest(b);
        assert forall|p: int| #[trigger] holds(x, p) <==> holds(y, p) by {
            assert(holds(a, p) <==> holds(b, p));
        }
        canonical_is_unique(x, y);
        assert(a =~= seq![a[0]] + x);
        assert(b =~= seq![b[0]] + y);
    }
}

/// No byte before the first span is present, nor the one right after it.
proof fn lemma_first(v: Seq<Span>)
    requires
        canonical(v),
        v.len() > 0,
    ensures
        forall|p: int| #[trigger] holds(v, p) ==> p >= v[0].start,
        !holds(v, v[0].end as int),
{
    assert forall|p: int| #[trigger] holds(v, p) implies p >= v[0].start by {
        let k = choose|k: int| 0 <= k < v.len() && (#[trigger] v[k]).has(p);
        if k > 0 {
            assert(v[0].end < v[k].start);
            assert(v[0].start < v[0].end);
        }
    }
    if holds(v, v[0].end as int) {
        let k = choose|k: int| 0 <= k < v.len() && (#[trigger] v[k]).has(v[0].end as int);
        if k > 0 {
            assert(v[0].end < v[k].start);
        }
    }
}

proof fn lemma_rest(v: Seq<Span>)
    requires
        canonical(v),
        v.len() > 0,
    ensures
        canonical(v.drop_first()),
        forall|p: int| #[trigger] holds(v.drop_first(), p) <==> holds(v, p) && p >= v[0].end,
{
    let x = v.drop_first();
    assert forall|i: int| 0 <= i < x.len() implies (#[trigger] x[i]).start < x[i].end by {
        assert(x[i] == v[i + 1]);
    }
    assert forall|i: int, j: int| 0 <= i < j < x.len() implies (#[trigger] x[i]).end < (#[trigger] x[j]).start by {
        assert(x[i] == v[i + 1] && x[j] == v[j + 1]);
    }
    assert forall|p: int| #[trigger] holds(x, p) <==> holds(v, p) && p >= v[0].end by {
        if holds(x, p) {
            let k = choose|k: int| 0 <= k < x.len() && (#[trigger] x[k]).has(p);
            assert(v[k + 1].has(p));
            assert(v[0].end < v[k + 1].start);
        }
        if holds(v, p) && p >= v[0].end {
            let k = choose|k: int| 0 <= k < v.len() && (#[trigger] v[k]).has(p);
            assert(k > 0);
            assert(x[k - 1].has(p));
        }
    }
}

} // verus!
