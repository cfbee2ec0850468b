//! Grouping anomalous measures into regions. Which measures are anomalous
//! is decided by the caller from floating-point scores; the grouping is
//! by measure numbers alone.

use vstd::prelude::*;

verus! {

/// A region of anomalous measures: its first and last measure, and the
/// positions in the input of the measures read into it (from `first` up
/// to, not including, `past`).
#[derive(Debug, Clone, Copy, PartialEq, Eq, Structural)]
pub struct RegionSpan {
    pub start: usize,
    pub end: usize,
    pub first: usize,
    pub past: usize,
}

/// The region being grouped (first and last measure, a first measure of 0
/// meaning that none has started, and the position of its first member)
/// and the regions closed so far.
pub struct SpanState {
    pub start: usize,
    pub end: usize,
    pub first: usize,
    pub closed: Seq<RegionSpan>,
}

/// The regions closed so far, with the open one (whose members end before
/// position `past`) added where it spans at least `min_len` measures.
pub open spec fn closed_with_open(st: SpanState, past: usize, min_len: usize) -> Seq<RegionSpan> {
    if st.end - st.start + 1 >= min_len {
        st.closed.push(RegionSpan { start: st.start, end: st.end, first: st.first, past })
    } else {
        st.closed
    }
}

/// The anomalous measure `m`, at position `i`, read: it starts the first
/// region, extends the open region where it lies within `gap` measures of
/// its end, or else closes that region and starts a new one.
pub open spec fn span_step(st: SpanState, m: usize, i: usize, gap: usize, min_len: usize) -> SpanState {
    if st.start == 0 {
        SpanState { start: m, end: m, first: i, closed: st.closed }
    } else if m <= st.end + gap {
        SpanState { start: st.start, end: m, first: st.first, closed: st.closed }
    } else {
        SpanState { start: m, end: m, first: i, closed: closed_with_open(st, i, min_len) }
    }
}

/// The state after the first `n` anomalous measures.
pub open spec fn spans_after(ms: Seq<usize>, gap: usize, min_len: usize, n: nat) -> SpanState
    decreases n,
{
    if n == 0 {
        SpanState { start: 0, end: 0, first: 0, closed: Seq::empty() }
    } else {
        span_step(spans_after(ms, gap, min_len, (n - 1) as nat), ms[n - 1], (n - 1) as usize, gap, min_len)
    }
}

/// The regions that the anomalous measures group into.
pub open spec fn region_spans_of(ms: Seq<usize>, gap: usize, min_len: usize) -> Seq<RegionSpan> {
    if ms.len() == 0 {
        Seq::empty()
    } else {
        closed_with_open(spans_after(ms, gap, min_len, ms.len()), ms.len() as usize, min_len)
    }
}

/// Reading `m` in state `st` stays within a `usize`, and never measures
/// a region that ends before it begins.
pub open spec fn step_defined(st: SpanState, m: usize, gap: usize) -> bool {
    st.start != 0 ==> (st.end + gap <= usize::MAX && (m > st.end + gap ==> st.start <= st.end))
}

/// Grouping the measures stays within a `usize` and never measures a
/// region that ends before it begins (it holds where the measures come in
/// increasing order and a gap after each fits in a `usize`).
pub open spec fn spans_defined(ms: Seq<usize>, gap: usize, min_len: usize) -> bool {
    &&& forall|n: int| 0 <= n < ms.len() ==> step_defined(spans_after(ms, gap, min_len, n as nat), #[trigger] ms[n], gap)
    &&& spans_after(ms, gap, min_len, ms.len()).start <= spans_after(ms, gap, min_len, ms.len()).end
}

/// Regions that are each at least `min_len` measures long, each ending
/// more than `gap` measures before the next begins, and each holding the
/// measures at its positions, which follow those of the region before.
pub open spec fn spans_separated(r: Seq<RegionSpan>, gap: usize, min_len: usize) -> bool {
    &&& forall|k: int|
        0 <= k < r.len() ==> (#[trigger] r[k]).start <= r[k].end && r[k].end - r[k].start + 1 >= min_len
            && r[k].first < r[k].past
    &&& forall|k: int| 0 <= k < r.len() - 1 ==> #[trigger] r[k].end + gap < r[k + 1].start && r[k].past <= r[k + 1].first
}

/// The closed regions are separated, and the open one begins more than
/// `gap` measures after the last of them ends, at a later position.
pub open spec fn closed_separated(st: SpanState, gap: usize, min_len: usize, n: nat) -> bool {
    &&& spans_separated(st.closed, gap, min_len)
    &&& (st.start == 0 ==> st.closed.len() == 0)
    &&& (st.closed.len() > 0 ==> st.closed.last().end + gap < st.start && st.closed.last().past <= st.first)
    &&& (n > 0 ==> st.first < n)
}

proof fn lemma_push_separated(c: Seq<RegionSpan>, x: RegionSpan, gap: usize, min_len: usize)
    requires
        spans_separated(c, gap, min_len),
        x.start <= x.end && x.end - x.start + 1 >= min_len && x.first < x.past,
        c.len() > 0 ==> c.last().end + gap < x.start && c.last().past <= x.first,
    ensures
        spans_separated(c.push(x), gap, min_len),
{
    let d = c.push(x);
    assert forall|k: int| 0 <= k < d.len() - 1 implies #[trigger] d[k].end + gap < d[k + 1].start && d[k].past
        <= d[k + 1].first by {
        if k < c.len() - 1 {
            assert(d[k] == c[k] && d[k + 1] == c[k + 1]);
        }
    }
    assert forall|k: int| 0 <= k < d.len() implies (#[trigger] d[k]).start <= d[k].end && d[k].end - d[k].start + 1
        >= min_len && d[k].first < d[k].past by {
        if k < c.len() {
            assert(d[k] == c[k]);
        }
    }
}

proof fn lemma_spans_after_separated(ms: Seq<usize>, gap: usize, min_len: usize, n: nat)
    requires
        spans_defined(ms, gap, min_len),
        n <= ms.len() <= usize::MAX,
    ensures
        closed_separated(spans_after(ms, gap, min_len, n), gap, min_len, n),
    decreases n,
{
    if n > 0 {
        lemma_spans_after_separated(ms, gap, min_len, (n - 1) as nat);
        let st = spans_after(ms, gap, min_len, (n - 1) as nat);
        let m = ms[n - 1];
        assert(step_defined(st, ms[n - 1], gap));
        if st.start != 0 && !(m <= st.end + gap) && st.end - st.start + 1 >= min_len {
            lemma_push_separated(
                st.closed,
                RegionSpan { start: st.start, end: st.end, first: st.first, past: (n - 1) as usize },
                gap,
                min_len,
            );
        }
    }
}

/// Regions are each at least `min_len` measures long, each ends more
/// than `gap` measures before the next begins, and each holds measures at
/// later positions than the one before.
pub proof fn lemma_region_spans_separated(ms: Seq<usize>, gap: usize, min_len: usize)
    requires
        spans_defined(ms, gap, min_len),
        ms.len() <= usize::MAX,
    ensures
        spans_separated(region_spans_of(ms, gap, min_len), gap, min_len),
{
    if ms.len() > 0 {
        let n = ms.len();
        lemma_spans_after_separated(ms, gap, min_len, n);
        let st = spans_after(ms, gap, min_len, n);
        if st.end - st.start + 1 >= min_len {
            lemma_push_separated(
                st.closed,
                RegionSpan { start: st.start, end: st.end, first: st.first, past: n as usize },
                gap,
                min_len,
            );
        }
    }
}

/// Group anomalous measures into regions: a measure within `gap`
/// measures of the open region's end extends it; a region is kept when it
/// spans at least `min_len` measures.
pub fn region_spans(measures: &Vec<usize>, gap: usize, min_len: usize) -> (r: Vec<RegionSpan>)
    requires
        spans_defined(measures@, gap, min_len),
    ensures
        r@ == region_spans_of(measures@, gap, min_len),
        spans_separated(r@, gap, min_len),
{
    let len = measures.len();
    proof {
        lemma_region_spans_separated(measures@, gap, min_len);
    }
    let mut r: Vec<RegionSpan> = Vec::new();
    if len == 0 {
        return r;
    }
    let mut start: usize = 0;
    let mut end: usize = 0;
    let mut first: usize = 0;
    let mut i: usize = 0;
    while i < measures.len()
        invariant
            i <= measures@.len(),
            spans_defined(measures@, gap, min_len),
            spans_after(measures@, gap, min_len, i as nat) == (SpanState { start, end, first, closed: r@ }),
            start == 0 ==> end == 0,
        decreases measures@.len() - i,
    {
        let m = measures[i];
        proof {
            assert(step_defined(SpanState { start, end, first, closed: r@ }, measures@[i as int], gap));
        }
        if start == 0 {
            start = m;
            end = m;
            first = i;
        } else if m <= end + gap {
            end = m;
        } else {
            if end - start + 1 >= min_len {
                r.push(RegionSpan { start, end, first, past: i });
            }
            start = m;
            end = m;
            first = i;
        }
        i = i + 1;
    }
    if end - start + 1 >= min_len {
        r.push(RegionSpan { start, end, first, past: measures.len() });
    }
    r
}

/// Whether grouping the measures stays within a `usize` and never
/// measures a region that ends before it begins.
pub fn spans_well_defined(measures: &Vec<usize>, gap: usize, min_len: usize) -> (b: bool)
    ensures
        b == spans_defined(measures@, gap, min_len),
{
    let mut start: usize = 0;
    let mut end: usize = 0;
    let ghost mut first: usize = 0;
    let ghost mut closed: Seq<RegionSpan> = Seq::empty();
    let mut i: usize = 0;
    while i < measures.len()
        invariant
            i <= measures@.len(),
            spans_after(measures@, gap, min_len, i as nat) == (SpanState { start, end, first, closed }),
            forall|n: int|
                0 <= n < i ==> step_defined(spans_after(measures@, gap, min_len, n as nat), #[trigger] measures@[n], gap),
        decreases measures@.len() - i,
    {
        let m = measures[i];
        if start == 0 {
            start = m;
            end = m;
            proof {
                first = i;
            }
        } else {
            if end > usize::MAX - gap {
                proof {
                    assert(!step_defined(spans_after(measures@, gap, min_len, i as nat), measures@[i as int], gap));
                }
                return false;
            }
            if m <= end + gap {
                end = m;
            } else {
                if start > end {
                    proof {
                        assert(!step_defined(spans_after(measures@, gap, min_len, i as nat), measures@[i as int], gap));
                    }
                    return false;
                }
                proof {
                    closed = closed_with_open(SpanState { start, end, first, closed }, i, min_len);
                    first = i;
                }
                start = m;
                end = m;
            }
        }
        i = i + 1;
    }
    start <= end
}

} // verus!
