use vstd::prelude::*;

verus! {

/// `p` is a boundary of `below` over `0..len`: every sample before `p` was
/// answered "below", and the sample at `p`, if any, was answered "not below".
pub open spec fn is_boundary<F: Fn(usize) -> bool>(below: F, len: usize, p: usize) -> bool {
    &&& p <= len
    &&& p > 0 ==> below.ensures(((p - 1) as usize,), true)
    &&& p < len ==> below.ensures((p,), false)
}

/// Binary search for the first sample that is not below the sought distance,
/// among `len` samples whose distances never decrease.
/// `below(i)` says whether sample `i` lies strictly below the distance.
pub fn partition_point<F: Fn(usize) -> bool>(len: usize, below: F) -> (p: usize)
    requires
        forall|i: usize| i < len ==> below.requires((i,)),
    ensures
        is_boundary(below, len, p),
        p <= len,
        p > 0 ==> below.ensures(((p - 1) as usize,), true),
        p < len ==> below.ensures((p,), false),
{
    let mut lo: usize = 0;
    let mut hi: usize = len;
    while lo < hi
        invariant
            lo <= hi <= len,
            forall|i: usize| i < len ==> below.requires((i,)),
            lo > 0 ==> below.ensures(((lo - 1) as usize,), true),
            hi < len ==> below.ensures((hi,), false),
        decreases hi - lo,
    {
        let mid = lo + (hi - lo) / 2;
        if below(mid) {
            lo = mid + 1;
        } else {
            hi = mid;
        }
    }
    lo
}

/// Where a distance falls among the samples of a curve.
#[derive(Clone, Copy, Debug, PartialEq, Eq, Structural)]
pub enum SampleSpan {
    /// At or before the first sample: the curve is read at its start.
    Start,
    /// Between two consecutive samples, which are interpolated.
    Between { lower: usize, upper: usize },
}

/// The span chosen for a partition point `partition` among `count` samples:
/// the partition point is clamped to the last sample; a clamped index of 0
/// is the start, any other index `i` is the span from sample `i - 1` to `i`.
pub open spec fn span_of(partition: usize, count: usize) -> SampleSpan {
    let idx: int = if partition < count - 1 { partition as int } else { count - 1 };
    if idx == 0 {
        SampleSpan::Start
    } else {
        SampleSpan::Between { lower: (idx - 1) as usize, upper: idx as usize }
    }
}

/// The start is chosen exactly when the clamped partition point is the first
/// sample; otherwise the span ends at the clamped partition point and starts at
/// the sample before it.
pub proof fn lemma_span_of_clamped(partition: usize, count: usize)
    requires
        count >= 1,
    ensures
        (span_of(partition, count) is Start) <==> (if partition < count - 1 { partition as int } else { count - 1 }) == 0,
        span_of(partition, count) matches SampleSpan::Between { lower, upper } ==> {
            &&& upper == (if partition < count - 1 { partition as int } else { count - 1 })
            &&& lower == upper - 1
        },
        0 < partition < count ==> span_of(partition, count) == (SampleSpan::Between { lower: (partition - 1) as usize, upper: partition }),
        partition >= count >= 2 ==> span_of(partition, count) == (SampleSpan::Between { lower: (count - 2) as usize, upper: (count - 1) as usize }),
{
}

/// The span of the samples that a partition point selects.
pub fn sample_span(partition: usize, count: usize) -> (span: SampleSpan)
    requires
        count >= 1,
    ensures
        span == span_of(partition, count),
        span matches SampleSpan::Between { lower, upper } ==> lower + 1 == upper && upper < count,
        (span is Start) <==> (if partition < count - 1 { partition as int } else { count - 1 }) == 0,
        span matches SampleSpan::Between { lower, upper } ==> {
            &&& upper == (if partition < count - 1 { partition as int } else { count - 1 })
            &&& lower == upper - 1
        },
{
    let last = count - 1;
    let idx = if partition < last { partition } else { last };
    if idx == 0 {
        SampleSpan::Start
    } else {
        SampleSpan::Between { lower: idx - 1, upper: idx }
    }
}

/// Locates a distance among `count` samples (the first at distance 0):
/// the span between the samples around the first one that is not below it.
pub fn locate_sample<F: Fn(usize) -> bool>(count: usize, below: F) -> (span: SampleSpan)
    requires
        count >= 1,
        forall|i: usize| i < count ==> below.requires((i,)),
    ensures
        exists|p: usize| #[trigger] is_boundary(below, count, p) && span == span_of(p, count),
        span matches SampleSpan::Between { lower, upper } ==> lower + 1 == upper && upper < count,
        exists|p: usize|
            {
                &&& #[trigger] is_boundary(below, count, p)
                &&& p <= count
                &&& p > 0 ==> below.ensures(((p - 1) as usize,), true)
                &&& p < count ==> below.ensures((p,), false)
                &&& (span is Start) <==> (if p < count - 1 { p as int } else { count - 1 }) == 0
                &&& span matches SampleSpan::Between { lower, upper } ==> {
                    &&& upper == (if p < count - 1 { p as int } else { count - 1 })
                    &&& lower == upper - 1
                }
            },
{
    let p = partition_point(count, below);
    let span = sample_span(p, count);
    assert(is_boundary(below, count, p));
    assert(p <= count);
    span
}

/// `s` answers "below" for a prefix and "not below" after it, as the
/// samples of a curve do, whose distances never decrease.
pub open spec fn below_first(s: Seq<bool>) -> bool {
    forall|i: int, j: int| 0 <= i <= j < s.len() && #[trigger] s[j] ==> #[trigger] s[i]
}

/// `p` splits `s` into its "below" prefix and the rest.
pub open spec fn splits_at(s: Seq<bool>, p: int) -> bool {
    &&& 0 <= p <= s.len()
    &&& forall|i: int| 0 <= i < p ==> #[trigger] s[i]
    &&& forall|i: int| p <= i < s.len() ==> !#[trigger] s[i]
}

/// Every answer that `below` gives for an index of `s` is the entry of `s`.
pub open spec fn answers_as<F: Fn(usize) -> bool>(below: F, s: Seq<bool>) -> bool {
    forall|i: usize, b: bool| i < s.len() && #[trigger] below.ensures((i,), b) ==> b == s[i as int]
}

/// Where the answers come from a sequence that is "below" first, a boundary
/// is the point that splits it: the number of samples below the distance.
pub proof fn lemma_boundary_splits<F: Fn(usize) -> bool>(below: F, s: Seq<bool>, len: usize, p: usize)
    requires
        len == s.len(),
        answers_as(below, s),
        below_first(s),
        is_boundary(below, len, p),
    ensures
        splits_at(s, p as int),
{
    if p > 0 {
        assert(below.ensures(((p - 1) as usize,), true));
        assert(s[p - 1]);
        assert forall|i: int| 0 <= i < p implies #[trigger] s[i] by {
            assert(s[p - 1]);
        }
    }
    if p < len {
        assert(below.ensures((p,), false));
        assert(!s[p as int]);
        assert forall|i: int| p <= i < s.len() implies !#[trigger] s[i] by {
            if s[i] {
                assert(s[p as int]);
            }
        }
    }
}

/// A sequence is split at one point at most.
pub proof fn lemma_split_unique(s: Seq<bool>, p: int, q: int)
    requires
        splits_at(s, p),
        splits_at(s, q),
    ensures
        p == q,
{
    if p < q {
        assert(s[p]);
        assert(!s[p]);
    } else if q < p {
        assert(s[q]);
        assert(!s[q]);
    }
}

} // verus!
