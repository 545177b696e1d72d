use vstd::prelude::*;

use crate::pb::Coinflip;

verus! {

/// Number of run-length buckets in a histogram.
pub const BUCKETS: usize = 128;

/// A dense run-length histogram: counter `i` holds the runs of length `i + 1`.
pub type ResultArray = [u64; 128];

/// The all-zero histogram.
pub open spec fn zero_hist() -> Seq<u64> {
    Seq::new(128, |i: int| 0u64)
}

/// Element-wise sum of two histograms, as unbounded integers.
pub open spec fn hist_sum(a: Seq<int>, b: Seq<int>) -> Seq<int> {
    Seq::new(a.len(), |i: int| a[i] + b[i])
}

/// A histogram of machine counters read as integers.
pub open spec fn as_ints(a: Seq<u64>) -> Seq<int> {
    Seq::new(a.len(), |i: int| a[i] as int)
}

/// The dense histogram that a sparse list describes: each entry in range
/// sets its bucket, a later entry for the same bucket wins, and entries
/// outside the bucket range are ignored.
pub open spec fn dense_of(flips: Seq<Coinflip>) -> Seq<u64>
    decreases flips.len(),
{
    if flips.len() == 0 {
        zero_hist()
    } else {
        let d = dense_of(flips.drop_last());
        let f = flips.last();
        if f.position < 128 {
            d.update(f.position as int, f.flips)
        } else {
            d
        }
    }
}

/// The sparse list of the non-zero buckets among the first `n` of `a`, in
/// increasing position.
pub open spec fn sparse_upto(a: Seq<u64>, n: nat) -> Seq<Coinflip>
    decreases n,
{
    if n == 0 {
        Seq::empty()
    } else {
        let prev = sparse_upto(a, (n - 1) as nat);
        if a[n - 1] != 0 {
            prev.push(Coinflip { position: (n - 1) as u32, flips: a[n - 1] })
        } else {
            prev
        }
    }
}

/// The sparse wire form of a dense histogram.
pub open spec fn sparse_of(a: Seq<u64>) -> Seq<Coinflip> {
    sparse_upto(a, a.len())
}

/// Decodes a sparse list into a dense histogram.
pub fn result_array_from_pb(flips: &[Coinflip]) -> (r: ResultArray)
    ensures
        r@ == dense_of(flips@),
{
    let mut result = [0u64; 128];
    assert(result@ =~= zero_hist());
    let mut i: usize = 0;
    while i < flips.len()
        invariant
            i <= flips@.len(),
            result@ == dense_of(flips@.take(i as int)),
        decreases flips@.len() - i,
    {
        let f = flips[i];
        assert(flips@.take(i as int + 1).drop_last() =~= flips@.take(i as int));
        if (f.position as usize) < BUCKETS {
            result[f.position as usize] = f.flips;
        }
        i += 1;
    }
    assert(flips@.take(i as int) =~= flips@);
    result
}

/// Encodes a dense histogram as the list of its non-zero buckets.
pub fn result_array_to_pb(result: &ResultArray) -> (r: Vec<Coinflip>)
    ensures
        r@ == sparse_of(result@),
{
    let mut out: Vec<Coinflip> = Vec::new();
    let mut i: usize = 0;
    while i < BUCKETS
        invariant
            i <= 128,
            out@ == sparse_upto(result@, i as nat),
        decreases 128 - i,
    {
        if result[i] != 0 {
            out.push(Coinflip { position: i as u32, flips: result[i] });
        }
        i += 1;
    }
    out
}

/// Decoding the sparse form of a histogram gives back the histogram.
pub proof fn lemma_sparse_round_trip(a: Seq<u64>)
    requires
        a.len() == 128,
    ensures
        dense_of(sparse_of(a)) == a,
{
    lemma_sparse_upto_dense(a, 128);
    assert(dense_of(sparse_of(a)) =~= a);
}

proof fn lemma_sparse_upto_dense(a: Seq<u64>, n: nat)
    requires
        a.len() == 128,
        n <= 128,
    ensures
        dense_of(sparse_upto(a, n)) =~= Seq::new(128, |i: int| if i < n { a[i] } else { 0u64 }),
    decreases n,
{
    if n > 0 {
        lemma_sparse_upto_dense(a, (n - 1) as nat);
        let prev = sparse_upto(a, (n - 1) as nat);
        if a[n - 1] != 0 {
            let f = Coinflip { position: (n - 1) as u32, flips: a[n - 1] };
            assert(prev.push(f).drop_last() =~= prev);
        }
    }
}

/// Merging fragments into a histogram gives the same result in either
/// order, and grouping merges differently changes nothing: concurrent
/// pushes leave the same state whatever their interleaving.
pub proof fn lemma_merge_order_irrelevant(s: Seq<int>, a: Seq<int>, b: Seq<int>)
    requires
        s.len() == 128,
        a.len() == 128,
        b.len() == 128,
    ensures
        hist_sum(hist_sum(s, a), b) == hist_sum(hist_sum(s, b), a),
        hist_sum(hist_sum(s, a), b) == hist_sum(s, hist_sum(a, b)),
{
    assert(hist_sum(hist_sum(s, a), b) =~= hist_sum(hist_sum(s, b), a));
    assert(hist_sum(hist_sum(s, a), b) =~= hist_sum(s, hist_sum(a, b)));
}

/// The histogram after merging `frags` into `start`, one after another.
pub open spec fn fold_pushes(start: Seq<int>, frags: Seq<Seq<int>>) -> Seq<int>
    decreases frags.len(),
{
    if frags.len() == 0 {
        start
    } else {
        hist_sum(fold_pushes(start, frags.drop_last()), frags.last())
    }
}

proof fn lemma_fold_len(start: Seq<int>, frags: Seq<Seq<int>>)
    ensures
        fold_pushes(start, frags).len() == start.len(),
    decreases frags.len(),
{
    if frags.len() > 0 {
        lemma_fold_len(start, frags.drop_last());
    }
}

/// Exchanging two neighbouring pushes in a sequence of pushes leaves the
/// final histogram unchanged, so every interleaving of the same pushes
/// ends in the same state.
pub proof fn lemma_pushes_commute(start: Seq<int>, frags: Seq<Seq<int>>, i: int)
    requires
        start.len() == 128,
        forall|k: int| 0 <= k < frags.len() ==> (#[trigger] frags[k]).len() == 128,
        0 <= i < frags.len() - 1,
    ensures
        fold_pushes(start, frags) == fold_pushes(
            start,
            frags.update(i, frags[i + 1]).update(i + 1, frags[i]),
        ),
    decreases frags.len(),
{
    let swapped = frags.update(i, frags[i + 1]).update(i + 1, frags[i]);
    if i + 2 == frags.len() {
        let prefix = frags.drop_last().drop_last();
        assert(frags.drop_last().drop_last() =~= swapped.drop_last().drop_last());
        lemma_fold_len(start, prefix);
        let f = fold_pushes(start, prefix);
        lemma_merge_order_irrelevant(f, frags[i], frags[i + 1]);
        assert(fold_pushes(start, frags.drop_last()) == hist_sum(f, frags[i]));
        assert(fold_pushes(start, swapped.drop_last()) == hist_sum(f, frags[i + 1]));
        assert(fold_pushes(start, frags) == hist_sum(hist_sum(f, frags[i]), frags[i + 1]));
        assert(fold_pushes(start, swapped) == hist_sum(hist_sum(f, frags[i + 1]), frags[i]));
    } else {
        lemma_pushes_commute(start, frags.drop_last(), i);
        assert(swapped.drop_last() =~= frags.drop_last().update(i, frags[i + 1]).update(i + 1, frags[i]));
        assert(swapped.last() == frags.last());
    }
}

/// The accumulated state of one merge point: a histogram and a grand total.
pub struct AsyncResults {
    hist: ResultArray,
    total: u64,
}

impl AsyncResults {
    /// The held histogram.
    pub closed spec fn hist(&self) -> Seq<u64> {
        self.hist@
    }

    /// A held histogram always has one counter per bucket.
    pub proof fn lemma_hist_len(&self)
        ensures
            self.hist().len() == 128,
    {
    }

    /// The held total count.
    pub closed spec fn total(&self) -> u64 {
        self.total
    }

    /// Whether merging `val` and `count` keeps every counter within `u64`.
    pub open spec fn can_merge(&self, val: Seq<u64>, count: u64) -> bool {
        &&& self.total() + count <= u64::MAX
        &&& forall|i: int| 0 <= i < 128 ==> #[trigger] self.hist()[i] + val[i] <= u64::MAX
    }

    pub fn new() -> (r: Self)
        ensures
            r.hist() == zero_hist(),
            r.total() == 0,
    {
        let r = AsyncResults { hist: [0u64; 128], total: 0 };
        assert(r.hist() =~= zero_hist());
        r
    }

    /// Tests whether `push(val, count)` may be called without overflow.
    pub fn fits(&self, val: &ResultArray, count: u64) -> (r: bool)
        ensures
            r == self.can_merge(val@, count),
    {
        if count > u64::MAX - self.total {
            return false;
        }
        let mut i: usize = 0;
        while i < BUCKETS
            invariant
                i <= 128,
                forall|j: int| 0 <= j < i ==> #[trigger] self.hist()[j] + val@[j] <= u64::MAX,
            decreases 128 - i,
        {
            if val[i] > u64::MAX - self.hist[i] {
                assert(self.hist()[i as int] + val@[i as int] > u64::MAX);
                return false;
            }
            i += 1;
        }
        true
    }

    /// Adds `val` element-wise into the histogram and `count` into the total.
    pub fn push(&mut self, val: &ResultArray, count: u64)
        requires
            old(self).can_merge(val@, count),
        ensures
            as_ints(final(self).hist()) == hist_sum(as_ints(old(self).hist()), as_ints(val@)),
            final(self).total() == old(self).total() + count,
    {
        self.total = self.total + count;
        let mut i: usize = 0;
        while i < BUCKETS
            invariant
                i <= 128,
                self.total == old(self).total() + count,
                forall|j: int| 0 <= j < i ==> #[trigger] self.hist@[j] == old(self).hist()[j] + val@[j],
                forall|j: int| i <= j < 128 ==> #[trigger] self.hist@[j] == old(self).hist()[j],
                old(self).can_merge(val@, count),
            decreases 128 - i,
        {
            self.hist[i] = self.hist[i] + val[i];
            i += 1;
        }
        assert(as_ints(self.hist()) =~= hist_sum(as_ints(old(self).hist()), as_ints(val@)));
    }

    /// A snapshot of the state, leaving it unchanged.
    pub fn get(&self) -> (r: (ResultArray, u64))
        ensures
            r.0@ == self.hist(),
            r.1 == self.total(),
    {
        (self.hist, self.total)
    }

    /// Reads the state and resets it to empty in one step.
    pub fn pop(&mut self) -> (r: (ResultArray, u64))
        ensures
            r.0@ == old(self).hist(),
            r.1 == old(self).total(),
            final(self).hist() == zero_hist(),
            final(self).total() == 0,
    {
        let r = (self.hist, self.total);
        self.hist = [0u64; 128];
        self.total = 0;
        assert(self.hist() =~= zero_hist());
        r
    }
}

/// Pushing a fragment into an emptied accumulator and popping gives back
/// exactly that fragment and count; and the state that `pop` leaves reads
/// as the zero histogram and zero total.
pub proof fn lemma_push_then_pop(empty: AsyncResults, pushed: AsyncResults, x: Seq<u64>, count: u64)
    requires
        empty.hist() == zero_hist(),
        empty.total() == 0,
        x.len() == 128,
        as_ints(pushed.hist()) == hist_sum(as_ints(empty.hist()), as_ints(x)),
        pushed.total() == empty.total() + count,
    ensures
        pushed.hist() == x,
        pushed.total() == count,
        as_ints(empty.hist()) == Seq::new(128, |i: int| 0int),
{
    pushed.lemma_hist_len();
    assert forall|i: int| 0 <= i < 128 implies pushed.hist()[i] == x[i] by {
        assert(as_ints(pushed.hist())[i] == hist_sum(as_ints(empty.hist()), as_ints(x))[i]);
    }
    assert(pushed.hist() =~= x);
    assert(as_ints(empty.hist()) =~= Seq::new(128, |i: int| 0int));
}

} // verus!
