use vstd::prelude::*;

use crate::pb::{Coinbatch, Coinstats, Coinstatus};
use crate::stats::{
    as_ints, dense_of, hist_sum, lemma_sparse_round_trip, result_array_from_pb, result_array_to_pb,
    sparse_of, zero_hist, AsyncResults,
};
use crate::tally::{cutoff_of, retained, speed_of, tally_of, AsyncStatistics, CoinPush, TallyEntry};

verus! {

/// Window of the per-client throughput tally, in milliseconds.
pub const TALLY_WINDOW_MS: u64 = 10_000;

/// Sum of the per-client speeds of a stats list, saturating at `u64::MAX`.
pub open spec fn speed_sum(stats: Seq<Coinstats>) -> int
    decreases stats.len(),
{
    if stats.len() == 0 {
        0
    } else {
        vstd::math::min(speed_sum(stats.drop_last()) + stats.last().flips_per_second as u64, u64::MAX as int)
    }
}

/// `stats` lists each client of `tally` exactly once, with its speed.
pub open spec fn lists_clients(stats: Seq<Coinstats>, tally: Map<i64, TallyEntry>) -> bool {
    &&& stats.len() == tally.dom().len()
    &&& forall|i: int, j: int| 0 <= i < j < stats.len() ==> stats[i].hash != stats[j].hash
    &&& forall|i: int| 0 <= i < stats.len() ==> #[trigger] tally.contains_key(stats[i].hash)
        && stats[i].flips_per_second == speed_of(tally[stats[i].hash]) as i64
    &&& forall|h: i64| tally.contains_key(h) ==> exists|i: int| 0 <= i < stats.len() && #[trigger] stats[i].hash == h
}

/// The collector: the global accumulator and the per-client tally behind
/// the two RPC operations.
pub struct CoinFlipperService {
    results: AsyncResults,
    stats: AsyncStatistics,
}

impl CoinFlipperService {
    pub closed spec fn results(&self) -> AsyncResults {
        self.results
    }

    pub closed spec fn stats(&self) -> AsyncStatistics {
        self.stats
    }

    pub fn new() -> (r: Self)
        ensures
            r.results().hist() == zero_hist(),
            r.results().total() == 0,
            r.stats().log().len() == 0,
            r.stats().window() == TALLY_WINDOW_MS,
    {
        CoinFlipperService { results: AsyncResults::new(), stats: AsyncStatistics::new(TALLY_WINDOW_MS) }
    }

    /// Merges a submitted batch at time `now`: its in-range buckets and its
    /// total go into the accumulator and `(hash, total)` into the tally. A
    /// batch that would overflow a counter is refused and changes nothing.
    pub fn submit_batch_at(&mut self, batch: &Coinbatch, now: u64) -> (r: bool)
        ensures
            r == old(self).results().can_merge(dense_of(batch.flips@), batch.total_flips as u64),
            r ==> as_ints(final(self).results().hist()) == hist_sum(
                as_ints(old(self).results().hist()),
                as_ints(dense_of(batch.flips@)),
            ),
            r ==> final(self).results().total() == old(self).results().total() + batch.total_flips as u64,
            r ==> final(self).stats().log() == retained(
                old(self).stats().log(),
                cutoff_of(now, old(self).stats().window()),
            ).push(CoinPush { hash: batch.hash, time: now, count: batch.total_flips as u64 }),
            !r ==> final(self).results() == old(self).results() && final(self).stats() == old(self).stats(),
            final(self).stats().window() == old(self).stats().window(),
    {
        let arr = result_array_from_pb(batch.flips.as_slice());
        let count = batch.total_flips as u64;
        if !self.results.fits(&arr, count) {
            return false;
        }
        self.results.push(&arr, count);
        self.stats.push_at(batch.hash, count, now);
        true
    }

    /// As `submit_batch_at`, at the current time.
    pub fn submit_batch(&mut self, batch: &Coinbatch) -> (r: bool)
        ensures
            r == old(self).results().can_merge(dense_of(batch.flips@), batch.total_flips as u64),
            r ==> as_ints(final(self).results().hist()) == hist_sum(
                as_ints(old(self).results().hist()),
                as_ints(dense_of(batch.flips@)),
            ),
            r ==> final(self).results().total() == old(self).results().total() + batch.total_flips as u64,
            r ==> exists|now: u64| final(self).stats().log() == retained(
                old(self).stats().log(),
                cutoff_of(now, old(self).stats().window()),
            ).push(CoinPush { hash: batch.hash, time: now, count: batch.total_flips as u64 }),
            !r ==> final(self).results() == old(self).results() && final(self).stats() == old(self).stats(),
            final(self).stats().window() == old(self).stats().window(),
    {
        let now = self.stats.now_millis();
        self.submit_batch_at(batch, now)
    }

    /// The status at time `now`: the merged histogram in sparse form, the
    /// grand total, and each live client's speed with their sum. Stale
    /// pushes are evicted from the tally; the accumulator is unchanged.
    pub fn get_status_at(&mut self, now: u64) -> (r: Coinstatus)
        ensures
            final(self).results() == old(self).results(),
            final(self).stats().log() == retained(old(self).stats().log(), cutoff_of(now, old(self).stats().window())),
            final(self).stats().window() == old(self).stats().window(),
            r.flips@ == sparse_of(old(self).results().hist()),
            r.total_flips == old(self).results().total() as i64,
            lists_clients(r.stats@, tally_of(final(self).stats().log())),
            r.flips_per_second == speed_sum(r.stats@),
    {
        let (arr, total) = self.results.get();
        let tally = self.stats.get_tally_at(now);
        let clients = self.stats.clients();
        let mut stats: Vec<Coinstats> = Vec::new();
        let mut sum: u64 = 0;
        let mut i: usize = 0;
        while i < clients.len()
            invariant
                tally@ == tally_of(self.stats.log()),
                clients@.no_duplicates(),
                forall|h: i64| clients@.contains(h) <==> tally@.contains_key(h),
                i <= clients@.len(),
                stats@.len() == i,
                forall|k: int| 0 <= k < i ==> #[trigger] stats@[k].hash == clients@[k],
                forall|k: int| 0 <= k < i ==> #[trigger] tally@.contains_key(stats@[k].hash)
                    && stats@[k].flips_per_second == speed_of(tally@[stats@[k].hash]) as i64,
                sum == speed_sum(stats@),
            decreases clients@.len() - i,
        {
            let h = clients[i];
            assert(clients@.contains(h));
            let e = tally.get(&h).unwrap();
            let sp = e.speed();
            let st = Coinstats { hash: h, flips_per_second: #[verifier::truncate] (sp as i64) };
            let ghost prev = stats@;
            stats.push(st);
            assert(stats@.drop_last() =~= prev);
            sum = sum.saturating_add(st.flips_per_second as u64);
            i += 1;
        }
        proof {
            assert forall|a: int, b: int| 0 <= a < b < stats@.len() implies stats@[a].hash != stats@[b].hash by {
                assert(clients@[a] != clients@[b]);
            }
            assert forall|h: i64| tally@.contains_key(h) implies exists|k: int|
                0 <= k < stats@.len() && #[trigger] stats@[k].hash == h by {
                assert(clients@.contains(h));
                let k = choose|k: int| 0 <= k < clients@.len() && clients@[k] == h;
                assert(stats@[k].hash == h);
            }
            clients@.unique_seq_to_set();
            assert(clients@.to_set() =~= tally@.dom());
        }
        Coinstatus {
            flips: result_array_to_pb(&arr),
            total_flips: #[verifier::truncate] (total as i64),
            flips_per_second: sum,
            stats,
        }
    }

    /// As `get_status_at`, at the current time.
    pub fn get_status(&mut self) -> (r: Coinstatus)
        ensures
            final(self).results() == old(self).results(),
            exists|now: u64| final(self).stats().log() == retained(old(self).stats().log(), cutoff_of(now, old(self).stats().window())),
            final(self).stats().window() == old(self).stats().window(),
            r.flips@ == sparse_of(old(self).results().hist()),
            r.total_flips == old(self).results().total() as i64,
            lists_clients(r.stats@, tally_of(final(self).stats().log())),
            r.flips_per_second == speed_sum(r.stats@),
    {
        let now = self.stats.now_millis();
        self.get_status_at(now)
    }

    /// The state to persist: the merged histogram in sparse form and the
    /// grand total, with no throughput figures.
    pub fn snapshot(&self) -> (r: Coinstatus)
        ensures
            r.flips@ == sparse_of(self.results().hist()),
            r.total_flips == self.results().total() as i64,
            r.flips_per_second == 0,
            r.stats@.len() == 0,
    {
        let (arr, total) = self.results.get();
        Coinstatus {
            flips: result_array_to_pb(&arr),
            total_flips: #[verifier::truncate] (total as i64),
            flips_per_second: 0,
            stats: Vec::new(),
        }
    }

    /// Merges a persisted status into the accumulator once, as at startup.
    /// A status that would overflow a counter is refused and changes nothing.
    pub fn restore(&mut self, status: &Coinstatus) -> (r: bool)
        ensures
            r == old(self).results().can_merge(dense_of(status.flips@), status.total_flips as u64),
            r ==> as_ints(final(self).results().hist()) == hist_sum(
                as_ints(old(self).results().hist()),
                as_ints(dense_of(status.flips@)),
            ),
            r ==> final(self).results().total() == old(self).results().total() + status.total_flips as u64,
            !r ==> final(self).results() == old(self).results(),
            final(self).stats() == old(self).stats(),
    {
        let arr = result_array_from_pb(status.flips.as_slice());
        let count = status.total_flips as u64;
        if !self.results.fits(&arr, count) {
            return false;
        }
        self.results.push(&arr, count);
        true
    }
}

/// A persisted snapshot decodes to the histogram and total it was taken
/// from, as long as the total fits the wire's signed field.
pub proof fn lemma_snapshot_round_trip(hist: Seq<u64>, total: u64)
    requires
        hist.len() == 128,
        total <= i64::MAX,
    ensures
        dense_of(sparse_of(hist)) == hist,
        ((total as i64) as u64) == total,
{
    lemma_sparse_round_trip(hist);
    assert(((total as i64) as u64) == total) by (bit_vector)
        requires
            total <= 0x7fff_ffff_ffff_ffffu64,
    ;
}

} // verus!
