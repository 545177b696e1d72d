use std::collections::BTreeMap;
use std::time::Instant;

use vstd::prelude::*;

verus! {

broadcast use vstd::laws_cmp::group_laws_cmp;

#[verifier::external_type_specification]
#[verifier::external_body]
pub struct ExInstant(Instant);

/// Relies on `Instant::now`: a reading of the monotonic clock.
#[verifier::external_body]
fn clock_now() -> (r: Instant) {
    Instant::now()
}

/// Relies on `Instant::elapsed`: the milliseconds since `origin`, as a `u64`.
#[verifier::external_body]
fn millis_since(origin: &Instant) -> (r: u64) {
    origin.elapsed().as_millis() as u64
}

/// One recorded submission: `count` flips from client `hash` at `time`
/// (milliseconds on the collector's clock).
#[derive(Clone, Copy, Debug, PartialEq, Eq, Structural)]
pub struct CoinPush {
    pub hash: i64,
    pub time: u64,
    pub count: u64,
}

/// A client's surviving window: first and last sample time, and the flips
/// submitted in between (saturating at `u64::MAX`).
#[derive(Clone, Copy, Debug, PartialEq, Eq, Structural)]
pub struct TallyEntry {
    pub total_coins: u64,
    pub begin: u64,
    pub end: u64,
}

/// Flips per second over the entry's span; zero when the span is empty.
pub open spec fn speed_of(e: TallyEntry) -> int {
    if e.end <= e.begin {
        0
    } else {
        vstd::math::min((e.total_coins as int * 1000) / ((e.end - e.begin) as int), u64::MAX as int)
    }
}

impl TallyEntry {
    /// Flips per second over the window, `0` when the span is zero.
    pub fn speed(&self) -> (r: u64)
        ensures
            r == speed_of(*self),
    {
        if self.end <= self.begin {
            0
        } else {
            let span = (self.end - self.begin) as u128;
            let s = (self.total_coins as u128 * 1000) / span;
            if s > u64::MAX as u128 {
                u64::MAX
            } else {
                s as u64
            }
        }
    }
}

/// The oldest time that survives at `now` under a window of `timeout`.
pub open spec fn cutoff_of(now: u64, timeout: u64) -> u64 {
    if now >= timeout {
        (now - timeout) as u64
    } else {
        0
    }
}

/// The pushes of `s` whose time is at least `cutoff`, in their order.
pub open spec fn retained(s: Seq<CoinPush>, cutoff: u64) -> Seq<CoinPush>
    decreases s.len(),
{
    if s.len() == 0 {
        s
    } else {
        let prev = retained(s.drop_last(), cutoff);
        if s.last().time >= cutoff {
            prev.push(s.last())
        } else {
            prev
        }
    }
}

/// The entry of a client after folding one more push into `old`.
pub open spec fn fold_push(old: Option<TallyEntry>, p: CoinPush) -> TallyEntry {
    match old {
        Some(e) => TallyEntry {
            total_coins: vstd::math::min(e.total_coins + p.count, u64::MAX as int) as u64,
            begin: vstd::math::min(e.begin as int, p.time as int) as u64,
            end: vstd::math::max(e.end as int, p.time as int) as u64,
        },
        None => TallyEntry { total_coins: p.count, begin: p.time, end: p.time },
    }
}

/// Per-client windows of a log of pushes: earliest and latest time, and
/// the sum of the counts, of each client that appears.
pub open spec fn tally_of(s: Seq<CoinPush>) -> Map<i64, TallyEntry>
    decreases s.len(),
{
    if s.len() == 0 {
        Map::empty()
    } else {
        let m = tally_of(s.drop_last());
        let p = s.last();
        let old = if m.contains_key(p.hash) { Some(m[p.hash]) } else { None };
        m.insert(p.hash, fold_push(old, p))
    }
}

/// Collector-side log of timestamped pushes, evicted lazily to a trailing
/// window of `timeout` milliseconds.
pub struct AsyncStatistics {
    pushes: Vec<CoinPush>,
    timeout: u64,
    origin: Instant,
}

impl AsyncStatistics {
    /// The retained log, oldest first.
    pub closed spec fn log(&self) -> Seq<CoinPush> {
        self.pushes@
    }

    /// The window length in milliseconds.
    pub closed spec fn window(&self) -> u64 {
        self.timeout
    }

    pub fn new(timeout: u64) -> (r: Self)
        ensures
            r.log() == Seq::<CoinPush>::empty(),
            r.window() == timeout,
    {
        AsyncStatistics { pushes: Vec::new(), timeout, origin: clock_now() }
    }

    fn evict(&mut self, now: u64)
        ensures
            final(self).log() == retained(old(self).log(), cutoff_of(now, old(self).window())),
            final(self).window() == old(self).window(),
    {
        let cutoff: u64 = if now >= self.timeout { now - self.timeout } else { 0 };
        let mut kept: Vec<CoinPush> = Vec::new();
        let mut i: usize = 0;
        while i < self.pushes.len()
            invariant
                i <= self.pushes@.len(),
                cutoff == cutoff_of(now, self.timeout),
                kept@ == retained(self.pushes@.take(i as int), cutoff),
            decreases self.pushes@.len() - i,
        {
            let p = self.pushes[i];
            assert(self.pushes@.take(i as int + 1).drop_last() =~= self.pushes@.take(i as int));
            if p.time >= cutoff {
                kept.push(p);
            }
            i += 1;
        }
        assert(self.pushes@.take(i as int) =~= self.pushes@);
        self.pushes = kept;
    }

    /// Records `count` flips from `hash` at time `now`, after evicting the
    /// pushes older than `now - window`.
    pub fn push_at(&mut self, hash: i64, count: u64, now: u64)
        ensures
            final(self).log() == retained(old(self).log(), cutoff_of(now, old(self).window())).push(
                CoinPush { hash, time: now, count },
            ),
            final(self).window() == old(self).window(),
    {
        self.evict(now);
        self.pushes.push(CoinPush { hash, time: now, count });
    }

    /// Records `count` flips from `hash` at the current time.
    pub fn push(&mut self, hash: i64, count: u64)
        ensures
            exists|now: u64|
                final(self).log() == retained(old(self).log(), cutoff_of(now, old(self).window())).push(
                    CoinPush { hash, time: now, count },
                ),
            final(self).window() == old(self).window(),
    {
        let now = millis_since(&self.origin);
        self.push_at(hash, count, now);
    }

    /// The current time on this tally's clock, in milliseconds.
    pub fn now_millis(&self) -> u64 {
        millis_since(&self.origin)
    }

    /// The distinct clients of the retained log.
    pub fn clients(&self) -> (r: Vec<i64>)
        ensures
            r@.no_duplicates(),
            forall|h: i64| r@.contains(h) <==> tally_of(self.log()).contains_key(h),
    {
        let mut out: Vec<i64> = Vec::new();
        let mut i: usize = 0;
        while i < self.pushes.len()
            invariant
                i <= self.pushes@.len(),
                out@.no_duplicates(),
                forall|h: i64| out@.contains(h) <==> tally_of(self.pushes@.take(i as int)).contains_key(h),
            decreases self.pushes@.len() - i,
        {
            let h = self.pushes[i].hash;
            assert(self.pushes@.take(i as int + 1).drop_last() =~= self.pushes@.take(i as int));
            let mut j: usize = 0;
            let mut seen = false;
            while j < out.len()
                invariant
                    j <= out@.len(),
                    seen <==> exists|k: int| 0 <= k < j && out@[k] == h,
                decreases out@.len() - j,
            {
                if out[j] == h {
                    seen = true;
                }
                j += 1;
            }
            let ghost old_out = out@;
            if !seen {
                out.push(h);
            }
            proof {
                let prev = self.pushes@.take(i as int);
                let next = self.pushes@.take(i as int + 1);
                assert(next.last() == self.pushes@[i as int]);
                assert forall|g: i64| tally_of(next).contains_key(g) <==> (g == h || tally_of(prev).contains_key(g)) by {}
                if seen {
                    let k = choose|k: int| 0 <= k < old_out.len() && old_out[k] == h;
                    assert(old_out.contains(h));
                    assert(out@ == old_out);
                    assert forall|g: i64| out@.contains(g) <==> (g == h || old_out.contains(g)) by {}
                } else {
                    assert(!old_out.contains(h));
                    assert(out@ == old_out.push(h));
                    assert forall|g: i64| out@.contains(g) <==> (g == h || old_out.contains(g)) by {
                        if g == h {
                            assert(out@[out@.len() - 1] == h);
                        }
                        if old_out.contains(g) {
                            let k = choose|k: int| 0 <= k < old_out.len() && old_out[k] == g;
                            assert(out@[k] == g);
                        }
                        if out@.contains(g) {
                            let k = choose|k: int| 0 <= k < out@.len() && out@[k] == g;
                            if k < old_out.len() {
                                assert(old_out[k] == g);
                            }
                        }
                    }
                    assert forall|x: int, y: int| 0 <= x < out@.len() && 0 <= y < out@.len() && x != y
                        implies out@[x] != out@[y] by {
                        if x < old_out.len() && y < old_out.len() {
                        } else if x < old_out.len() {
                            assert(old_out.contains(out@[x]));
                        } else {
                            assert(old_out.contains(out@[y]));
                        }
                    }
                }
                assert forall|g: i64| out@.contains(g) <==> tally_of(next).contains_key(g) by {
                    assert(old_out.contains(g) <==> tally_of(prev).contains_key(g));
                }
            }
            i += 1;
        }
        assert(self.pushes@.take(i as int) =~= self.pushes@);
        out
    }

    /// Evicts the pushes older than `now - window`, then folds the rest into
    /// one window per client.
    pub fn get_tally_at(&mut self, now: u64) -> (r: BTreeMap<i64, TallyEntry>)
        ensures
            final(self).log() == retained(old(self).log(), cutoff_of(now, old(self).window())),
            final(self).window() == old(self).window(),
            r@ == tally_of(final(self).log()),
    {
        self.evict(now);
        let mut clients: BTreeMap<i64, TallyEntry> = BTreeMap::new();
        let mut i: usize = 0;
        while i < self.pushes.len()
            invariant
                i <= self.pushes@.len(),
                clients@ == tally_of(self.pushes@.take(i as int)),
            decreases self.pushes@.len() - i,
        {
            let p = self.pushes[i];
            assert(self.pushes@.take(i as int + 1).drop_last() =~= self.pushes@.take(i as int));
            let e = match clients.get(&p.hash) {
                Some(o) => TallyEntry {
                    total_coins: o.total_coins.saturating_add(p.count),
                    begin: if o.begin <= p.time { o.begin } else { p.time },
                    end: if o.end >= p.time { o.end } else { p.time },
                },
                None => TallyEntry { total_coins: p.count, begin: p.time, end: p.time },
            };
            clients.insert(p.hash, e);
            i += 1;
        }
        assert(self.pushes@.take(i as int) =~= self.pushes@);
        clients
    }

    /// The per-client windows at the current time.
    pub fn get_tally(&mut self) -> (r: BTreeMap<i64, TallyEntry>)
        ensures
            exists|now: u64|
                final(self).log() == retained(old(self).log(), cutoff_of(now, old(self).window())),
            final(self).window() == old(self).window(),
            r@ == tally_of(final(self).log()),
    {
        let now = millis_since(&self.origin);
        self.get_tally_at(now)
    }
}

} // verus!
