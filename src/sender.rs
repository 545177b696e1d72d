use vstd::prelude::*;

use crate::pb::{Coinbatch, Coinflip};
use crate::stats::{result_array_to_pb, sparse_of, ResultArray};

verus! {

/// Shortest wait after a failed connection attempt, in seconds.
pub const BACKOFF_FLOOR: u64 = 1;

/// Longest wait after failed connection attempts, in seconds.
pub const BACKOFF_CAP: u64 = 30;

impl View for Coinbatch {
    type V = (i64, Seq<Coinflip>, i64);

    open spec fn view(&self) -> (i64, Seq<Coinflip>, i64) {
        (self.hash, self.flips@, self.total_flips)
    }
}

/// A copy of a batch with the same client id, fragment and total.
pub fn copy_batch(b: &Coinbatch) -> (r: Coinbatch)
    ensures
        r@ == b@,
{
    let mut flips: Vec<Coinflip> = Vec::new();
    let mut i: usize = 0;
    while i < b.flips.len()
        invariant
            i <= b.flips@.len(),
            flips@ == b.flips@.take(i as int),
        decreases b.flips@.len() - i,
    {
        flips.push(b.flips[i]);
        i += 1;
        assert(flips@ =~= b.flips@.take(i as int));
    }
    assert(b.flips@.take(i as int) =~= b.flips@);
    Coinbatch { hash: b.hash, flips, total_flips: b.total_flips }
}

/// Whether the sender holds a channel to the collector.
#[derive(Clone, Copy, Debug, PartialEq, Eq, Structural)]
pub enum Link {
    Disconnected,
    Connected,
}

/// What the driving loop is to do next.
#[derive(Clone, Debug)]
pub enum Action {
    /// Nothing more this tick.
    Idle,
    /// Open a channel to the collector and report the outcome.
    Connect,
    /// Sleep this many seconds, then carry on with the next tick.
    Wait(u64),
    /// Submit this batch and report whether it was acknowledged.
    Send(Coinbatch),
}

/// The worker's delivery state: a FIFO of drained, unacknowledged batches,
/// the link state and the reconnect backoff.
pub struct BatchSender {
    hash: i64,
    queue: Vec<Coinbatch>,
    link: Link,
    backoff: u64,
    drained: Ghost<Seq<(i64, Seq<Coinflip>, i64)>>,
    acked: Ghost<nat>,
}

impl BatchSender {
    /// The client id stamped on every batch.
    pub closed spec fn client(&self) -> i64 {
        self.hash
    }

    /// The unacknowledged batches, head first.
    pub closed spec fn pending(&self) -> Seq<(i64, Seq<Coinflip>, i64)> {
        self.queue@.map_values(|b: Coinbatch| b@)
    }

    /// Every batch ever enqueued, in the order it was drained.
    pub closed spec fn drained(&self) -> Seq<(i64, Seq<Coinflip>, i64)> {
        self.drained@
    }

    /// How many batches the collector has acknowledged.
    pub closed spec fn acked(&self) -> nat {
        self.acked@
    }

    /// Whether a channel to the collector is held.
    pub closed spec fn link(&self) -> Link {
        self.link
    }

    /// The wait after the next failed connection attempt.
    pub closed spec fn backoff(&self) -> u64 {
        self.backoff
    }

    /// The queue is exactly the drained batches not yet acknowledged, and
    /// the backoff lies between its floor and its cap.
    pub open spec fn wf(&self) -> bool {
        &&& self.acked() <= self.drained().len()
        &&& self.pending() == self.drained().subrange(self.acked() as int, self.drained().len() as int)
        &&& BACKOFF_FLOOR <= self.backoff() <= BACKOFF_CAP
    }

    /// The action that sends the head of the queue, or `Idle` if it is empty.
    pub open spec fn sends_head(&self, a: Action) -> bool {
        if self.pending().len() == 0 {
            a is Idle
        } else {
            a matches Action::Send(b) && b@ == self.pending()[0]
        }
    }

    pub fn new(hash: i64) -> (r: Self)
        ensures
            r.wf(),
            r.client() == hash,
            r.pending().len() == 0,
            r.drained().len() == 0,
            r.link() == Link::Disconnected,
            r.backoff() == BACKOFF_FLOOR,
    {
        let r = BatchSender {
            hash,
            queue: Vec::new(),
            link: Link::Disconnected,
            backoff: BACKOFF_FLOOR,
            drained: Ghost(Seq::empty()),
            acked: Ghost(0),
        };
        assert(r.pending() =~= r.drained().subrange(0, 0));
        r
    }

    fn next_send(&self) -> (r: Action)
        requires
            self.wf(),
        ensures
            self.sends_head(r),
    {
        if self.queue.len() == 0 {
            Action::Idle
        } else {
            Action::Send(copy_batch(&self.queue[0]))
        }
    }

    /// One tick: enqueues what was drained from the local accumulator (if
    /// its total is non-zero), then asks to connect or to send the head.
    pub fn on_tick(&mut self, arr: &ResultArray, total: u64) -> (r: Action)
        requires
            old(self).wf(),
        ensures
            final(self).wf(),
            final(self).client() == old(self).client(),
            final(self).link() == old(self).link(),
            final(self).backoff() == old(self).backoff(),
            final(self).acked() == old(self).acked(),
            final(self).pending() == if total > 0 {
                old(self).pending().push((old(self).client(), sparse_of(arr@), total as i64))
            } else {
                old(self).pending()
            },
            final(self).drained() == if total > 0 {
                old(self).drained().push((old(self).client(), sparse_of(arr@), total as i64))
            } else {
                old(self).drained()
            },
            final(self).pending().len() == 0 ==> r is Idle,
            final(self).pending().len() > 0 && old(self).link() == Link::Disconnected ==> r is Connect,
            old(self).link() == Link::Connected ==> final(self).sends_head(r),
    {
        if total > 0 {
            let b = Coinbatch { hash: self.hash, flips: result_array_to_pb(arr), total_flips: #[verifier::truncate] (total as i64) };
            proof {
                self.drained@ = self.drained@.push(b@);
            }
            self.queue.push(b);
            assert(self.pending() =~= old(self).pending().push(b@));
            assert(self.pending() =~= self.drained().subrange(self.acked() as int, self.drained().len() as int));
        }
        if self.queue.len() == 0 {
            Action::Idle
        } else {
            match self.link {
                Link::Disconnected => Action::Connect,
                Link::Connected => self.next_send(),
            }
        }
    }

    /// The outcome of a connection attempt. On success the backoff resets
    /// and sending starts; on failure the loop waits the current backoff,
    /// which then doubles up to its cap. The queue is left as it is.
    pub fn on_connect(&mut self, ok: bool) -> (r: Action)
        requires
            old(self).wf(),
        ensures
            final(self).wf(),
            final(self).client() == old(self).client(),
            final(self).pending() == old(self).pending(),
            final(self).drained() == old(self).drained(),
            final(self).acked() == old(self).acked(),
            ok ==> final(self).link() == Link::Connected && final(self).backoff() == BACKOFF_FLOOR
                && final(self).sends_head(r),
            !ok ==> final(self).link() == Link::Disconnected && r == Action::Wait(old(self).backoff())
                && final(self).backoff() == vstd::math::min(2 * old(self).backoff(), BACKOFF_CAP as int),
    {
        if ok {
            self.link = Link::Connected;
            self.backoff = BACKOFF_FLOOR;
            self.next_send()
        } else {
            self.link = Link::Disconnected;
            let w = self.backoff;
            self.backoff = if w >= BACKOFF_CAP / 2 { BACKOFF_CAP } else { 2 * w };
            Action::Wait(w)
        }
    }

    /// The outcome of sending the head. An acknowledged head leaves the
    /// queue and the next one is sent; on failure the link drops and the
    /// queue is left as it is, to be retried after reconnecting.
    pub fn on_sent(&mut self, ok: bool) -> (r: Action)
        requires
            old(self).wf(),
        ensures
            final(self).wf(),
            final(self).client() == old(self).client(),
            final(self).drained() == old(self).drained(),
            final(self).backoff() == old(self).backoff(),
            ok && old(self).pending().len() > 0 ==> final(self).pending() == old(self).pending().drop_first()
                && final(self).acked() == old(self).acked() + 1
                && final(self).link() == old(self).link()
                && final(self).sends_head(r),
            ok && old(self).pending().len() == 0 ==> final(self).pending() == old(self).pending()
                && final(self).acked() == old(self).acked()
                && final(self).link() == old(self).link()
                && r is Idle,
            !ok ==> final(self).pending() == old(self).pending() && final(self).acked() == old(self).acked()
                && final(self).link() == Link::Disconnected && r is Idle,
    {
        if ok {
            if self.queue.len() > 0 {
                self.queue.remove(0);
                proof {
                    self.acked@ = self.acked@ + 1;
                }
                assert(self.pending() =~= old(self).pending().drop_first());
                assert(self.pending() =~= self.drained().subrange(self.acked() as int, self.drained().len() as int));
            }
            self.next_send()
        } else {
            self.link = Link::Disconnected;
            Action::Idle
        }
    }
}

/// The queue is empty exactly when every drained batch has been
/// acknowledged.
pub proof fn lemma_drained_iff_all_acked(s: &BatchSender)
    requires
        s.wf(),
    ensures
        s.pending().len() == 0 <==> s.acked() == s.drained().len(),
{
}

} // verus!
