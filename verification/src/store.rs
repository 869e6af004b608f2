//! Session store: the append-only log of one connection.

use vstd::prelude::*;
use crate::mean::Observation;
use crate::mean::in_range;
use crate::mean::selected;
use crate::mean::price_sum;
use crate::mean::range_mean;
use crate::mean::lemma_selected_empty;
use crate::mean::lemma_selected_push;
use crate::mean::lemma_quotient_fits;
use crate::mean::law_empty_interval;

verus! {

/// The observations of one session, in the order in which they arrived.
///
/// The view is that sequence. Inserting appends to it; nothing else
/// changes it.
pub struct SessionStore {
    log: Vec<Observation>,
}

impl View for SessionStore {
    type V = Seq<Observation>;

    closed spec fn view(&self) -> Seq<Observation> {
        self.log@
    }
}

impl SessionStore {
    /// A store that holds nothing.
    pub fn new() -> (store: SessionStore)
        ensures
            store@ == Seq::<Observation>::empty(),
    {
        SessionStore { log: Vec::new() }
    }

    /// Number of observations recorded so far.
    pub fn len(&self) -> (n: usize)
        ensures
            n == self@.len(),
    {
        self.log.len()
    }

    /// Records one observation at the end of the log.
    pub fn insert(&mut self, timestamp: i32, price: i32)
        ensures
            final(self)@ == old(self)@.push(Observation { timestamp, price }),
    {
        self.log.push(Observation { timestamp, price });
    }

    /// Mean price of the observations stamped within `mintime..=maxtime`.
    ///
    /// Zero when there are none, which includes every query with
    /// `mintime > maxtime`. Otherwise the sum of their prices divided by
    /// their count, rounded toward zero. The sum is accumulated in 128
    /// bits, which no number of 32-bit prices that fits in memory can
    /// overflow, and the result always fits in 32 bits.
    pub fn query_mean(&self, mintime: i32, maxtime: i32) -> (mean: i32)
        ensures
            mean == range_mean(self@, mintime, maxtime),
            selected(self@, mintime, maxtime).len() == 0 ==> mean == 0,
            mintime > maxtime ==> mean == 0,
    {
        let n = self.log.len();
        let mut sum: i128 = 0;
        let mut count: usize = 0;
        let mut i: usize = 0;
        proof {
            lemma_selected_empty(mintime, maxtime);
            assert(self.log@.take(0) =~= Seq::<Observation>::empty());
        }
        while i < n
            invariant
                n == self.log@.len(),
                i <= n,
                count <= i,
                count == selected(self.log@.take(i as int), mintime, maxtime).len(),
                sum == price_sum(selected(self.log@.take(i as int), mintime, maxtime)),
                -0x8000_0000 * count <= sum <= 0x7fff_ffff * count,
            decreases n - i,
        {
            let o = self.log[i];
            proof {
                let before = self.log@.take(i as int);
                assert(self.log@.take(i + 1) =~= before.push(o));
                lemma_selected_push(before, o, mintime, maxtime);
                if in_range(o, mintime, maxtime) {
                    let s = selected(before, mintime, maxtime).push(o);
                    assert(s.drop_last() =~= selected(before, mintime, maxtime));
                    assert(s.last() == o);
                }
            }
            if mintime <= o.timestamp && o.timestamp <= maxtime {
                sum = sum + o.price as i128;
                count = count + 1;
            }
            i = i + 1;
        }
        proof {
            assert(self.log@.take(n as int) =~= self.log@);
            if mintime > maxtime {
                law_empty_interval(self.log@, mintime, maxtime);
            }
        }
        if count == 0 {
            0
        } else {
            proof {
                lemma_quotient_fits(sum as int, count as int);
            }
            (sum / count as i128) as i32
        }
    }
}

} // verus!
