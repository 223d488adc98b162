//! The transfer rate over the latest samples.
use vstd::prelude::*;

verus! {

/// A counter that keeps the latest `N` samples of a growing count, each
/// with the time in milliseconds at which it was taken.
#[derive(Debug, Clone, Copy, PartialEq, Eq)]
pub struct MetricsCounter<const N: usize> {
    /// The samples, as a ring.
    pub slots: [(usize, u64); N],
    /// The slot of the oldest sample, which the next sample replaces.
    pub index: usize,
}

/// The rate in units per second between an older and a newer sample:
/// nothing where no time has passed or the count has not grown, and no
/// more than a `u64` holds.
pub open spec fn rate_spec(oldest: (usize, u64), latest: (usize, u64)) -> int {
    if latest.1 <= oldest.1 || latest.0 <= oldest.0 {
        0
    } else {
        let per_second = (latest.0 - oldest.0) * 1000 / (latest.1 - oldest.1);
        if per_second > u64::MAX {
            u64::MAX as int
        } else {
            per_second
        }
    }
}

impl<const N: usize> MetricsCounter<N> {
    /// The index is a slot of the ring.
    pub open spec fn wf(self) -> bool {
        self.index < N
    }

    /// The sample taken last.
    pub open spec fn latest(self) -> (usize, u64) {
        self.slots@[if self.index == 0 {
            N - 1
        } else {
            self.index - 1
        }]
    }

    /// The oldest sample kept.
    pub open spec fn oldest(self) -> (usize, u64) {
        self.slots@[self.index as int]
    }

    /// A counter whose samples are all the count `init` at `init_at`.
    pub fn new(init: usize, init_at: u64) -> (counter: Self)
        requires
            N > 0,
        ensures
            counter.wf(),
            counter.index == 0,
            forall|i: int| 0 <= i < N ==> counter.slots@[i] == (init, init_at),
    {
        MetricsCounter { slots: [(init, init_at);N], index: 0 }
    }

    /// Puts the count `data`, taken at `added_at`, in place of the oldest
    /// sample.
    pub fn add(&mut self, data: usize, added_at: u64)
        requires
            old(self).wf(),
        ensures
            final(self).wf(),
            final(self).slots@ == old(self).slots@.update(old(self).index as int, (data, added_at)),
            final(self).index == (old(self).index + 1) % (N as int),
            final(self).latest() == (data, added_at),
    {
        self.slots[self.index] = (data, added_at);
        let next: usize = if self.index + 1 == N {
            0
        } else {
            self.index + 1
        };
        proof {
            if self.index + 1 == N {
                vstd::arithmetic::div_mod::lemma_mod_self_0(N as int);
            } else {
                vstd::arithmetic::div_mod::lemma_small_mod((self.index + 1) as nat, N as nat);
            }
        }
        self.index = next;
    }

    /// The average rate per second between the oldest and the latest
    /// sample.
    pub fn rate(&self) -> (per_second: u64)
        requires
            self.wf(),
        ensures
            per_second == rate_spec(self.oldest(), self.latest()),
    {
        let latest = self.slots[if self.index == 0 {
            N - 1
        } else {
            self.index - 1
        }];
        let oldest = self.slots[self.index];
        if latest.1 <= oldest.1 || latest.0 <= oldest.0 {
            return 0;
        }
        let grown: u128 = (latest.0 - oldest.0) as u128;
        let millis: u128 = (latest.1 - oldest.1) as u128;
        let per_second: u128 = grown * 1000 / millis;
        if per_second > u64::MAX as u128 {
            u64::MAX
        } else {
            per_second as u64
        }
    }
}

} // verus!
