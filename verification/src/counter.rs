//! A bounded counter.
use vstd::prelude::*;

verus! {

/// The count after adding one to `n` under the limit `limit`: one more while
/// below the limit, else unchanged.
pub open spec fn counted_up(n: nat, limit: nat) -> nat {
    if n < limit {
        n + 1
    } else {
        n
    }
}

/// The count after taking one from `n`: one less while above zero, else zero.
pub open spec fn counted_down(n: nat) -> nat {
    if n > 0 {
        (n - 1) as nat
    } else {
        0
    }
}

/// Counting up and then down from below the limit gives back the count.
pub proof fn lemma_up_then_down(n: nat, limit: nat)
    requires
        n < limit,
    ensures
        counted_down(counted_up(n, limit)) == n,
{
}

/// Counting down and then up from above zero gives back the count, as the
/// limit is unchanged and the count was within it.
pub proof fn lemma_down_then_up(n: nat, limit: nat)
    requires
        0 < n <= limit,
    ensures
        counted_up(counted_down(n), limit) == n,
{
}

/// Counting up never carries a count within the limit past it, and counting
/// down never goes below zero.
pub proof fn lemma_counts_stay_in_range(n: nat, limit: nat)
    requires
        n <= limit,
    ensures
        counted_up(n, limit) <= limit,
        counted_down(n) <= n,
{
}

/// The count after counting up `k` times from `n` under the limit `limit`.
pub open spec fn counted_up_times(n: nat, limit: nat, k: nat) -> nat
    decreases k,
{
    if k == 0 {
        n
    } else {
        counted_up(counted_up_times(n, limit, (k - 1) as nat), limit)
    }
}

/// How many of `k` successive count-ups from `n` under `limit` added one
/// (each reporting `true`).
pub open spec fn ups_done(n: nat, limit: nat, k: nat) -> nat
    decreases k,
{
    if k == 0 {
        0
    } else {
        let before = counted_up_times(n, limit, (k - 1) as nat);
        ups_done(n, limit, (k - 1) as nat) + if before < limit { 1nat } else { 0nat }
    }
}

/// Counting up `k` times from a count within the limit loses no step and
/// applies none twice: the count becomes the smaller of the limit and the
/// count plus `k`, and exactly the steps that raised it report success.
pub proof fn lemma_increments(n: nat, limit: nat, k: nat)
    requires
        n <= limit,
    ensures
        counted_up_times(n, limit, k) == if n + k <= limit { n + k } else { limit },
        ups_done(n, limit, k) == counted_up_times(n, limit, k) - n,
    decreases k,
{
    if k > 0 {
        lemma_increments(n, limit, (k - 1) as nat);
    }
}

/// A counter that moves between zero and an upper limit.
pub struct Counter {
    value: u32,
    max_value: u32,
}

impl Counter {
    /// The current count.
    pub closed spec fn count(&self) -> nat {
        self.value as nat
    }

    /// The upper limit.
    pub closed spec fn limit(&self) -> nat {
        self.max_value as nat
    }

    /// A counter at zero whose limit is 24.
    pub fn new() -> (c: Self)
        ensures
            c.count() == 0,
            c.limit() == 24,
    {
        Counter { value: 0, max_value: 24 }
    }

    /// A counter at zero with the given limit.
    pub fn with_max(max_value: u32) -> (c: Self)
        ensures
            c.count() == 0,
            c.limit() == max_value,
    {
        Counter { value: 0, max_value }
    }

    /// The current count.
    pub fn get(&self) -> (v: u32)
        ensures
            v == self.count(),
    {
        self.value
    }

    /// Adds one unless the count has reached the limit; tells whether it did.
    pub fn increment(&mut self) -> (done: bool)
        ensures
            done == (old(self).count() < old(self).limit()),
            final(self).count() == counted_up(old(self).count(), old(self).limit()),
            final(self).limit() == old(self).limit(),
    {
        if self.value >= self.max_value {
            return false;
        }
        self.value = self.value + 1;
        true
    }

    /// Takes one away unless the count is zero; tells whether it did.
    pub fn decrement(&mut self) -> (done: bool)
        ensures
            done == (old(self).count() > 0),
            final(self).count() == counted_down(old(self).count()),
            final(self).limit() == old(self).limit(),
    {
        if self.value == 0 {
            return false;
        }
        self.value = self.value - 1;
        true
    }

    /// Sets the count back to zero.
    pub fn reset(&mut self)
        ensures
            final(self).count() == 0,
            final(self).limit() == old(self).limit(),
    {
        self.value = 0;
    }

    /// The upper limit.
    pub fn max_value(&self) -> (m: u32)
        ensures
            m == self.limit(),
    {
        self.max_value
    }

    /// Replaces the upper limit; the count is left as it is.
    pub fn set_max_value(&mut self, max_value: u32)
        ensures
            final(self).limit() == max_value,
            final(self).count() == old(self).count(),
    {
        self.max_value = max_value;
    }

    /// Whether the count has reached the limit.
    pub fn is_max(&self) -> (b: bool)
        ensures
            b == (self.count() >= self.limit()),
    {
        self.get() >= self.max_value
    }

    /// Whether the count is zero.
    pub fn is_zero(&self) -> (b: bool)
        ensures
            b == (self.count() == 0),
    {
        self.get() == 0
    }
}

} // verus!
