//! Spans of time, counted in whole seconds and nanoseconds.
use vstd::prelude::*;

verus! {

/// Nanoseconds in one second.
pub const NANOS_PER_SEC: u32 = 1_000_000_000;

/// A span of time: whole seconds plus a number of nanoseconds below one second.
#[derive(Clone, Copy, PartialEq, Eq, Structural, Debug)]
pub struct Duration {
    secs: u64,
    nanos: u32,
}

impl Duration {
    #[verifier::type_invariant]
    spec fn nanos_below_one_second(self) -> bool {
        self.nanos < NANOS_PER_SEC
    }

    /// The span in nanoseconds.
    pub closed spec fn total_nanos(self) -> nat {
        (self.secs as nat) * 1_000_000_000 + (self.nanos as nat)
    }

    /// The whole seconds of the span.
    pub closed spec fn whole_secs(self) -> nat {
        self.total_nanos() / 1_000_000_000
    }

    /// The whole seconds are the nanoseconds divided by one billion, rounded down.
    pub proof fn lemma_whole_secs(self)
        ensures
            self.whole_secs() == self.total_nanos() / 1_000_000_000,
    {
    }

    /// A span of whole seconds.
    pub fn from_secs(secs: u64) -> (d: Duration)
        ensures
            d.total_nanos() == secs * 1_000_000_000,
            d.whole_secs() == secs,
    {
        let d = Duration { secs, nanos: 0 };
        assert(d.total_nanos() / 1_000_000_000 == secs) by (nonlinear_arith)
            requires
                d.total_nanos() == (secs as nat) * 1_000_000_000,
        ;
        d
    }

    /// A span of milliseconds.
    pub fn from_millis(millis: u64) -> (d: Duration)
        ensures
            d.total_nanos() == millis * 1_000_000,
            d.whole_secs() == millis / 1000,
    {
        let secs = millis / 1000;
        let rest = millis % 1000;
        assert(rest * 1_000_000 < 1_000_000_000);
        let d = Duration { secs, nanos: (rest as u32) * 1_000_000 };
        assert(secs * 1_000_000_000 + rest * 1_000_000 == millis * 1_000_000) by (nonlinear_arith)
            requires
                secs == millis / 1000,
                rest == millis % 1000,
        ;
        assert(d.total_nanos() / 1_000_000_000 == secs) by (nonlinear_arith)
            requires
                d.total_nanos() == (secs as nat) * 1_000_000_000 + rest * 1_000_000,
                rest < 1000,
        ;
        d
    }

    /// A span of `secs` seconds and `nanos` nanoseconds; nanoseconds beyond a
    /// second carry into the seconds.
    pub fn new(secs: u64, nanos: u32) -> (d: Duration)
        requires
            secs + nanos / 1_000_000_000 <= u64::MAX,
        ensures
            d.total_nanos() == secs * 1_000_000_000 + nanos,
            d.whole_secs() == secs + nanos / 1_000_000_000,
    {
        let carry = (nanos / NANOS_PER_SEC) as u64;
        let rest = nanos % NANOS_PER_SEC;
        let d = Duration { secs: secs + carry, nanos: rest };
        assert((secs + carry) * 1_000_000_000 + rest == secs * 1_000_000_000 + nanos) by (nonlinear_arith)
            requires
                carry == nanos / 1_000_000_000,
                rest == nanos % 1_000_000_000,
        ;
        assert(d.total_nanos() / 1_000_000_000 == secs + carry) by (nonlinear_arith)
            requires
                d.total_nanos() == ((secs + carry) as nat) * 1_000_000_000 + rest,
                rest < 1_000_000_000,
        ;
        d
    }

    /// The whole seconds of the span.
    pub fn as_secs(&self) -> (s: u64)
        ensures
            s == self.whole_secs(),
    {
        proof {
            use_type_invariant(self);
        }
        assert(self.total_nanos() / 1_000_000_000 == self.secs) by (nonlinear_arith)
            requires
                self.total_nanos() == (self.secs as nat) * 1_000_000_000 + (self.nanos as nat),
                self.nanos < 1_000_000_000,
        ;
        self.secs
    }

    /// The nanoseconds below one second.
    pub fn subsec_nanos(&self) -> (n: u32)
        ensures
            n == self.total_nanos() % 1_000_000_000,
            n < 1_000_000_000,
    {
        proof {
            use_type_invariant(self);
        }
        assert(self.total_nanos() % 1_000_000_000 == self.nanos) by (nonlinear_arith)
            requires
                self.total_nanos() == (self.secs as nat) * 1_000_000_000 + (self.nanos as nat),
                self.nanos < 1_000_000_000,
        ;
        self.nanos
    }

    /// The whole milliseconds of the span.
    pub fn as_millis(&self) -> (m: u128)
        ensures
            m == self.total_nanos() / 1_000_000,
    {
        proof {
            use_type_invariant(self);
        }
        let m = (self.secs as u128) * 1000 + ((self.nanos / 1_000_000) as u128);
        assert(m == self.total_nanos() / 1_000_000) by (nonlinear_arith)
            requires
                m == (self.secs as nat) * 1000 + (self.nanos as nat) / 1_000_000,
                self.total_nanos() == (self.secs as nat) * 1_000_000_000 + (self.nanos as nat),
                self.nanos < 1_000_000_000,
        ;
        m
    }

    /// The span in nanoseconds.
    pub fn as_nanos(&self) -> (n: u128)
        ensures
            n == self.total_nanos(),
    {
        (self.secs as u128) * 1_000_000_000 + (self.nanos as u128)
    }

    /// Whether this span is strictly shorter than `other`.
    pub fn lt(&self, other: &Duration) -> (b: bool)
        ensures
            b == (self.total_nanos() < other.total_nanos()),
    {
        proof {
            use_type_invariant(self);
            use_type_invariant(other);
        }
        self.secs < other.secs || (self.secs == other.secs && self.nanos < other.nanos)
    }
}

} // verus!
