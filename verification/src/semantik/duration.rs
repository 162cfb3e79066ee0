//! Spans of time, to the nanosecond.

use vstd::prelude::*;

verus! {

/// Nanoseconds per second.
pub const NANOS_PER_SEC: u32 = 1_000_000_000;

/// A span of time: whole seconds and the nanoseconds beyond them.
#[derive(Debug, Clone, Copy, PartialEq, Eq, Structural)]
pub struct Duration {
    secs: u64,
    nanos: u32,
}

/// The span in nanoseconds.
impl View for Duration {
    type V = nat;

    closed spec fn view(&self) -> nat {
        (self.secs * NANOS_PER_SEC + self.nanos) as nat
    }
}

/// `n` seconds in nanoseconds.
pub open spec fn secs(n: nat) -> nat {
    n * 1_000_000_000
}

/// `n` milliseconds in nanoseconds.
pub open spec fn millis(n: nat) -> nat {
    n * 1_000_000
}

impl Duration {
    #[verifier::type_invariant]
    spec fn in_range(self) -> bool {
        self.nanos < NANOS_PER_SEC
    }

    /// A span of `s` seconds and `n` nanoseconds, of which there are less
    /// than a second.
    pub fn new(s: u64, n: u32) -> (res: Self)
        requires
            n < NANOS_PER_SEC,
        ensures
            res@ == secs(s as nat) + n,
    {
        Duration { secs: s, nanos: n }
    }

    /// A span of `s` seconds.
    pub fn from_secs(s: u64) -> (res: Self)
        ensures
            res@ == secs(s as nat),
    {
        Duration { secs: s, nanos: 0 }
    }

    /// A span of `ms` milliseconds.
    pub fn from_millis(ms: u64) -> (res: Self)
        ensures
            res@ == millis(ms as nat),
    {
        Duration { secs: ms / 1000, nanos: (ms % 1000) as u32 * 1_000_000 }
    }

    /// Whole seconds of the span.
    pub fn as_secs(&self) -> (res: u64)
        ensures
            res == self@ / 1_000_000_000,
    {
        proof {
            use_type_invariant(&*self);
        }
        self.secs
    }

    /// Nanoseconds of the span beyond its whole seconds.
    pub fn subsec_nanos(&self) -> (res: u32)
        ensures
            res == self@ % 1_000_000_000,
            res < NANOS_PER_SEC,
    {
        proof {
            use_type_invariant(&*self);
        }
        self.nanos
    }

    /// Is this span no longer than `other`?
    pub fn at_most(&self, other: &Duration) -> (res: bool)
        ensures
            res == (self@ <= other@),
    {
        proof {
            use_type_invariant(&*self);
            use_type_invariant(&*other);
        }
        self.secs < other.secs || (self.secs == other.secs && self.nanos <= other.nanos)
    }

    /// The shorter of two spans.
    pub fn shorter(self, other: Duration) -> (res: Duration)
        ensures
            res@ == (if self@ <= other@ {
                self@
            } else {
                other@
            }),
    {
        if self.at_most(&other) {
            self
        } else {
            other
        }
    }
}

/// A second is a thousand milliseconds, and a millisecond a million
/// nanoseconds.
pub proof fn law_units(n: nat)
    ensures
        secs(n) == n * 1_000_000_000,
        millis(n) == n * 1_000_000,
        secs(n) == millis(n * 1000),
{
}

} // verus!
