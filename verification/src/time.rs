//! Spans of time.

use vstd::prelude::*;

verus! {

/// The nanoseconds in a second.
pub const NANOS_PER_SEC: u32 = 1_000_000_000;

/// A span of time, to the nanosecond.
///
/// Its view is how many nanoseconds it is long.
#[derive(Clone, Copy, Debug, PartialEq, Eq, Structural)]
pub struct Duration {
    secs: u64,
    nanos: u32,
}

impl View for Duration {
    type V = nat;

    closed spec fn view(&self) -> nat {
        (self.secs as nat * NANOS_PER_SEC as nat + self.nanos as nat) as nat
    }
}

/// The longest span there is, in nanoseconds.
pub open spec fn longest() -> nat {
    (u64::MAX as nat * NANOS_PER_SEC as nat + 999_999_999) as nat
}

impl Duration {
    #[verifier::type_invariant]
    spec fn normal(self) -> bool {
        self.nanos < NANOS_PER_SEC
    }

    /// A span of whole seconds and the nanoseconds past them.
    pub fn new(secs: u64, nanos: u32) -> (d: Self)
        requires
            nanos < NANOS_PER_SEC,
        ensures
            d@ == secs * NANOS_PER_SEC + nanos,
    {
        Duration { secs, nanos }
    }

    /// No time at all.
    pub fn zero() -> (d: Self)
        ensures
            d@ == 0,
    {
        Duration { secs: 0, nanos: 0 }
    }

    pub fn from_secs(secs: u64) -> (d: Self)
        ensures
            d@ == secs * NANOS_PER_SEC,
    {
        Duration { secs, nanos: 0 }
    }

    pub fn from_millis(millis: u64) -> (d: Self)
        ensures
            d@ == millis * 1_000_000,
    {
        let nanos: u32 = (millis % 1000) as u32 * 1_000_000;
        Duration { secs: millis / 1000, nanos }
    }

    /// The whole seconds of a span.
    pub fn as_secs(&self) -> (secs: u64)
        ensures
            secs == self@ / NANOS_PER_SEC as nat,
    {
        proof {
            use_type_invariant(self);
        }
        self.secs
    }

    /// The nanoseconds of a span past its whole seconds.
    pub fn subsec_nanos(&self) -> (nanos: u32)
        ensures
            nanos == self@ % NANOS_PER_SEC as nat,
            nanos < NANOS_PER_SEC,
    {
        proof {
            use_type_invariant(self);
        }
        self.nanos
    }

    pub fn is_zero(&self) -> (r: bool)
        ensures
            r == (self@ == 0),
    {
        self.secs == 0 && self.nanos == 0
    }

    /// Whether a span is at least as long as another.
    pub fn at_least(&self, other: &Self) -> (r: bool)
        ensures
            r == (self@ >= other@),
    {
        proof {
            use_type_invariant(self);
            use_type_invariant(other);
        }
        self.secs > other.secs || (self.secs == other.secs && self.nanos >= other.nanos)
    }

    /// Two spans end to end.
    pub fn plus(&self, other: &Self) -> (d: Self)
        requires
            self@ + other@ <= longest(),
        ensures
            d@ == self@ + other@,
    {
        proof {
            use_type_invariant(self);
            use_type_invariant(other);
        }
        let nanos: u32 = self.nanos + other.nanos;
        if nanos >= NANOS_PER_SEC {
            Duration { secs: self.secs + other.secs + 1, nanos: nanos - NANOS_PER_SEC }
        } else {
            Duration { secs: self.secs + other.secs, nanos }
        }
    }

    /// What is left of a span once another has passed, which is nothing when
    /// the other is the longer.
    pub fn minus(&self, other: &Self) -> (d: Self)
        ensures
            d@ == (if self@ >= other@ { self@ - other@ } else { 0 }),
    {
        proof {
            use_type_invariant(self);
            use_type_invariant(other);
        }
        if !self.at_least(other) {
            return Duration::zero();
        }
        if self.nanos >= other.nanos {
            Duration { secs: self.secs - other.secs, nanos: self.nanos - other.nanos }
        } else {
            Duration {
                secs: self.secs - other.secs - 1,
                nanos: self.nanos + NANOS_PER_SEC - other.nanos,
            }
        }
    }
}

/// A second has a thousand million nanoseconds.
pub proof fn law_a_second_in_nanoseconds()
    ensures
        NANOS_PER_SEC == 1_000_000_000,
        longest() == 0xffff_ffff_ffff_ffff * 1_000_000_000 + 999_999_999,
{
}

}
