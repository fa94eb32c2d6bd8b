//! Spans of time, as whole seconds and nanoseconds.

use crate::same::{Replica, Same};
use vstd::prelude::*;

verus! {

/// The nanoseconds in a second.
pub const NANOS_PER_SEC: u32 = 1_000_000_000;

/// A span of time.
#[derive(Clone, Copy, Debug, PartialEq, Eq)]
pub struct TimeSpan {
    secs: u64,
    nanos: u32,
}

impl DeepView for TimeSpan {
    type V = nat;

    /// The span in nanoseconds.
    closed spec fn deep_view(&self) -> nat {
        (self.secs * 1_000_000_000 + self.nanos) as nat
    }
}

impl Replica for TimeSpan {
    fn replica(&self) -> (r: Self) {
        *self
    }
}

impl Same for TimeSpan {
    fn same(&self, other: &Self) -> (r: bool) {
        proof {
            use_type_invariant(self);
            use_type_invariant(other);
        }
        self.secs == other.secs && self.nanos == other.nanos
    }
}

/// The longest span, in nanoseconds.
pub open spec fn longest_span() -> nat {
    (u64::MAX * 1_000_000_000 + 999_999_999) as nat
}

impl TimeSpan {
    #[verifier::type_invariant]
    spec fn within_second(&self) -> bool {
        self.nanos < 1_000_000_000
    }

    /// A span of whole seconds.
    pub fn from_secs(secs: u64) -> (r: Self)
        ensures
            r.deep_view() == secs * 1_000_000_000,
    {
        TimeSpan { secs, nanos: 0 }
    }

    /// A span of whole milliseconds.
    pub fn from_millis(millis: u64) -> (r: Self)
        ensures
            r.deep_view() == millis * 1_000_000,
    {
        TimeSpan { secs: millis / 1_000, nanos: ((millis % 1_000) as u32) * 1_000_000 }
    }

    /// A span of seconds and nanoseconds; nanoseconds beyond a second carry over.
    pub fn from_parts(secs: u64, nanos: u32) -> (r: Option<Self>)
        ensures
            r is Some <==> secs * 1_000_000_000 + nanos <= longest_span(),
            r matches Some(span) ==> span.deep_view() == secs * 1_000_000_000 + nanos,
    {
        let carry: u64 = (nanos / NANOS_PER_SEC) as u64;
        match secs.checked_add(carry) {
            Some(secs) => Some(TimeSpan { secs, nanos: nanos % NANOS_PER_SEC }),
            None => None,
        }
    }

    /// The whole seconds of the span.
    pub fn as_secs(&self) -> (r: u64)
        ensures
            r == self.deep_view() / 1_000_000_000,
    {
        proof {
            use_type_invariant(self);
        }
        self.secs
    }

    /// The nanoseconds beyond the whole seconds.
    pub fn subsec_nanos(&self) -> (r: u32)
        ensures
            r == self.deep_view() % 1_000_000_000,
    {
        proof {
            use_type_invariant(self);
        }
        self.nanos
    }

    /// Whether the span is empty.
    pub fn is_zero(&self) -> (r: bool)
        ensures
            r == (self.deep_view() == 0),
    {
        self.secs == 0 && self.nanos == 0
    }

    /// The whole milliseconds of the span.
    pub fn as_millis(&self) -> (r: u128)
        ensures
            r == self.deep_view() / 1_000_000,
    {
        proof {
            use_type_invariant(self);
        }
        (self.secs as u128) * 1_000 + (self.nanos as u128) / 1_000_000
    }

    /// The span taken `factor` times, unless it is longer than any span.
    pub fn checked_mul(&self, factor: u32) -> (r: Option<Self>)
        ensures
            r is Some <==> self.deep_view() * factor <= longest_span(),
            r matches Some(span) ==> span.deep_view() == self.deep_view() * factor,
    {
        proof {
            use_type_invariant(self);
        }
        let nanos: u64 = self.nanos as u64;
        assert(nanos * factor <= 999_999_999 * 4_294_967_295) by (nonlinear_arith)
            requires
                nanos <= 999_999_999,
                factor <= 4_294_967_295,
        ;
        let total: u64 = nanos * (factor as u64);
        let carry: u64 = total / 1_000_000_000;
        let rest: u32 = (total % 1_000_000_000) as u32;
        assert(self.deep_view() * factor == (self.secs * factor) * 1_000_000_000 + total)
            by (nonlinear_arith)
            requires
                self.deep_view() == self.secs * 1_000_000_000 + nanos,
                total == nanos * factor,
        ;
        match self.secs.checked_mul(factor as u64) {
            Some(secs) => match secs.checked_add(carry) {
                Some(secs) => Some(TimeSpan { secs, nanos: rest }),
                None => None,
            },
            None => None,
        }
    }

    /// The shorter of two spans. No span is longer than the longest.
    pub fn min(self, other: Self) -> (r: Self)
        ensures
            self.deep_view() <= longest_span(),
            other.deep_view() <= longest_span(),
            r.deep_view() == (if self.deep_view() <= other.deep_view() {
                self.deep_view()
            } else {
                other.deep_view()
            }),
    {
        proof {
            use_type_invariant(&self);
            use_type_invariant(&other);
        }
        if self.secs < other.secs || (self.secs == other.secs && self.nanos <= other.nanos) {
            self
        } else {
            other
        }
    }
}

} // verus!
