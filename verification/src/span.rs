//! Spans of time with saturating arithmetic.

use vstd::prelude::*;

verus! {

/// The longest span in nanoseconds: 2^64 seconds less a nanosecond.
pub const MAX_SPAN_NS: u128 = 18_446_744_073_709_551_615_999_999_999;

/// A span of time in nanoseconds, at most `MAX_SPAN_NS`.
#[derive(Debug, Clone, Copy, PartialEq, Eq, Structural)]
pub struct Span {
    pub ns: u128,
}

/// A number of nanoseconds cut at the longest span.
pub open spec fn saturated(ns: int) -> int {
    if ns < MAX_SPAN_NS {
        ns
    } else {
        MAX_SPAN_NS as int
    }
}

impl Span {
    /// The span is no longer than the longest one.
    pub open spec fn valid(self) -> bool {
        self.ns <= MAX_SPAN_NS
    }

    /// A span of milliseconds.
    pub fn from_millis(ms: u64) -> (r: Span)
        ensures
            r.ns == ms * 1_000_000,
            r.valid(),
    {
        Span { ns: ms as u128 * 1_000_000 }
    }

    /// A span of seconds.
    pub fn from_secs(s: u64) -> (r: Span)
        ensures
            r.ns == s * 1_000_000_000,
            r.valid(),
    {
        Span { ns: s as u128 * 1_000_000_000 }
    }

    /// A span of nanoseconds.
    pub fn from_nanos(ns: u64) -> (r: Span)
        ensures
            r.ns == ns,
            r.valid(),
    {
        Span { ns: ns as u128 }
    }

    /// The sum, cut at the longest span.
    pub fn saturating_add(self, other: Span) -> (r: Span)
        requires
            self.valid(),
            other.valid(),
        ensures
            r.ns == saturated(self.ns + other.ns),
            r.valid(),
    {
        let sum: u128 = self.ns + other.ns;
        if sum < MAX_SPAN_NS {
            Span { ns: sum }
        } else {
            Span { ns: MAX_SPAN_NS }
        }
    }

    /// The multiple, cut at the longest span.
    pub fn saturating_mul(self, n: u32) -> (r: Span)
        requires
            self.valid(),
        ensures
            r.ns == saturated(self.ns * n),
            r.valid(),
    {
        assert(0 <= self.ns * n <= MAX_SPAN_NS * 0xffff_ffff) by (nonlinear_arith)
            requires
                0 <= self.ns <= MAX_SPAN_NS,
                0 <= n <= 0xffff_ffff,
        ;
        let product: u128 = self.ns * n as u128;
        if product < MAX_SPAN_NS {
            Span { ns: product }
        } else {
            Span { ns: MAX_SPAN_NS }
        }
    }

    /// The longer of two spans.
    pub fn longer(self, other: Span) -> (r: Span)
        ensures
            r.ns == if self.ns >= other.ns {
                self.ns
            } else {
                other.ns
            },
    {
        if self.ns >= other.ns {
            self
        } else {
            other
        }
    }
}

/// A number of nanoseconds is cut exactly where its seconds do not fit in 64 bits.
pub proof fn law_spans_hold_sixty_four_bits_of_seconds(ns: int)
    requires
        0 <= ns,
    ensures
        saturated(ns) <= ns,
        saturated(ns) / 1_000_000_000 <= u64::MAX,
        saturated(ns) == ns <==> ns / 1_000_000_000 <= u64::MAX,
        saturated(ns) != ns ==> saturated(ns) + 1 == (u64::MAX + 1) * 1_000_000_000,
{
}

} // verus!
