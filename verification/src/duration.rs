//! A span of time measured in nanoseconds.

use vstd::prelude::*;

verus! {

/// Nanoseconds in one second.
pub const NANOS_PER_SEC: u128 = 1_000_000_000;

/// Nanoseconds in one millisecond.
pub const NANOS_PER_MILLI: u128 = 1_000_000;

/// The largest span representable: `u64::MAX` seconds plus 999_999_999 nanoseconds.
pub const MAX_NANOS: u128 = 18_446_744_073_709_551_615_999_999_999;

/// A non-negative span of time with nanosecond precision. Its range is the
/// one of `std::time::Duration`.
#[derive(Debug, Clone, Copy, PartialEq, Eq, Structural)]
pub struct Duration {
    nanos: u128,
}

impl View for Duration {
    type V = nat;

    /// The span in nanoseconds.
    closed spec fn view(&self) -> nat {
        self.nanos as nat
    }
}

/// The smaller of two spans.
pub open spec fn min_nat(a: nat, b: nat) -> nat {
    if a <= b { a } else { b }
}

impl Duration {
    /// Every value stays within the range of `std::time::Duration`.
    #[verifier::type_invariant]
    spec fn in_range(self) -> bool {
        self.nanos <= MAX_NANOS
    }

    /// The empty span.
    pub fn zero() -> (d: Duration)
        ensures
            d@ == 0,
    {
        Duration { nanos: 0 }
    }

    /// A span of whole seconds.
    pub fn from_secs(secs: u64) -> (d: Duration)
        ensures
            d@ == secs * NANOS_PER_SEC,
    {
        assert(secs * NANOS_PER_SEC <= MAX_NANOS) by (nonlinear_arith)
            requires
                secs <= u64::MAX,
        ;
        Duration { nanos: secs as u128 * NANOS_PER_SEC }
    }

    /// A span of whole milliseconds.
    pub fn from_millis(millis: u64) -> (d: Duration)
        ensures
            d@ == millis * NANOS_PER_MILLI,
    {
        assert(millis * NANOS_PER_MILLI <= MAX_NANOS) by (nonlinear_arith)
            requires
                millis <= u64::MAX,
        ;
        Duration { nanos: millis as u128 * NANOS_PER_MILLI }
    }

    /// A span of nanoseconds.
    pub fn from_nanos(nanos: u64) -> (d: Duration)
        ensures
            d@ == nanos,
    {
        Duration { nanos: nanos as u128 }
    }

    /// A span of whole seconds and additional nanoseconds; nanoseconds beyond
    /// a second carry into the seconds, which must not then pass `u64::MAX`.
    pub fn new(secs: u64, nanos: u32) -> (d: Duration)
        requires
            secs + (nanos as nat) / 1_000_000_000 <= u64::MAX,
        ensures
            d@ == secs * NANOS_PER_SEC + nanos,
    {
        let ghost q: nat = (nanos as nat) / 1_000_000_000;
        let ghost r: nat = (nanos as nat) % 1_000_000_000;
        assert(nanos == q * 1_000_000_000 + r && r < 1_000_000_000) by (nonlinear_arith)
            requires
                q == (nanos as nat) / 1_000_000_000,
                r == (nanos as nat) % 1_000_000_000,
        ;
        assert(secs * NANOS_PER_SEC + nanos <= MAX_NANOS) by (nonlinear_arith)
            requires
                secs + q <= u64::MAX,
                nanos == q * 1_000_000_000 + r,
                r < 1_000_000_000,
                NANOS_PER_SEC == 1_000_000_000,
                MAX_NANOS == u64::MAX * 1_000_000_000 + 999_999_999,
        ;
        Duration { nanos: secs as u128 * NANOS_PER_SEC + nanos as u128 }
    }

    /// The span in nanoseconds.
    pub fn as_nanos(&self) -> (n: u128)
        ensures
            n == self@,
            n <= MAX_NANOS,
    {
        proof {
            use_type_invariant(self);
        }
        self.nanos
    }

    /// The whole seconds of the span.
    pub fn as_secs(&self) -> (s: u64)
        ensures
            s == self@ / NANOS_PER_SEC as nat,
    {
        proof {
            use_type_invariant(self);
        }
        (self.nanos / NANOS_PER_SEC) as u64
    }

    /// The nanoseconds beyond the whole seconds.
    pub fn subsec_nanos(&self) -> (n: u32)
        ensures
            n == self@ % NANOS_PER_SEC as nat,
            n < NANOS_PER_SEC,
    {
        (self.nanos % NANOS_PER_SEC) as u32
    }

    /// Whether the span is empty.
    pub fn is_zero(&self) -> (b: bool)
        ensures
            b == (self@ == 0),
    {
        self.nanos == 0
    }

    /// The smaller of the two spans.
    pub fn min(self, other: Duration) -> (d: Duration)
        ensures
            d@ == min_nat(self@, other@),
            d@ <= MAX_NANOS,
    {
        proof {
            use_type_invariant(&self);
        }
        if self.nanos <= other.nanos {
            self
        } else {
            other
        }
    }

    /// The span multiplied by `rhs`, or `None` when the product is out of range.
    pub fn checked_mul(self, rhs: u32) -> (d: Option<Duration>)
        ensures
            d matches Some(p) ==> p@ == self@ * rhs,
            d is None <==> self@ * rhs > MAX_NANOS,
    {
        proof {
            use_type_invariant(&self);
        }
        assert(self.nanos * rhs <= u128::MAX) by (nonlinear_arith)
            requires
                self.nanos <= MAX_NANOS,
                rhs <= u32::MAX,
        ;
        let product = self.nanos * rhs as u128;
        if product <= MAX_NANOS {
            Some(Duration { nanos: product })
        } else {
            None
        }
    }

    /// The span divided by two, rounded down.
    pub fn half(self) -> (d: Duration)
        ensures
            d@ == self@ / 2,
    {
        proof {
            use_type_invariant(&self);
        }
        Duration { nanos: self.nanos / 2 }
    }

    /// The difference of two spans, or zero when `other` is longer.
    pub fn saturating_sub(self, other: Duration) -> (d: Duration)
        ensures
            d@ == if self@ >= other@ { (self@ - other@) as nat } else { 0 },
    {
        proof {
            use_type_invariant(&self);
        }
        if self.nanos >= other.nanos {
            Duration { nanos: self.nanos - other.nanos }
        } else {
            Duration { nanos: 0 }
        }
    }

    /// The sum of two spans that stays within range.
    pub fn add(self, other: Duration) -> (d: Duration)
        requires
            self@ + other@ <= MAX_NANOS,
        ensures
            d@ == self@ + other@,
    {
        Duration { nanos: self.nanos + other.nanos }
    }

    /// The sum of two spans, or `None` when it is out of range.
    pub fn checked_add(self, other: Duration) -> (d: Option<Duration>)
        ensures
            d matches Some(s) ==> s@ == self@ + other@,
            d is None <==> self@ + other@ > MAX_NANOS,
    {
        proof {
            use_type_invariant(&self);
            use_type_invariant(&other);
        }
        let sum = self.nanos + other.nanos;
        if sum <= MAX_NANOS {
            Some(Duration { nanos: sum })
        } else {
            None
        }
    }
}

} // verus!
