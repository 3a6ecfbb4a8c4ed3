//! Spans and points of time in whole nanoseconds.

use vstd::prelude::*;

verus! {

/// The longest span: `u64::MAX` seconds and 999 999 999 nanoseconds.
pub const MAX_DURATION_NANOS: u128 = 18_446_744_073_709_551_615_999_999_999;

/// A span of time.
#[derive(Clone, Copy, Debug, PartialEq, Eq, Structural)]
pub struct Duration {
    nanos: u128,
}

/// A point in time, as the time passed since a fixed but arbitrary moment.
#[derive(Clone, Copy, Debug, PartialEq, Eq, Structural)]
pub struct Instant {
    nanos: u128,
}

impl View for Duration {
    type V = nat;

    closed spec fn view(&self) -> nat {
        self.nanos as nat
    }
}

impl View for Instant {
    type V = nat;

    closed spec fn view(&self) -> nat {
        self.nanos as nat
    }
}

/// The difference, or zero where it would be negative.
pub open spec fn saturating_difference(left: nat, right: nat) -> nat {
    if left > right {
        (left - right) as nat
    } else {
        0
    }
}

/// How far apart two numbers are.
pub open spec fn distance(left: nat, right: nat) -> nat {
    if left > right {
        (left - right) as nat
    } else {
        (right - left) as nat
    }
}

/// The smaller of two numbers.
pub open spec fn at_most(value: nat, limit: nat) -> nat {
    if value > limit {
        limit
    } else {
        value
    }
}

impl Duration {
    #[verifier::type_invariant]
    spec fn within_range(self) -> bool {
        self.nanos <= MAX_DURATION_NANOS
    }

    /// No time at all.
    pub fn zero() -> (duration: Self)
        ensures
            duration@ == 0,
    {
        Duration { nanos: 0 }
    }

    /// A number of nanoseconds; the longest span where there are too many.
    pub fn from_nanos(nanos: u128) -> (duration: Self)
        ensures
            duration@ == at_most(nanos as nat, MAX_DURATION_NANOS as nat),
    {
        if nanos > MAX_DURATION_NANOS {
            Duration { nanos: MAX_DURATION_NANOS }
        } else {
            Duration { nanos }
        }
    }

    /// A number of microseconds.
    pub fn from_micros(micros: u64) -> (duration: Self)
        ensures
            duration@ == micros * 1000,
    {
        Duration { nanos: micros as u128 * 1000 }
    }

    /// A number of milliseconds.
    pub fn from_millis(millis: u64) -> (duration: Self)
        ensures
            duration@ == millis * 1_000_000,
    {
        Duration { nanos: millis as u128 * 1_000_000 }
    }

    /// The span in nanoseconds.
    pub fn as_nanos(&self) -> (nanos: u128)
        ensures
            nanos == self@,
            nanos <= MAX_DURATION_NANOS,
    {
        proof {
            use_type_invariant(&*self);
        }
        self.nanos
    }

    /// Whether no time passes.
    pub fn is_zero(&self) -> (zero: bool)
        ensures
            zero == (self@ == 0),
    {
        self.nanos == 0
    }

    /// The span times a factor, or the longest span where that is longer.
    pub fn saturating_mul(self, factor: u32) -> (product: Self)
        ensures
            product@ == at_most(self@ * (factor as nat), MAX_DURATION_NANOS as nat),
    {
        proof {
            use_type_invariant(&self);
            let (nanos, factor) = (self.nanos as int, factor as int);
            assert(0 <= nanos * factor <= 0x4000_0000_0000_0000_0000_0000 * 0x1_0000_0000)
                by (nonlinear_arith)
                requires
                    0 <= nanos <= 0x4000_0000_0000_0000_0000_0000,
                    0 <= factor <= 0x1_0000_0000,
            ;
        }
        Duration::from_nanos(self.nanos * factor as u128)
    }

    /// The sum, or the longest span where that is longer.
    pub fn saturating_add(self, other: Duration) -> (sum: Self)
        ensures
            sum@ == at_most(self@ + other@, MAX_DURATION_NANOS as nat),
    {
        proof {
            use_type_invariant(&self);
            use_type_invariant(&other);
        }
        Duration::from_nanos(self.nanos + other.nanos)
    }

    /// The difference, or no time where the other span is longer.
    pub fn saturating_sub(self, other: Duration) -> (difference: Self)
        ensures
            difference@ == saturating_difference(self@, other@),
    {
        proof {
            use_type_invariant(&self);
        }
        if self.nanos > other.nanos {
            Duration { nanos: self.nanos - other.nanos }
        } else {
            Duration { nanos: 0 }
        }
    }

    /// How far apart two spans are.
    pub fn abs_diff(self, other: Duration) -> (difference: Self)
        ensures
            difference@ == distance(self@, other@),
    {
        proof {
            use_type_invariant(&self);
            use_type_invariant(&other);
        }
        if self.nanos > other.nanos {
            Duration { nanos: self.nanos - other.nanos }
        } else {
            Duration { nanos: other.nanos - self.nanos }
        }
    }

    /// The span cut into equal parts, rounded down to whole nanoseconds.
    pub fn divided_by(self, parts: u32) -> (part: Self)
        requires
            parts > 0,
        ensures
            part@ == self@ / (parts as nat),
    {
        proof {
            use_type_invariant(&self);
            let (nanos, parts) = (self.nanos as int, parts as int);
            assert(nanos / parts <= nanos) by (nonlinear_arith)
                requires
                    nanos >= 0,
                    parts > 0,
            ;
        }
        Duration { nanos: self.nanos / parts as u128 }
    }

    /// Whether this span is shorter than another.
    pub fn is_shorter_than(&self, other: &Duration) -> (shorter: bool)
        ensures
            shorter == (self@ < other@),
    {
        self.nanos < other.nanos
    }
}

impl Instant {
    /// The point that lies a number of nanoseconds after the fixed moment.
    pub fn from_nanos(nanos: u128) -> (instant: Self)
        ensures
            instant@ == nanos,
    {
        Instant { nanos }
    }

    /// The time passed since the fixed moment, in nanoseconds.
    pub fn as_nanos(&self) -> (nanos: u128)
        ensures
            nanos == self@,
    {
        self.nanos
    }

    /// The time from an earlier point to this one; none where it is not earlier.
    pub fn saturating_duration_since(&self, earlier: Instant) -> (duration: Duration)
        ensures
            duration@ == at_most(
                saturating_difference(self@, earlier@),
                MAX_DURATION_NANOS as nat,
            ),
    {
        if self.nanos > earlier.nanos {
            Duration::from_nanos(self.nanos - earlier.nanos)
        } else {
            Duration::zero()
        }
    }

    /// The point that lies a span later, if there is one.
    pub fn checked_add(&self, duration: Duration) -> (later: Option<Instant>)
        ensures
            match later {
                Some(later) => later@ == self@ + duration@,
                None => self@ + duration@ > u128::MAX,
            },
    {
        match self.nanos.checked_add(duration.nanos) {
            Some(nanos) => Some(Instant { nanos }),
            None => None,
        }
    }

    /// The point that lies a span later.
    pub fn after(&self, duration: Duration) -> (later: Instant)
        requires
            self@ + duration@ <= u128::MAX,
        ensures
            later@ == self@ + duration@,
    {
        Instant { nanos: self.nanos + duration.nanos }
    }

    /// The point that lies a span earlier, if there is one.
    pub fn checked_sub(&self, duration: Duration) -> (earlier: Option<Instant>)
        ensures
            match earlier {
                Some(earlier) => earlier@ == self@ - duration@,
                None => self@ < duration@,
            },
    {
        match self.nanos.checked_sub(duration.nanos) {
            Some(nanos) => Some(Instant { nanos }),
            None => None,
        }
    }

    /// Whether this point lies after another.
    pub fn is_after(&self, other: &Instant) -> (after: bool)
        ensures
            after == (self@ > other@),
    {
        self.nanos > other.nanos
    }
}

} // verus!
