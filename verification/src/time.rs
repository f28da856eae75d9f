//! Lengths of time with nanosecond resolution.
use vstd::prelude::*;

verus! {

/// The longest length of time: the nanoseconds of `u64::MAX` seconds and one nanosecond less
/// than a second.
pub const MAX_NANOS: u128 = 18_446_744_073_709_551_615_999_999_999;

/// A length of time. Arithmetic saturates at zero and at [`MAX_NANOS`].
#[derive(Clone, Copy, Debug, Eq, Ord, PartialEq, PartialOrd, Structural)]
pub struct Duration {
    pub nanos: u128,
}

impl Duration {
    pub fn zero() -> (result: Duration)
        ensures
            result.nanos == 0,
    {
        Duration { nanos: 0 }
    }

    pub fn from_secs(secs: u64) -> (result: Duration)
        ensures
            result.nanos == secs * 1_000_000_000,
    {
        Duration { nanos: secs as u128 * 1_000_000_000 }
    }

    pub fn from_millis(millis: u64) -> (result: Duration)
        ensures
            result.nanos == millis * 1_000_000,
    {
        Duration { nanos: millis as u128 * 1_000_000 }
    }

    pub fn from_nanos(nanos: u64) -> (result: Duration)
        ensures
            result.nanos == nanos,
    {
        Duration { nanos: nanos as u128 }
    }

    pub fn as_millis(&self) -> (millis: u128)
        ensures
            millis == self.nanos / 1_000_000,
    {
        self.nanos / 1_000_000
    }

    /// The sum, or the longest length of time where the sum would be longer.
    pub open spec fn plus(self, other: Duration) -> Duration {
        Duration {
            nanos: if self.nanos + other.nanos > MAX_NANOS {
                MAX_NANOS
            } else {
                (self.nanos + other.nanos) as u128
            },
        }
    }

    /// The difference, or zero where it would be negative.
    pub open spec fn minus(self, other: Duration) -> Duration {
        Duration {
            nanos: if self.nanos < other.nanos {
                0
            } else {
                (self.nanos - other.nanos) as u128
            },
        }
    }

    pub fn saturating_add(self, other: Duration) -> (result: Duration)
        ensures
            result == self.plus(other),
    {
        if self.nanos > MAX_NANOS || other.nanos > MAX_NANOS - self.nanos {
            Duration { nanos: MAX_NANOS }
        } else {
            Duration { nanos: self.nanos + other.nanos }
        }
    }

    pub fn saturating_sub(self, other: Duration) -> (result: Duration)
        ensures
            result == self.minus(other),
    {
        if self.nanos < other.nanos {
            Duration { nanos: 0 }
        } else {
            Duration { nanos: self.nanos - other.nanos }
        }
    }
}

impl Default for Duration {
    fn default() -> (result: Duration)
        ensures
            result.nanos == 0,
    {
        Duration { nanos: 0 }
    }
}

/// The monotonic clock's reading of the standard library.
#[verifier::external_type_specification]
#[verifier::external_body]
pub struct ExInstant(std::time::Instant);

/// Calls `std::time::Instant::now`. Nothing is claimed of the reading.
#[verifier::external_body]
pub(crate) fn clock_now() -> (reading: std::time::Instant) {
    std::time::Instant::now()
}

/// Calls `std::time::Instant::elapsed`. Nothing is claimed of the length of time that has passed
/// since the reading.
#[verifier::external_body]
pub(crate) fn elapsed_since(reading: &std::time::Instant) -> (elapsed: Duration) {
    Duration { nanos: reading.elapsed().as_nanos() }
}

/// Times add up, and a time that is taken away again leaves what there was; where a sum cannot be
/// told the largest time stands for it, and where a difference would be negative, zero.
pub proof fn law_times_add_up(first: Duration, second: Duration)
    ensures
        first.nanos + second.nanos <= 18_446_744_073_709_551_615_999_999_999 ==> first.plus(
            second,
        ).nanos == first.nanos + second.nanos && first.plus(second).minus(second) == first,
        first.nanos + second.nanos > 18_446_744_073_709_551_615_999_999_999 ==> first.plus(
            second,
        ).nanos == 18_446_744_073_709_551_615_999_999_999,
        first.nanos >= second.nanos ==> first.minus(second).nanos == first.nanos - second.nanos,
        first.nanos <= second.nanos ==> first.minus(second).nanos == 0,
{
}

} // verus!
