//! The duration value: an exact, non-negative span of time.
//!
//! A [`Duration`] counts whole seconds in 64 bits plus a sub-second
//! nanosecond part, so its mathematical value — the view — is the total
//! number of nanoseconds, between zero and [`MAX_DURATION_NANOS`].

use vstd::arithmetic::div_mod::{
    lemma_fundamental_div_mod, lemma_mod_division_less_than_divisor,
};
use vstd::arithmetic::mul::lemma_mul_inequality;
use vstd::prelude::*;

verus! {

/// Nanoseconds in one second.
pub const NANOS_PER_SEC: u32 = 1_000_000_000;

/// The largest total a [`Duration`] can hold: `u64::MAX` whole seconds
/// plus the largest sub-second nanosecond part.
pub const MAX_DURATION_NANOS: u128 = u64::MAX as u128 * 1_000_000_000 + 999_999_999;

/// An exact, non-negative span of time with nanosecond resolution.
#[derive(Copy, Clone, Debug, PartialEq, Eq, PartialOrd, Ord, Hash)]
pub struct Duration {
    secs: u64,
    nanos: u32,
}

impl View for Duration {
    type V = int;

    /// The total number of nanoseconds the value stands for.
    closed spec fn view(&self) -> int {
        self.secs as int * 1_000_000_000 + self.nanos as int
    }
}

impl Duration {
    /// The nanosecond part never reaches a whole second.
    pub closed spec fn wf(&self) -> bool {
        self.nanos < 1_000_000_000
    }

    /// A well-formed duration's total lies between zero and the largest
    /// representable total.
    pub proof fn lemma_view_bounds(&self)
        ensures
            0 <= self@,
            self.wf() ==> self@ <= MAX_DURATION_NANOS,
    {
    }

    /// The zero-length duration.
    pub fn zero() -> (r: Duration)
        ensures
            r.wf(),
            r@ == 0,
    {
        Duration { secs: 0, nanos: 0 }
    }

    /// The duration of a whole number of seconds.
    pub fn from_secs(secs: u64) -> (r: Duration)
        ensures
            r.wf(),
            r@ == secs * 1_000_000_000,
    {
        Duration { secs, nanos: 0 }
    }

    /// The duration of a whole number of milliseconds.
    pub fn from_millis(millis: u64) -> (r: Duration)
        ensures
            r.wf(),
            r@ == millis * 1_000_000,
    {
        let r = Duration { secs: millis / 1_000, nanos: (millis % 1_000) as u32 * 1_000_000 };
        proof {
            lemma_fundamental_div_mod(millis as int, 1_000);
            lemma_mod_division_less_than_divisor(millis as int, 1_000);
        }
        r
    }

    /// The duration of a whole number of microseconds.
    pub fn from_micros(micros: u64) -> (r: Duration)
        ensures
            r.wf(),
            r@ == micros * 1_000,
    {
        let r = Duration {
            secs: micros / 1_000_000,
            nanos: (micros % 1_000_000) as u32 * 1_000,
        };
        proof {
            lemma_fundamental_div_mod(micros as int, 1_000_000);
            lemma_mod_division_less_than_divisor(micros as int, 1_000_000);
        }
        r
    }

    /// The duration of a whole number of nanoseconds.
    pub fn from_nanos(nanos: u64) -> (r: Duration)
        ensures
            r.wf(),
            r@ == nanos,
    {
        let r = Duration {
            secs: nanos / 1_000_000_000,
            nanos: (nanos % 1_000_000_000) as u32,
        };
        proof {
            lemma_fundamental_div_mod(nanos as int, 1_000_000_000);
            lemma_mod_division_less_than_divisor(nanos as int, 1_000_000_000);
        }
        r
    }

    /// A duration from a total number of nanoseconds.
    pub fn from_total_nanos(total: u128) -> (r: Duration)
        requires
            total <= MAX_DURATION_NANOS,
        ensures
            r.wf(),
            r@ == total,
    {
        proof {
            lemma_fundamental_div_mod(total as int, 1_000_000_000);
            lemma_mod_division_less_than_divisor(total as int, 1_000_000_000);
            if total as int / 1_000_000_000 > u64::MAX {
                lemma_mul_inequality(
                    u64::MAX as int + 1,
                    total as int / 1_000_000_000,
                    1_000_000_000,
                );
            }
        }
        Duration {
            secs: (total / 1_000_000_000) as u64,
            nanos: (total % 1_000_000_000) as u32,
        }
    }

    /// The total number of nanoseconds.
    pub fn as_nanos(&self) -> (r: u128)
        requires
            self.wf(),
        ensures
            r == self@,
    {
        self.secs as u128 * 1_000_000_000 + self.nanos as u128
    }

    /// The whole seconds of the duration, the sub-second part discarded.
    pub fn as_secs(&self) -> (r: u64)
        requires
            self.wf(),
        ensures
            r == self@ / 1_000_000_000,
    {
        proof {
            lemma_fundamental_div_mod(self@, 1_000_000_000);
            vstd::arithmetic::div_mod::lemma_div_multiples_vanish_fancy(
                self.secs as int,
                self.nanos as int,
                1_000_000_000,
            );
        }
        self.secs
    }

    /// The sub-second part of the duration, in nanoseconds.
    pub fn subsec_nanos(&self) -> (r: u32)
        requires
            self.wf(),
        ensures
            r == self@ % 1_000_000_000,
    {
        proof {
            vstd::arithmetic::div_mod::lemma_mod_multiples_vanish(
                self.secs as int,
                self.nanos as int,
                1_000_000_000,
            );
            lemma_mod_division_less_than_divisor(self.nanos as int, 1_000_000_000);
            vstd::arithmetic::div_mod::lemma_small_mod(self.nanos as nat, 1_000_000_000);
        }
        self.nanos
    }

    /// The sum of two durations, or `None` if the total would not fit.
    pub fn checked_add(&self, rhs: &Duration) -> (r: Option<Duration>)
        requires
            self.wf(),
            rhs.wf(),
        ensures
            self@ + rhs@ <= MAX_DURATION_NANOS ==> (r matches Some(s) && s.wf() && s@ == self@
                + rhs@),
            self@ + rhs@ > MAX_DURATION_NANOS ==> r is None,
    {
        let total = self.as_nanos() + rhs.as_nanos();
        if total <= MAX_DURATION_NANOS {
            Some(Duration::from_total_nanos(total))
        } else {
            None
        }
    }

    /// The duration scaled by an integer, or `None` if the total would
    /// not fit.
    pub fn checked_mul(&self, rhs: u32) -> (r: Option<Duration>)
        requires
            self.wf(),
        ensures
            self@ * rhs <= MAX_DURATION_NANOS ==> (r matches Some(s) && s.wf() && s@ == self@
                * rhs),
            self@ * rhs > MAX_DURATION_NANOS ==> r is None,
    {
        proof {
            self.lemma_view_bounds();
            vstd::arithmetic::mul::lemma_mul_upper_bound(
                self@,
                MAX_DURATION_NANOS as int,
                rhs as int,
                u32::MAX as int,
            );
        }
        let total = self.as_nanos() * rhs as u128;
        if total <= MAX_DURATION_NANOS {
            Some(Duration::from_total_nanos(total))
        } else {
            None
        }
    }

    /// The sum of two durations; the total must fit.
    pub fn add(self, rhs: Duration) -> (r: Duration)
        requires
            self.wf(),
            rhs.wf(),
            self@ + rhs@ <= MAX_DURATION_NANOS,
        ensures
            r.wf(),
            r@ == self@ + rhs@,
    {
        Duration::from_total_nanos(self.as_nanos() + rhs.as_nanos())
    }

    /// The difference of two durations; the subtrahend must not exceed
    /// the minuend.
    pub fn sub(self, rhs: Duration) -> (r: Duration)
        requires
            self.wf(),
            rhs.wf(),
            rhs@ <= self@,
        ensures
            r.wf(),
            r@ == self@ - rhs@,
    {
        proof {
            self.lemma_view_bounds();
        }
        Duration::from_total_nanos(self.as_nanos() - rhs.as_nanos())
    }

    /// The duration scaled by an integer; the total must fit.
    pub fn mul(self, rhs: u32) -> (r: Duration)
        requires
            self.wf(),
            self@ * rhs <= MAX_DURATION_NANOS,
        ensures
            r.wf(),
            r@ == self@ * rhs,
    {
        proof {
            self.lemma_view_bounds();
            vstd::arithmetic::mul::lemma_mul_upper_bound(
                self@,
                MAX_DURATION_NANOS as int,
                rhs as int,
                u32::MAX as int,
            );
        }
        Duration::from_total_nanos(self.as_nanos() * rhs as u128)
    }

    /// The duration divided by a non-zero integer, rounded toward zero.
    pub fn div(self, rhs: u32) -> (r: Duration)
        requires
            self.wf(),
            rhs != 0,
        ensures
            r.wf(),
            r@ == self@ / rhs as int,
    {
        proof {
            self.lemma_view_bounds();
            vstd::arithmetic::div_mod::lemma_div_is_ordered_by_denominator(self@, 1, rhs as int);
            vstd::arithmetic::div_mod::lemma_div_by_self(1);
        }
        Duration::from_total_nanos(self.as_nanos() / rhs as u128)
    }
}

impl Default for Duration {
    /// The zero-length duration.
    fn default() -> (r: Duration)
        ensures
            r.wf(),
            r@ == 0,
    {
        Duration::zero()
    }
}

} // verus!
