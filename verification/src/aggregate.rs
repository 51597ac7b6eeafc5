//! Streaming mean/variance accumulator over an endpoint's entire history.
//!
//! The accumulator keeps the sample count and the exact sums of the samples
//! and of their squares in 128-bit integers, so the incremental update is
//! O(1) and the mean and the Bessel-corrected sample variance can be read
//! off exactly at any time, with no history replay and no drift. Folding a
//! running mean and a running sum of squared deltas would compute the same
//! two statistics; over integers the plain sums stay exact, so no
//! floating-point stabilization is needed. The bounds
//! [`crate::MAX_SAMPLE_MICROS`] and [`crate::MAX_SAMPLE_COUNT`] keep every
//! intermediate product below `2^128`.

use vstd::prelude::*;

verus! {

use crate::MAX_SAMPLE_COUNT;
use crate::MAX_SAMPLE_MICROS;
use crate::model::is_sqrt_floor;
use crate::model::lemma_sqrt_floor_unique;
use crate::model::lemma_sums_step;
use crate::model::mean_floor_of;
use crate::model::sqrt_floor;
use crate::model::variance_floor_of;
use vstd::arithmetic::div_mod::lemma_div_is_ordered;
use vstd::arithmetic::div_mod::lemma_div_multiples_vanish;

/// Incremental aggregate of every sample ever recorded.
pub struct StreamingAggregate {
    count: u64,
    sum: u128,
    sum_sq: u128,
}

impl StreamingAggregate {
    /// Number of samples ever recorded.
    pub closed spec fn count(&self) -> nat {
        self.count as nat
    }

    /// Exact sum of every sample ever recorded.
    pub closed spec fn sum(&self) -> int {
        self.sum as int
    }

    /// Exact sum of the square of every sample ever recorded.
    pub closed spec fn sum_sq(&self) -> int {
        self.sum_sq as int
    }

    /// The bounds every reachable accumulator satisfies.
    pub closed spec fn wf(&self) -> bool {
        &&& self.count <= MAX_SAMPLE_COUNT
        &&& self.sum <= self.count * MAX_SAMPLE_MICROS
        &&& self.sum_sq <= self.count * MAX_SAMPLE_MICROS * MAX_SAMPLE_MICROS
        &&& self.sum * self.sum <= self.count * self.sum_sq
    }

    /// An empty accumulator.
    pub fn new() -> (r: StreamingAggregate)
        ensures
            r.wf(),
            r.count() == 0,
            r.sum() == 0,
            r.sum_sq() == 0,
    {
        StreamingAggregate { count: 0, sum: 0, sum_sq: 0 }
    }

    /// Number of samples ever recorded, as a run-time value.
    pub fn total(&self) -> (n: u64)
        ensures
            n == self.count(),
    {
        self.count
    }

    /// Folds one sample into the running totals.
    pub fn record(&mut self, v: u64)
        requires
            old(self).wf(),
            v <= MAX_SAMPLE_MICROS,
            old(self).count() < MAX_SAMPLE_COUNT,
        ensures
            final(self).wf(),
            final(self).count() == old(self).count() + 1,
            final(self).sum() == old(self).sum() + v,
            final(self).sum_sq() == old(self).sum_sq() + v * v,
    {
        proof {
            lemma_sums_step(
                old(self).count as int,
                old(self).sum as int,
                old(self).sum_sq as int,
                v as int,
            );
            lemma_count_times_bounds(old(self).count as int + 1);
        }
        self.count = self.count + 1;
        self.sum = self.sum + v as u128;
        self.sum_sq = self.sum_sq + (v as u128) * (v as u128);
    }

    /// Full-history mean, rounded down; absent until a sample exists.
    pub fn mean_floor(&self) -> (r: Option<u64>)
        requires
            self.wf(),
        ensures
            self.count() == 0 ==> r is None,
            self.count() > 0 ==> r == Option::Some(
                mean_floor_of(self.count() as int, self.sum()) as u64,
            ),
    {
        if self.count == 0 {
            Option::None
        } else {
            let q = self.sum / (self.count as u128);
            proof {
                let n = self.count as int;
                let big = MAX_SAMPLE_MICROS as int;
                lemma_div_is_ordered(self.sum as int, n * big, n);
                lemma_div_multiples_vanish(big, n);
            }
            Option::Some(q as u64)
        }
    }

    /// Full-history sample standard deviation, rounded down; absent until
    /// two samples exist.
    pub fn stddev_floor(&self) -> (r: Option<u64>)
        requires
            self.wf(),
        ensures
            self.count() < 2 ==> r is None,
            self.count() >= 2 ==> r == Option::Some(
                sqrt_floor(variance_floor_of(self.count() as int, self.sum(), self.sum_sq())) as u64,
            ),
    {
        if self.count < 2 {
            return Option::None;
        }
        let n = self.count as u128;
        let ghost ni = self.count as int;
        let ghost big = MAX_SAMPLE_MICROS as int;
        proof {
            lemma_count_times_bounds(ni);
            assert(ni * self.sum_sq() <= ni * (ni * big * big)) by (nonlinear_arith)
                requires
                    0 <= ni,
                    self.sum_sq() <= ni * big * big,
            ;
            assert(self.sum() * self.sum() <= (ni * big) * (ni * big)) by (nonlinear_arith)
                requires
                    0 <= self.sum() <= ni * big,
            ;
            assert(self.sum() * self.sum() <= ni * self.sum_sq());
        }
        let num = n * self.sum_sq - self.sum * self.sum;
        let den = n * (n - 1);
        proof {
            assert(num as int <= den as int * (2 * big * big)) by (nonlinear_arith)
                requires
                    num == ni * self.sum_sq() - self.sum() * self.sum(),
                    den == ni * (ni - 1),
                    self.sum_sq() <= ni * big * big,
                    0 <= self.sum() * self.sum(),
                    2 <= ni,
                    0 <= big,
            ;
            lemma_div_is_ordered(num as int, den as int * (2 * big * big), den as int);
            lemma_div_multiples_vanish(2 * big * big, den as int);
        }
        let var = num / den;
        let r = isqrt(var as u64);
        proof {
            lemma_sqrt_floor_unique(var as int, r as int);
        }
        Option::Some(r)
    }
}

/// Bounds on the products of a bounded count with the sample bounds, needed
/// to show the 128-bit arithmetic cannot overflow.
proof fn lemma_count_times_bounds(n: int)
    requires
        0 <= n <= MAX_SAMPLE_COUNT,
    ensures
        n * MAX_SAMPLE_MICROS < 0x1_0000_0000_0000_0000_0000_0000_0000_0000,
        n * MAX_SAMPLE_MICROS * MAX_SAMPLE_MICROS < 0x1_0000_0000_0000_0000_0000_0000_0000_0000,
        n * (n * MAX_SAMPLE_MICROS * MAX_SAMPLE_MICROS)
            < 0x1_0000_0000_0000_0000_0000_0000_0000_0000,
        (n * MAX_SAMPLE_MICROS) * (n * MAX_SAMPLE_MICROS)
            < 0x1_0000_0000_0000_0000_0000_0000_0000_0000,
        0 <= n * (n - 1) < 0x1_0000_0000_0000_0000_0000_0000_0000_0000,
        2 <= n ==> 2 <= n * (n - 1),
{
    assert(2 <= n ==> 2 <= n * (n - 1)) by (nonlinear_arith);
    let big = MAX_SAMPLE_MICROS as int;
    let cap = MAX_SAMPLE_COUNT as int;
    assert(n * big <= cap * big) by (nonlinear_arith)
        requires
            0 <= n <= cap,
            0 <= big,
    ;
    assert(n * big * big <= cap * big * big) by (nonlinear_arith)
        requires
            0 <= n <= cap,
            0 <= big,
    ;
    assert(n * (n * big * big) <= cap * (cap * big * big)) by (nonlinear_arith)
        requires
            0 <= n <= cap,
            0 <= big,
    ;
    assert((n * big) * (n * big) <= (cap * big) * (cap * big)) by (nonlinear_arith)
        requires
            0 <= n <= cap,
            0 <= big,
    ;
    assert((cap * big) * (cap * big) < 0x1_0000_0000_0000_0000_0000_0000_0000_0000)
        by (nonlinear_arith)
        requires
            cap == 0x100_0000_0000,
            big == 0xFF_FFFF,
    ;
    assert(0 <= n * (n - 1) <= cap * cap) by (nonlinear_arith)
        requires
            0 <= n <= cap,
    ;
}

/// Integer square root, rounded down.
fn isqrt(x: u64) -> (r: u64)
    ensures
        is_sqrt_floor(x as int, r as int),
{
    let mut lo: u64 = 0;
    let mut hi: u64 = 0xFFFF_FFFF;
    while lo < hi
        invariant
            lo <= hi <= 0xFFFF_FFFF,
            lo as int * lo as int <= x as int,
            (x as int) < (hi as int + 1) * (hi as int + 1),
        decreases hi - lo,
    {
        let mid = lo + (hi - lo + 1) / 2;
        proof {
            assert(mid as int * mid as int <= 0xFFFF_FFFFu64 as int * 0xFFFF_FFFFu64 as int)
                by (nonlinear_arith)
                requires
                    0 <= mid <= 0xFFFF_FFFFu64,
            ;
        }
        if mid * mid <= x {
            lo = mid;
        } else {
            hi = mid - 1;
        }
    }
    lo
}

} // verus!
