//! Derived statistics for one endpoint, with lazy recomputation.
//!
//! An [`EndpointStats`] composes a [`SampleBuffer`] (windowed, feeding the
//! exact min/max/percentile reads) and a [`StreamingAggregate`] (unwindowed,
//! feeding mean and standard deviation over the whole history). Min/max and
//! the two percentiles are cached as `{value, valid}` pairs: a read
//! recomputes them only when a mutation could have changed them, and a
//! mutation never recomputes them speculatively. Every read is proved to
//! return exactly the statistic of the abstract model, whether it was served
//! from the cache or recomputed, so the caching is invisible to callers.

use vstd::prelude::*;

verus! {

use crate::CAPACITY_LIMIT;
use crate::MAX_SAMPLE_COUNT;
use crate::MAX_SAMPLE_MICROS;
use crate::aggregate::StreamingAggregate;
use crate::buffer::SampleBuffer;
use crate::model::StatsModel;
use crate::model::initial_model;
use crate::model::lemma_max_of_push;
use crate::model::lemma_min_of_push;
use crate::model::lemma_record_preserves_wf;
use crate::model::max_of;
use crate::model::min_of;
use crate::model::model_wf;
use crate::model::percentile_index;
use crate::model::percentile_of;
use crate::model::spec_max;
use crate::model::spec_mean;
use crate::model::spec_min;
use crate::model::spec_p95;
use crate::model::spec_p99;
use crate::model::spec_record;
use crate::model::spec_stddev;
use crate::sorting::sort_samples;

/// A memoized pair of derived values and the flag that says whether they
/// still describe the current window.
struct CachedPair {
    lo: u64,
    hi: u64,
    valid: bool,
}

/// Rolling statistics engine for one endpoint.
pub struct EndpointStats {
    buffer: SampleBuffer,
    aggregate: StreamingAggregate,
    last: Option<u64>,
    /// Cached (min, max) of the current window.
    extremes: CachedPair,
    /// Cached (p95, p99) of the current window.
    percentiles: CachedPair,
}

impl View for EndpointStats {
    type V = StatsModel;

    closed spec fn view(&self) -> StatsModel {
        StatsModel {
            window: self.buffer@,
            capacity: self.buffer.capacity(),
            count: self.aggregate.count(),
            sum: self.aggregate.sum(),
            sum_sq: self.aggregate.sum_sq(),
            last: self.last,
        }
    }
}

impl EndpointStats {
    /// Internal invariant: the parts agree with each other and every valid
    /// cache holds exactly the statistic of the current window.
    pub closed spec fn wf(&self) -> bool {
        &&& self.buffer.wf()
        &&& self.aggregate.wf()
        &&& model_wf(self@)
        &&& (self.extremes.valid ==> self.buffer@.len() > 0 && self.extremes.lo == min_of(
            self.buffer@,
        ) && self.extremes.hi == max_of(self.buffer@))
        &&& (self.percentiles.valid ==> self.buffer@.len() > 0 && self.percentiles.lo
            == percentile_of(self.buffer@, 95) && self.percentiles.hi == percentile_of(
            self.buffer@,
            99,
        ))
    }

    /// A well-formed engine always carries a well-formed model.
    pub proof fn lemma_wf_model(&self)
        requires
            self.wf(),
        ensures
            model_wf(self@),
    {
    }

    /// Creates an engine whose window retains `capacity` samples.
    pub fn new(capacity: usize) -> (r: EndpointStats)
        requires
            1 <= capacity <= CAPACITY_LIMIT,
        ensures
            r.wf(),
            r@ == initial_model(capacity as nat),
    {
        let r = EndpointStats {
            buffer: SampleBuffer::new(capacity),
            aggregate: StreamingAggregate::new(),
            last: Option::None,
            extremes: CachedPair { lo: 0, hi: 0, valid: false },
            percentiles: CachedPair { lo: 0, hi: 0, valid: false },
        };
        assert(r@ == initial_model(capacity as nat));
        r
    }

    /// Records the outcome of one probe cycle. A failed probe (`None`)
    /// changes nothing. A sample is pushed into the window (evicting the
    /// oldest at capacity) and folded into the full-history aggregate; the
    /// percentile cache is always invalidated, while the min/max cache
    /// survives in O(1) unless the evicted value sat on a cached boundary.
    pub fn record(&mut self, sample: Option<u64>)
        requires
            old(self).wf(),
            sample is Some ==> sample->0 <= MAX_SAMPLE_MICROS,
            sample is Some ==> old(self)@.count < MAX_SAMPLE_COUNT,
        ensures
            final(self).wf(),
            final(self)@ == spec_record(old(self)@, sample),
    {
        proof {
            lemma_record_preserves_wf(old(self)@, sample);
        }
        match sample {
            Option::None => {},
            Option::Some(v) => {
                let ghost w0 = self.buffer@;
                let evicted = self.buffer.push(v);
                self.aggregate.record(v);
                self.last = Option::Some(v);
                self.percentiles.valid = false;
                if self.extremes.valid {
                    let stale = match evicted {
                        Option::Some(e) => e == self.extremes.lo || e == self.extremes.hi,
                        Option::None => false,
                    };
                    if stale {
                        self.extremes.valid = false;
                    } else {
                        proof {
                            match evicted {
                                Option::None => {
                                    lemma_min_of_push(w0, v);
                                    lemma_max_of_push(w0, v);
                                },
                                Option::Some(e) => {
                                    if w0.len() == 1 {
                                        assert(min_of(w0) == w0[0]);
                                    }
                                    assert(w0.len() >= 2);
                                    assert(min_of(w0.drop_first()) == min_of(w0));
                                    assert(max_of(w0.drop_first()) == max_of(w0));
                                    lemma_min_of_push(w0.drop_first(), v);
                                    lemma_max_of_push(w0.drop_first(), v);
                                },
                            }
                        }
                        if v < self.extremes.lo {
                            self.extremes.lo = v;
                        }
                        if v > self.extremes.hi {
                            self.extremes.hi = v;
                        }
                    }
                }
            },
        }
    }

    /// The most recently recorded sample.
    pub fn last(&self) -> (r: Option<u64>)
        requires
            self.wf(),
        ensures
            r == self@.last,
    {
        self.last
    }

    /// Number of samples ever recorded.
    pub fn total_samples(&self) -> (n: u64)
        requires
            self.wf(),
        ensures
            n == self@.count,
    {
        self.aggregate.total()
    }

    /// The current window, oldest sample first.
    pub fn window_values(&self) -> (w: Vec<u64>)
        requires
            self.wf(),
        ensures
            w@ == self@.window,
    {
        self.buffer.snapshot_ordered()
    }

    /// Windowed minimum; recomputed by a scan only if the cache is stale.
    pub fn min(&mut self) -> (r: Option<u64>)
        requires
            old(self).wf(),
        ensures
            final(self).wf(),
            final(self)@ == old(self)@,
            r == spec_min(old(self)@),
    {
        if self.buffer.len() == 0 {
            return Option::None;
        }
        if !self.extremes.valid {
            self.refresh_extremes();
        }
        Option::Some(self.extremes.lo)
    }

    /// Windowed maximum; recomputed by a scan only if the cache is stale.
    pub fn max(&mut self) -> (r: Option<u64>)
        requires
            old(self).wf(),
        ensures
            final(self).wf(),
            final(self)@ == old(self)@,
            r == spec_max(old(self)@),
    {
        if self.buffer.len() == 0 {
            return Option::None;
        }
        if !self.extremes.valid {
            self.refresh_extremes();
        }
        Option::Some(self.extremes.hi)
    }

    /// Full-history mean in whole microseconds, rounded down; absent until a
    /// sample has been recorded. Unlike min/max it is never windowed.
    pub fn mean(&self) -> (r: Option<u64>)
        requires
            self.wf(),
        ensures
            r == spec_mean(self@),
    {
        self.aggregate.mean_floor()
    }

    /// Full-history sample standard deviation in whole microseconds, rounded
    /// down; absent until two samples have been recorded.
    pub fn stddev(&self) -> (r: Option<u64>)
        requires
            self.wf(),
        ensures
            r == spec_stddev(self@),
    {
        self.aggregate.stddev_floor()
    }

    /// Windowed 95th percentile; sorts a copy of the window only if the
    /// cache is stale.
    pub fn p95(&mut self) -> (r: Option<u64>)
        requires
            old(self).wf(),
        ensures
            final(self).wf(),
            final(self)@ == old(self)@,
            r == spec_p95(old(self)@),
    {
        if self.buffer.len() == 0 {
            return Option::None;
        }
        if !self.percentiles.valid {
            self.refresh_percentiles();
        }
        Option::Some(self.percentiles.lo)
    }

    /// Windowed 99th percentile; sorts a copy of the window only if the
    /// cache is stale.
    pub fn p99(&mut self) -> (r: Option<u64>)
        requires
            old(self).wf(),
        ensures
            final(self).wf(),
            final(self)@ == old(self)@,
            r == spec_p99(old(self)@),
    {
        if self.buffer.len() == 0 {
            return Option::None;
        }
        if !self.percentiles.valid {
            self.refresh_percentiles();
        }
        Option::Some(self.percentiles.hi)
    }

    /// Rescans the window and refills the min/max cache.
    fn refresh_extremes(&mut self)
        requires
            old(self).wf(),
            old(self)@.window.len() > 0,
        ensures
            final(self).wf(),
            final(self)@ == old(self)@,
            final(self).extremes.valid,
    {
        let w = self.buffer.snapshot_ordered();
        let mut mn = w[0];
        let mut mx = w[0];
        let mut i: usize = 1;
        while i < w.len()
            invariant
                1 <= i <= w@.len(),
                mn == min_of(w@.subrange(0, i as int)),
                mx == max_of(w@.subrange(0, i as int)),
            decreases w@.len() - i,
        {
            proof {
                let pre = w@.subrange(0, i as int);
                assert(w@.subrange(0, i + 1) =~= pre.push(w@[i as int]));
                lemma_min_of_push(pre, w@[i as int]);
                lemma_max_of_push(pre, w@[i as int]);
            }
            let x = w[i];
            if x < mn {
                mn = x;
            }
            if x > mx {
                mx = x;
            }
            i = i + 1;
        }
        assert(w@.subrange(0, w@.len() as int) =~= w@);
        self.extremes = CachedPair { lo: mn, hi: mx, valid: true };
    }

    /// Sorts a copy of the window and refills the percentile cache; both
    /// percentiles come from the one sort.
    fn refresh_percentiles(&mut self)
        requires
            old(self).wf(),
            old(self)@.window.len() > 0,
        ensures
            final(self).wf(),
            final(self)@ == old(self)@,
            final(self).percentiles.valid,
    {
        let mut w = self.buffer.snapshot_ordered();
        let n = w.len();
        sort_samples(&mut w);
        let i95 = rank_slot(n, 95);
        let i99 = rank_slot(n, 99);
        self.percentiles = CachedPair { lo: w[i95], hi: w[i99], valid: true };
    }
}

/// The 0-based slot of the `pct`-th percentile in a sorted window of `len`
/// samples.
fn rank_slot(len: usize, pct: usize) -> (i: usize)
    requires
        1 <= len <= CAPACITY_LIMIT,
        pct <= 100,
    ensures
        i == percentile_index(len as nat, pct as nat),
        i < len,
{
    proof {
        assert(len * pct <= CAPACITY_LIMIT * 100) by (nonlinear_arith)
            requires
                0 <= len <= CAPACITY_LIMIT,
                0 <= pct <= 100,
        ;
    }
    let rank = (len * pct + 99) / 100;
    if rank <= 1 {
        0
    } else if rank <= len {
        rank - 1
    } else {
        len - 1
    }
}

} // verus!
