//! The mathematical model of one endpoint's statistics.
//!
//! Every executable component is specified against [`StatsModel`]: the
//! chronological sample window, the bound it was configured with, and the
//! exact running totals over the endpoint's entire history. The derived
//! statistics are defined here as spec functions over the model, so each
//! executable statistic has a single point of truth to be proved against.

use vstd::prelude::*;

verus! {

use crate::CAPACITY_LIMIT;
use crate::MAX_SAMPLE_COUNT;
use crate::MAX_SAMPLE_MICROS;

/// Abstract state of one endpoint's statistics engine.
pub ghost struct StatsModel {
    /// The most recent samples, oldest first; at most `capacity` of them.
    pub window: Seq<u64>,
    /// Fixed window bound chosen at construction.
    pub capacity: nat,
    /// Number of samples ever recorded.
    pub count: nat,
    /// Exact sum of every sample ever recorded.
    pub sum: int,
    /// Exact sum of the square of every sample ever recorded.
    pub sum_sq: int,
    /// The most recently recorded sample, if any.
    pub last: Option<u64>,
}

/// The window after a sample lands: append, evicting the oldest at capacity.
pub open spec fn push_window(w: Seq<u64>, capacity: nat, v: u64) -> Seq<u64> {
    if w.len() < capacity {
        w.push(v)
    } else {
        w.drop_first().push(v)
    }
}

/// One `record` call, at the level of the model. An absent sample (a failed
/// probe) leaves the state untouched.
pub open spec fn spec_record(m: StatsModel, sample: Option<u64>) -> StatsModel {
    match sample {
        Option::None => m,
        Option::Some(v) => StatsModel {
            window: push_window(m.window, m.capacity, v),
            capacity: m.capacity,
            count: m.count + 1,
            sum: m.sum + v,
            sum_sq: m.sum_sq + v * v,
            last: Option::Some(v),
        },
    }
}

/// The model after an entire sequence of `record` calls.
pub open spec fn record_all(m: StatsModel, samples: Seq<Option<u64>>) -> StatsModel
    decreases samples.len(),
{
    if samples.len() == 0 {
        m
    } else {
        spec_record(record_all(m, samples.drop_last()), samples.last())
    }
}

/// The model of a freshly created engine.
pub open spec fn initial_model(capacity: nat) -> StatsModel {
    StatsModel {
        window: Seq::empty(),
        capacity,
        count: 0,
        sum: 0,
        sum_sq: 0,
        last: Option::None,
    }
}

/// Well-formedness: the invariant every reachable model satisfies.
pub open spec fn model_wf(m: StatsModel) -> bool {
    &&& 1 <= m.capacity <= CAPACITY_LIMIT
    &&& m.window.len() <= m.capacity
    &&& m.window.len() <= m.count
    &&& m.count <= MAX_SAMPLE_COUNT
    &&& (forall|i: int| 0 <= i < m.window.len() ==> #[trigger] m.window[i] <= MAX_SAMPLE_MICROS)
    &&& 0 <= m.sum <= m.count * MAX_SAMPLE_MICROS
    &&& 0 <= m.sum_sq <= m.count * MAX_SAMPLE_MICROS * MAX_SAMPLE_MICROS
    &&& m.sum * m.sum <= m.count * m.sum_sq
    &&& (m.count == 0 <==> m.last is None)
    &&& (m.count == 0 <==> m.window.len() == 0)
    &&& (m.last is Some ==> m.last->0 <= MAX_SAMPLE_MICROS)
}

/// Exact sum of a sequence of samples.
pub open spec fn sum_of(values: Seq<u64>) -> int
    decreases values.len(),
{
    if values.len() == 0 {
        0
    } else {
        sum_of(values.drop_last()) + values.last()
    }
}

/// Exact sum of the squares of a sequence of samples.
pub open spec fn sum_sq_of(values: Seq<u64>) -> int
    decreases values.len(),
{
    if values.len() == 0 {
        0
    } else {
        sum_sq_of(values.drop_last()) + values.last() * values.last()
    }
}

/// Smallest value of a non-empty sequence.
pub open spec fn min_of(w: Seq<u64>) -> u64
    recommends
        w.len() > 0,
    decreases w.len(),
{
    if w.len() <= 1 {
        w[0]
    } else {
        let rest = min_of(w.drop_first());
        if w[0] <= rest {
            w[0]
        } else {
            rest
        }
    }
}

/// Largest value of a non-empty sequence.
pub open spec fn max_of(w: Seq<u64>) -> u64
    recommends
        w.len() > 0,
    decreases w.len(),
{
    if w.len() <= 1 {
        w[0]
    } else {
        let rest = max_of(w.drop_first());
        if w[0] >= rest {
            w[0]
        } else {
            rest
        }
    }
}

/// `min_of` is a member of the sequence and a lower bound for it.
pub proof fn lemma_min_of(w: Seq<u64>)
    requires
        w.len() > 0,
    ensures
        w.contains(min_of(w)),
        forall|i: int| 0 <= i < w.len() ==> min_of(w) <= #[trigger] w[i],
    decreases w.len(),
{
    if w.len() > 1 {
        lemma_min_of(w.drop_first());
        assert forall|i: int| 0 <= i < w.len() implies min_of(w) <= #[trigger] w[i] by {
            if i > 0 {
                assert(w[i] == w.drop_first()[i - 1]);
            }
        }
        if w[0] > min_of(w.drop_first()) {
            let j = choose|j: int|
                0 <= j < w.drop_first().len() && w.drop_first()[j] == min_of(w.drop_first());
            assert(w[j + 1] == min_of(w));
        }
    }
}

/// `max_of` is a member of the sequence and an upper bound for it.
pub proof fn lemma_max_of(w: Seq<u64>)
    requires
        w.len() > 0,
    ensures
        w.contains(max_of(w)),
        forall|i: int| 0 <= i < w.len() ==> #[trigger] w[i] <= max_of(w),
    decreases w.len(),
{
    if w.len() > 1 {
        lemma_max_of(w.drop_first());
        assert forall|i: int| 0 <= i < w.len() implies #[trigger] w[i] <= max_of(w) by {
            if i > 0 {
                assert(w[i] == w.drop_first()[i - 1]);
            }
        }
        if w[0] < max_of(w.drop_first()) {
            let j = choose|j: int|
                0 <= j < w.drop_first().len() && w.drop_first()[j] == max_of(w.drop_first());
            assert(w[j + 1] == max_of(w));
        }
    }
}

/// Appending a sample moves the minimum down to it or leaves it alone.
pub proof fn lemma_min_of_push(w: Seq<u64>, v: u64)
    requires
        w.len() > 0,
    ensures
        min_of(w.push(v)) == (if v < min_of(w) {
            v
        } else {
            min_of(w)
        }),
    decreases w.len(),
{
    let wp = w.push(v);
    assert(wp.drop_first() =~= w.drop_first().push(v));
    assert(wp[0] == w[0]);
    if w.len() == 1 {
        assert(wp.drop_first() =~= seq![v]);
        assert(min_of(wp.drop_first()) == v);
    } else {
        lemma_min_of_push(w.drop_first(), v);
        assert(min_of(wp) == (if wp[0] <= min_of(wp.drop_first()) {
            wp[0]
        } else {
            min_of(wp.drop_first())
        }));
    }
}

/// Appending a sample moves the maximum up to it or leaves it alone.
pub proof fn lemma_max_of_push(w: Seq<u64>, v: u64)
    requires
        w.len() > 0,
    ensures
        max_of(w.push(v)) == (if v > max_of(w) {
            v
        } else {
            max_of(w)
        }),
    decreases w.len(),
{
    let wp = w.push(v);
    assert(wp.drop_first() =~= w.drop_first().push(v));
    assert(wp[0] == w[0]);
    if w.len() == 1 {
        assert(wp.drop_first() =~= seq![v]);
        assert(max_of(wp.drop_first()) == v);
    } else {
        lemma_max_of_push(w.drop_first(), v);
        assert(max_of(wp) == (if wp[0] >= max_of(wp.drop_first()) {
            wp[0]
        } else {
            max_of(wp.drop_first())
        }));
    }
}

/// The ordering the percentile machinery sorts by.
pub open spec fn sample_le() -> spec_fn(u64, u64) -> bool {
    |x: u64, y: u64| x <= y
}

/// The window in ascending order.
pub open spec fn sorted_window(w: Seq<u64>) -> Seq<u64> {
    w.sort_by(sample_le())
}

/// 0-based slot of the `pct`-th percentile in a sorted window of length
/// `len`: the 1-based rank is `ceil(len * pct / 100)`, clamped into the
/// window.
pub open spec fn percentile_index(len: nat, pct: nat) -> int {
    let rank = (len * pct + 99) / 100;
    if rank <= 1 {
        0
    } else if rank <= len {
        rank - 1
    } else {
        len - 1
    }
}

/// The `pct`-th percentile of a non-empty window.
pub open spec fn percentile_of(w: Seq<u64>, pct: nat) -> u64
    recommends
        w.len() > 0,
{
    sorted_window(w)[percentile_index(w.len(), pct)]
}

/// Windowed minimum, absent while no sample is in the window.
pub open spec fn spec_min(m: StatsModel) -> Option<u64> {
    if m.window.len() == 0 {
        Option::None
    } else {
        Option::Some(min_of(m.window))
    }
}

/// Windowed maximum, absent while no sample is in the window.
pub open spec fn spec_max(m: StatsModel) -> Option<u64> {
    if m.window.len() == 0 {
        Option::None
    } else {
        Option::Some(max_of(m.window))
    }
}

/// Mean of a history with the given count and sum, rounded down.
pub open spec fn mean_floor_of(count: int, sum: int) -> int {
    sum / count
}

/// Bessel-corrected sample variance of a history with the given count and
/// sums, rounded down; meaningful only for `count >= 2`.
pub open spec fn variance_floor_of(count: int, sum: int, sum_sq: int) -> int {
    (count * sum_sq - sum * sum) / (count * (count - 1))
}

/// Full-history mean, rounded down to whole microseconds.
pub open spec fn spec_mean(m: StatsModel) -> Option<u64> {
    if m.count == 0 {
        Option::None
    } else {
        Option::Some(mean_floor_of(m.count as int, m.sum) as u64)
    }
}

/// Bessel-corrected sample variance over the full history, rounded down;
/// meaningful only for `count >= 2`.
pub open spec fn spec_variance_floor(m: StatsModel) -> int {
    variance_floor_of(m.count as int, m.sum, m.sum_sq)
}

/// `r` is the integer square root of `n` rounded down.
pub open spec fn is_sqrt_floor(n: int, r: int) -> bool {
    0 <= r && r * r <= n < (r + 1) * (r + 1)
}

/// The integer square root of `n` rounded down.
pub open spec fn sqrt_floor(n: int) -> int {
    choose|r: int| is_sqrt_floor(n, r)
}

/// Full-history sample standard deviation, rounded down to whole
/// microseconds; absent until two samples exist.
pub open spec fn spec_stddev(m: StatsModel) -> Option<u64> {
    if m.count < 2 {
        Option::None
    } else {
        Option::Some(sqrt_floor(spec_variance_floor(m)) as u64)
    }
}

/// Windowed 95th percentile.
pub open spec fn spec_p95(m: StatsModel) -> Option<u64> {
    if m.window.len() == 0 {
        Option::None
    } else {
        Option::Some(percentile_of(m.window, 95))
    }
}

/// Windowed 99th percentile.
pub open spec fn spec_p99(m: StatsModel) -> Option<u64> {
    if m.window.len() == 0 {
        Option::None
    } else {
        Option::Some(percentile_of(m.window, 99))
    }
}

/// There is exactly one integer square root floor, so any witness of
/// [`is_sqrt_floor`] equals [`sqrt_floor`].
pub proof fn lemma_sqrt_floor_unique(n: int, r: int)
    requires
        is_sqrt_floor(n, r),
    ensures
        r == sqrt_floor(n),
{
    let c = sqrt_floor(n);
    assert(is_sqrt_floor(n, c));
    if c < r {
        assert((c + 1) * (c + 1) <= r * r) by (nonlinear_arith)
            requires
                0 <= c,
                c + 1 <= r,
        ;
    }
    if r < c {
        assert((r + 1) * (r + 1) <= c * c) by (nonlinear_arith)
            requires
                0 <= r,
                r + 1 <= c,
        ;
    }
}

/// One further sample extends the running totals without breaking their
/// bounds or the Cauchy-Schwarz relation between them.
pub proof fn lemma_sums_step(n: int, s: int, q: int, v: int)
    requires
        0 <= n,
        0 <= v <= MAX_SAMPLE_MICROS,
        0 <= s <= n * MAX_SAMPLE_MICROS,
        0 <= q <= n * MAX_SAMPLE_MICROS * MAX_SAMPLE_MICROS,
        s * s <= n * q,
    ensures
        0 <= s + v <= (n + 1) * MAX_SAMPLE_MICROS,
        0 <= q + v * v <= (n + 1) * MAX_SAMPLE_MICROS * MAX_SAMPLE_MICROS,
        (s + v) * (s + v) <= (n + 1) * (q + v * v),
{
    let big = MAX_SAMPLE_MICROS as int;
    assert(s + v <= (n + 1) * big) by (nonlinear_arith)
        requires
            s <= n * big,
            v <= big,
    ;
    assert(q + v * v <= (n + 1) * big * big) by (nonlinear_arith)
        requires
            q <= n * big * big,
            0 <= v <= big,
    ;
    assert((s + v) * (s + v) <= (n + 1) * (q + v * v)) by (nonlinear_arith)
        requires
            s * s <= n * q,
            0 <= n,
            0 <= v,
            0 <= s,
            0 <= q,
    ;
}

/// Recording keeps the model well-formed.
pub proof fn lemma_record_preserves_wf(m: StatsModel, sample: Option<u64>)
    requires
        model_wf(m),
        sample is Some ==> sample->0 <= MAX_SAMPLE_MICROS,
        sample is Some ==> m.count < MAX_SAMPLE_COUNT,
    ensures
        model_wf(spec_record(m, sample)),
{
    match sample {
        Option::None => {},
        Option::Some(v) => {
            let m2 = spec_record(m, sample);
            assert(m2.window.len() <= m.window.len() + 1);
            lemma_sums_step(m.count as int, m.sum, m.sum_sq, v as int);
        },
    }
}

} // verus!
