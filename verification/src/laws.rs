//! The library's laws: what holds of every sequence of `record` calls.
//!
//! Each proof function here states one guarantee of the statistics engine
//! over arbitrary histories, at the level of the abstract model that every
//! executable read is proved against: what only-failed probes leave behind,
//! which samples the window retains, and which samples the full-history
//! aggregates cover.

use vstd::prelude::*;

verus! {

use crate::model::initial_model;
use crate::model::lemma_max_of;
use crate::model::lemma_min_of;
use crate::model::max_of;
use crate::model::mean_floor_of;
use crate::model::min_of;
use crate::model::record_all;
use crate::model::spec_max;
use crate::model::spec_mean;
use crate::model::spec_min;
use crate::model::spec_p95;
use crate::model::spec_p99;
use crate::model::spec_record;
use crate::model::spec_stddev;
use crate::model::sqrt_floor;
use crate::model::sum_of;
use crate::model::sum_sq_of;
use crate::model::variance_floor_of;

/// The same samples, each wrapped as a successful probe outcome.
pub open spec fn as_outcomes(values: Seq<u64>) -> Seq<Option<u64>> {
    values.map_values(|v: u64| Option::Some(v))
}

/// After nothing but failed probes, every derived statistic is still
/// unavailable: recording `None` any number of times leaves the engine in
/// its initial state.
pub proof fn lemma_only_failures_no_statistics(capacity: nat, samples: Seq<Option<u64>>)
    requires
        forall|i: int| 0 <= i < samples.len() ==> samples[i] is None,
    ensures
        record_all(initial_model(capacity), samples) == initial_model(capacity),
        spec_min(record_all(initial_model(capacity), samples)) is None,
        spec_max(record_all(initial_model(capacity), samples)) is None,
        spec_mean(record_all(initial_model(capacity), samples)) is None,
        spec_stddev(record_all(initial_model(capacity), samples)) is None,
        spec_p95(record_all(initial_model(capacity), samples)) is None,
        spec_p99(record_all(initial_model(capacity), samples)) is None,
        record_all(initial_model(capacity), samples).last is None,
    decreases samples.len(),
{
    if samples.len() > 0 {
        assert(forall|i: int|
            0 <= i < samples.drop_last().len() ==> samples.drop_last()[i] is None);
        lemma_only_failures_no_statistics(capacity, samples.drop_last());
    }
}

/// The window holds exactly the most recent `capacity` samples: all of
/// them while no more than `capacity` were recorded, and only the latest
/// `capacity` — the older ones forgotten — afterwards.
pub proof fn lemma_window_retains_recent(capacity: nat, values: Seq<u64>)
    requires
        1 <= capacity,
    ensures
        record_all(initial_model(capacity), as_outcomes(values)).capacity == capacity,
        record_all(initial_model(capacity), as_outcomes(values)).window == (if values.len()
            <= capacity {
            values
        } else {
            values.subrange(values.len() - capacity, values.len() as int)
        }),
    decreases values.len(),
{
    let outcomes = as_outcomes(values);
    if values.len() == 0 {
        assert(outcomes.len() == 0);
        assert(record_all(initial_model(capacity), outcomes).window =~= values);
    } else {
        let prefix = values.drop_last();
        lemma_window_retains_recent(capacity, prefix);
        assert(as_outcomes(prefix) =~= outcomes.drop_last());
        let before = record_all(initial_model(capacity), outcomes.drop_last());
        let after = record_all(initial_model(capacity), outcomes);
        assert(after == spec_record(before, outcomes.last()));
        assert(outcomes.last() == Option::Some(values.last()));
        assert(values =~= prefix.push(values.last()));
        if values.len() <= capacity {
            assert(before.window == prefix);
            assert(after.window =~= values);
        } else if values.len() == capacity + 1 {
            assert(before.window == prefix);
            assert(after.window =~= values.subrange(
                values.len() - capacity,
                values.len() as int,
            ));
        } else {
            assert(before.window == prefix.subrange(
                prefix.len() - capacity,
                prefix.len() as int,
            ));
            assert(after.window =~= values.subrange(
                values.len() - capacity,
                values.len() as int,
            ));
        }
    }
}

/// With at most `capacity` samples recorded, the windowed minimum and
/// maximum are the true minimum and maximum of everything recorded: each
/// is one of the recorded samples, and it bounds all of them.
pub proof fn lemma_extremes_within_capacity(capacity: nat, values: Seq<u64>)
    requires
        1 <= capacity,
        1 <= values.len() <= capacity,
    ensures
        spec_min(record_all(initial_model(capacity), as_outcomes(values))) == Option::Some(
            min_of(values),
        ),
        spec_max(record_all(initial_model(capacity), as_outcomes(values))) == Option::Some(
            max_of(values),
        ),
        values.contains(min_of(values)),
        values.contains(max_of(values)),
        forall|i: int|
            0 <= i < values.len() ==> min_of(values) <= #[trigger] values[i] <= max_of(values),
{
    lemma_window_retains_recent(capacity, values);
    lemma_min_of(values);
    lemma_max_of(values);
}

/// With more than `capacity` samples recorded, the windowed minimum and
/// maximum are the true minimum and maximum of only the most recent
/// `capacity` samples: the older samples are forgotten.
pub proof fn lemma_extremes_beyond_capacity(capacity: nat, values: Seq<u64>)
    requires
        1 <= capacity < values.len(),
    ensures
        spec_min(record_all(initial_model(capacity), as_outcomes(values))) == Option::Some(
            min_of(values.subrange(values.len() - capacity, values.len() as int)),
        ),
        spec_max(record_all(initial_model(capacity), as_outcomes(values))) == Option::Some(
            max_of(values.subrange(values.len() - capacity, values.len() as int)),
        ),
        values.subrange(values.len() - capacity, values.len() as int).contains(
            min_of(values.subrange(values.len() - capacity, values.len() as int)),
        ),
        forall|i: int|
            values.len() - capacity <= i < values.len() ==> min_of(
                values.subrange(values.len() - capacity, values.len() as int),
            ) <= #[trigger] values[i] <= max_of(
                values.subrange(values.len() - capacity, values.len() as int),
            ),
{
    lemma_window_retains_recent(capacity, values);
    let recent = values.subrange(values.len() - capacity, values.len() as int);
    lemma_min_of(recent);
    lemma_max_of(recent);
    assert forall|i: int| values.len() - capacity <= i < values.len() implies min_of(recent)
        <= #[trigger] values[i] <= max_of(recent) by {
        assert(values[i] == recent[i - (values.len() - capacity)]);
    }
}

/// The aggregate covers the entire history: however small the window, the
/// count, the sum and the sum of squares — and with them the mean and the
/// standard deviation — are those of every sample ever recorded.
pub proof fn lemma_aggregates_cover_full_history(capacity: nat, values: Seq<u64>)
    requires
        1 <= capacity,
    ensures
        record_all(initial_model(capacity), as_outcomes(values)).count == values.len(),
        record_all(initial_model(capacity), as_outcomes(values)).sum == sum_of(values),
        record_all(initial_model(capacity), as_outcomes(values)).sum_sq == sum_sq_of(values),
        spec_mean(record_all(initial_model(capacity), as_outcomes(values))) == (if values.len()
            == 0 {
            Option::<u64>::None
        } else {
            Option::Some(mean_floor_of(values.len() as int, sum_of(values)) as u64)
        }),
        spec_stddev(record_all(initial_model(capacity), as_outcomes(values))) == (if values.len()
            < 2 {
            Option::<u64>::None
        } else {
            Option::Some(
                sqrt_floor(
                    variance_floor_of(values.len() as int, sum_of(values), sum_sq_of(values)),
                ) as u64,
            )
        }),
    decreases values.len(),
{
    let outcomes = as_outcomes(values);
    if values.len() > 0 {
        let prefix = values.drop_last();
        lemma_aggregates_cover_full_history(capacity, prefix);
        assert(as_outcomes(prefix) =~= outcomes.drop_last());
        assert(outcomes.last() == Option::Some(values.last()));
    }
}

} // verus!
