use latmon::stats::EndpointStats;

#[test]
fn no_samples_all_unavailable() {
    let mut e = EndpointStats::new(8);
    for _ in 0..5 {
        e.record(None);
    }
    assert_eq!(e.min(), None);
    assert_eq!(e.max(), None);
    assert_eq!(e.mean(), None);
    assert_eq!(e.stddev(), None);
    assert_eq!(e.p95(), None);
    assert_eq!(e.p99(), None);
    assert_eq!(e.last(), None);
    assert_eq!(e.total_samples(), 0);
    assert_eq!(e.window_values(), Vec::<u64>::new());
}

#[test]
fn min_max_within_capacity() {
    let mut e = EndpointStats::new(8);
    for v in [30u64, 10, 20] {
        e.record(Some(v));
    }
    assert_eq!(e.min(), Some(10));
    assert_eq!(e.max(), Some(30));
    assert_eq!(e.last(), Some(20));
    assert_eq!(e.total_samples(), 3);
}

#[test]
fn end_to_end_capacity_four() {
    let mut e = EndpointStats::new(4);
    for v in [10u64, 20, 30, 40, 50] {
        e.record(Some(v));
    }
    assert_eq!(e.window_values(), vec![20, 30, 40, 50]);
    assert_eq!(e.min(), Some(20));
    assert_eq!(e.max(), Some(50));
    // the mean covers the full history, 10 included
    assert_eq!(e.mean(), Some(30));
    assert_eq!(e.last(), Some(50));
    assert_eq!(e.total_samples(), 5);
}

#[test]
fn mean_is_not_windowed() {
    let mut e = EndpointStats::new(2);
    for v in [2u64, 4, 6, 8] {
        e.record(Some(v));
    }
    // window keeps only [6, 8] but the mean is (2+4+6+8)/4
    assert_eq!(e.window_values(), vec![6, 8]);
    assert_eq!(e.min(), Some(6));
    assert_eq!(e.mean(), Some(5));
    assert_eq!(e.total_samples(), 4);
}

#[test]
fn stddev_is_bessel_corrected_full_history() {
    let mut e = EndpointStats::new(4);
    for v in [2u64, 4, 4, 4, 5, 5, 7, 9] {
        e.record(Some(v));
    }
    // sample variance = 32/7, floored to 4; stddev floor = 2
    assert_eq!(e.stddev(), Some(2));
    assert_eq!(e.mean(), Some(5));
}

#[test]
fn stddev_needs_two_samples() {
    let mut e = EndpointStats::new(4);
    e.record(Some(7));
    assert_eq!(e.mean(), Some(7));
    assert_eq!(e.stddev(), None);
    e.record(Some(7));
    assert_eq!(e.stddev(), Some(0));
}

#[test]
fn percentile_ranks_of_hundred() {
    let mut e = EndpointStats::new(128);
    for v in 1u64..=100 {
        e.record(Some(v));
    }
    assert_eq!(e.p95(), Some(95));
    assert_eq!(e.p99(), Some(99));
    assert_eq!(e.min(), Some(1));
    assert_eq!(e.max(), Some(100));
}

#[test]
fn percentiles_of_single_sample() {
    let mut e = EndpointStats::new(4);
    e.record(Some(42));
    assert_eq!(e.p95(), Some(42));
    assert_eq!(e.p99(), Some(42));
}

#[test]
fn reads_are_idempotent() {
    let mut e = EndpointStats::new(4);
    for v in [12u64, 7, 31] {
        e.record(Some(v));
    }
    let first = (e.min(), e.max(), e.p95(), e.p99());
    let second = (e.min(), e.max(), e.p95(), e.p99());
    let third = (e.min(), e.max(), e.p95(), e.p99());
    assert_eq!(first, second);
    assert_eq!(second, third);
}

#[test]
fn min_recomputed_after_evicting_minimum() {
    let mut e = EndpointStats::new(3);
    for v in [5u64, 50, 60] {
        e.record(Some(v));
    }
    assert_eq!(e.min(), Some(5));
    // 70 evicts 5, which was the cached minimum
    e.record(Some(70));
    assert_eq!(e.min(), Some(50));
    assert_eq!(e.max(), Some(70));
}

#[test]
fn min_kept_when_eviction_misses_boundary() {
    let mut e = EndpointStats::new(3);
    for v in [50u64, 10, 60] {
        e.record(Some(v));
    }
    assert_eq!(e.min(), Some(10));
    assert_eq!(e.max(), Some(60));
    // 70 evicts 50, which sat on neither boundary
    e.record(Some(70));
    assert_eq!(e.min(), Some(10));
    assert_eq!(e.max(), Some(70));
}

#[test]
fn duplicate_minimum_survives_eviction() {
    let mut e = EndpointStats::new(3);
    for v in [5u64, 5, 9] {
        e.record(Some(v));
    }
    assert_eq!(e.min(), Some(5));
    // evicting one of two equal minima must still leave min = 5
    e.record(Some(7));
    assert_eq!(e.min(), Some(5));
}

#[test]
fn failed_probe_changes_nothing() {
    let mut e = EndpointStats::new(4);
    e.record(Some(25));
    e.record(Some(35));
    let before = (e.min(), e.max(), e.mean(), e.p95(), e.last(), e.total_samples());
    e.record(None);
    let after = (e.min(), e.max(), e.mean(), e.p95(), e.last(), e.total_samples());
    assert_eq!(before, after);
}

#[test]
fn percentile_ranks_of_two() {
    let mut e = EndpointStats::new(4);
    e.record(Some(10));
    e.record(Some(20));
    // rank ceil(2 * 0.95) = 2, so both percentiles pick the larger sample
    assert_eq!(e.p95(), Some(20));
    assert_eq!(e.p99(), Some(20));
}

#[test]
fn largest_admissible_sample() {
    let mut e = EndpointStats::new(2);
    e.record(Some(latmon::MAX_SAMPLE_MICROS));
    e.record(Some(0));
    assert_eq!(e.min(), Some(0));
    assert_eq!(e.max(), Some(latmon::MAX_SAMPLE_MICROS));
    assert_eq!(e.mean(), Some(latmon::MAX_SAMPLE_MICROS / 2));
}

#[test]
fn full_window_of_equal_values() {
    let mut e = EndpointStats::new(2);
    for _ in 0..5 {
        e.record(Some(11));
    }
    assert_eq!(e.min(), Some(11));
    assert_eq!(e.max(), Some(11));
    assert_eq!(e.mean(), Some(11));
    assert_eq!(e.stddev(), Some(0));
    assert_eq!(e.p95(), Some(11));
    assert_eq!(e.window_values(), vec![11, 11]);
}
