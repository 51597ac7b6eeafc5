use std::cmp::Ordering;

use latmon::render::{
    calc_visible_columns, compare_snapshot, remaining_display_seconds, sort_snapshots,
    spinner_step, style_for_last, total_sample_count, LatencyTone, RenderBuffers,
};
use latmon::snapshot::StatsSnapshot;
use latmon::text::{digit_count, format_latency, format_sample_count};

fn snap(region_id: usize, avg: Option<u64>, total_samples: u64) -> StatsSnapshot {
    StatsSnapshot {
        region_id,
        last: avg,
        min: avg,
        max: avg,
        avg,
        stddev: None,
        p95: avg,
        p99: avg,
        total_samples,
    }
}

#[test]
fn latency_formatting() {
    assert_eq!(format_latency(None), "       --");
    assert_eq!(format_latency(Some(123_450)), "   123.45ms");
    assert_eq!(format_latency(Some(0)), "     0.00ms");
    assert_eq!(format_latency(Some(5)), "     0.01ms");
    assert_eq!(format_latency(Some(4)), "     0.00ms");
    assert_eq!(format_latency(Some(999_996)), "  1000.00ms");
    assert_eq!(format_latency(Some(2_000)), "     2.00ms");
}

#[test]
fn sample_count_formatting() {
    assert_eq!(format_sample_count(0), "0");
    assert_eq!(format_sample_count(999), "999");
    assert_eq!(format_sample_count(1_000), "1.0K");
    assert_eq!(format_sample_count(1_950), "2.0K");
    assert_eq!(format_sample_count(1_500_000), "1.5M");
    assert_eq!(format_sample_count(2_950_000), "3.0M");
    assert_eq!(format_sample_count(7_000_000_000), "7.0B");
    assert_eq!(format_sample_count(1_200_000_000_000), "1.2T");
}

#[test]
fn digit_counting() {
    assert_eq!(digit_count(0), 1);
    assert_eq!(digit_count(9), 1);
    assert_eq!(digit_count(10), 2);
    assert_eq!(digit_count(12_345), 5);
    assert_eq!(digit_count(u64::MAX), 20);
}

#[test]
fn snapshot_ordering() {
    let a = snap(0, None, 0);
    let b = snap(1, Some(50), 3);
    let c = snap(2, Some(70), 3);
    let d = snap(3, Some(50), 3);
    assert_eq!(compare_snapshot(&a, &b), Ordering::Less);
    assert_eq!(compare_snapshot(&b, &a), Ordering::Greater);
    assert_eq!(compare_snapshot(&b, &c), Ordering::Less);
    assert_eq!(compare_snapshot(&b, &d), Ordering::Less);
    assert_eq!(compare_snapshot(&d, &b), Ordering::Greater);
    assert_eq!(compare_snapshot(&b, &b), Ordering::Equal);
}

#[test]
fn snapshots_sort_by_mean_with_absent_first() {
    let mut rows = vec![
        snap(0, Some(90), 1),
        snap(1, Some(10), 1),
        snap(2, None, 0),
        snap(3, Some(10), 1),
        snap(4, Some(40), 1),
    ];
    sort_snapshots(&mut rows);
    let order: Vec<usize> = rows.iter().map(|s| s.region_id).collect();
    assert_eq!(order, vec![2, 1, 3, 4, 0]);
}

#[test]
fn visible_columns_by_width() {
    assert_eq!(calc_visible_columns(200), 8);
    assert_eq!(calc_visible_columns(123), 8);
    assert_eq!(calc_visible_columns(122), 7);
    assert_eq!(calc_visible_columns(97), 6);
    assert_eq!(calc_visible_columns(96), 5);
    assert_eq!(calc_visible_columns(58), 3);
    assert_eq!(calc_visible_columns(57), 2);
    assert_eq!(calc_visible_columns(0), 2);
}

#[test]
fn last_cell_tone() {
    assert_eq!(style_for_last(Some(10), Some(5)), LatencyTone::Bad);
    assert_eq!(style_for_last(Some(5), Some(10)), LatencyTone::Good);
    assert_eq!(style_for_last(Some(5), Some(5)), LatencyTone::Good);
    assert_eq!(style_for_last(None, Some(5)), LatencyTone::Unknown);
    assert_eq!(style_for_last(Some(5), None), LatencyTone::Unknown);
    assert_eq!(style_for_last(None, None), LatencyTone::Unknown);
}

#[test]
fn sample_totals_saturate() {
    let rows = vec![snap(0, Some(1), 7), snap(1, Some(2), 13)];
    assert_eq!(total_sample_count(&rows), 20);
    let rows = vec![snap(0, Some(1), u64::MAX), snap(1, Some(2), 1)];
    assert_eq!(total_sample_count(&rows), u64::MAX);
    let rows: Vec<StatsSnapshot> = Vec::new();
    assert_eq!(total_sample_count(&rows), 0);
}

#[test]
fn warmup_countdown() {
    assert_eq!(remaining_display_seconds(0), 0);
    assert_eq!(remaining_display_seconds(1), 1);
    assert_eq!(remaining_display_seconds(999), 1);
    assert_eq!(remaining_display_seconds(1_000), 1);
    assert_eq!(remaining_display_seconds(1_001), 2);
}

#[test]
fn warmup_spinner() {
    assert_eq!(spinner_step(0), 0);
    assert_eq!(spinner_step(149), 0);
    assert_eq!(spinner_step(150), 1);
    assert_eq!(spinner_step(450), 3);
    assert_eq!(spinner_step(600), 0);
}

#[test]
fn render_buffers_start_and_clear_empty() {
    let mut buffers = RenderBuffers::new(8);
    assert!(buffers.sorted_indices.is_empty());
    buffers.sorted_indices.push(3);
    buffers.sorted_indices.push(1);
    buffers.clear();
    assert!(buffers.sorted_indices.is_empty());
}
