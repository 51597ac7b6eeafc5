use latmon::snapshot::SnapshotStore;
use latmon::worker::{
    ProbeWorker, WorkerAction, WorkerEvent, PROBE_INTERVAL_MS, RETRY_DELAY_MS,
};

#[test]
fn successful_probe_publishes_then_cools_down() {
    let mut w = ProbeWorker::new(7, 4);
    assert_eq!(w.region_id(), 7);
    assert!(w.event_fits(WorkerEvent::ProbeResult(Some(100))));

    let action = w.handle_event(WorkerEvent::ProbeResult(Some(100)), true);
    let snap = match action {
        WorkerAction::Publish(s) => s,
        other => panic!("expected a publish, got {:?}", other),
    };
    assert_eq!(snap.region_id, 7);
    assert_eq!(snap.last, Some(100));
    assert_eq!(snap.min, Some(100));
    assert_eq!(snap.max, Some(100));
    assert_eq!(snap.avg, Some(100));
    assert_eq!(snap.stddev, None);
    assert_eq!(snap.total_samples, 1);

    assert!(w.event_fits(WorkerEvent::Published));
    assert_eq!(
        w.handle_event(WorkerEvent::Published, true),
        WorkerAction::Sleep(PROBE_INTERVAL_MS)
    );
    assert!(w.event_fits(WorkerEvent::SleepDone));
    assert_eq!(w.handle_event(WorkerEvent::SleepDone, true), WorkerAction::Measure);
}

#[test]
fn failures_retry_then_publish_absent() {
    let mut w = ProbeWorker::new(0, 4);
    // three attempts per cycle: two failures retry, the third gives up
    for _ in 0..2 {
        assert_eq!(
            w.handle_event(WorkerEvent::ProbeResult(None), true),
            WorkerAction::Sleep(RETRY_DELAY_MS)
        );
        assert_eq!(w.handle_event(WorkerEvent::SleepDone, true), WorkerAction::Measure);
    }
    // retries exhausted: the failed cycle is published as an absent sample
    let action = w.handle_event(WorkerEvent::ProbeResult(None), true);
    let snap = match action {
        WorkerAction::Publish(s) => s,
        other => panic!("expected a publish, got {:?}", other),
    };
    assert_eq!(snap.last, None);
    assert_eq!(snap.total_samples, 0);
    assert_eq!(w.recorded_samples(), 0);
}

#[test]
fn success_clears_retry_budget() {
    let mut w = ProbeWorker::new(0, 4);
    assert_eq!(
        w.handle_event(WorkerEvent::ProbeResult(None), true),
        WorkerAction::Sleep(RETRY_DELAY_MS)
    );
    assert_eq!(w.handle_event(WorkerEvent::SleepDone, true), WorkerAction::Measure);
    // a success publishes immediately even mid-retry
    match w.handle_event(WorkerEvent::ProbeResult(Some(42)), true) {
        WorkerAction::Publish(s) => assert_eq!(s.last, Some(42)),
        other => panic!("expected a publish, got {:?}", other),
    }
    assert_eq!(w.handle_event(WorkerEvent::Published, true), WorkerAction::Sleep(PROBE_INTERVAL_MS));
    // after cooldown the budget is back to the full three attempts
    assert_eq!(w.handle_event(WorkerEvent::SleepDone, true), WorkerAction::Measure);
    for _ in 0..2 {
        assert_eq!(
            w.handle_event(WorkerEvent::ProbeResult(None), true),
            WorkerAction::Sleep(RETRY_DELAY_MS)
        );
        assert_eq!(w.handle_event(WorkerEvent::SleepDone, true), WorkerAction::Measure);
    }
    assert!(matches!(
        w.handle_event(WorkerEvent::ProbeResult(None), true),
        WorkerAction::Publish(_)
    ));
}

#[test]
fn closed_gate_measures_but_records_nothing() {
    let mut w = ProbeWorker::new(0, 4);
    assert_eq!(
        w.handle_event(WorkerEvent::ProbeResult(Some(100)), false),
        WorkerAction::Sleep(PROBE_INTERVAL_MS)
    );
    assert_eq!(w.recorded_samples(), 0);
    assert_eq!(w.handle_event(WorkerEvent::SleepDone, false), WorkerAction::Measure);
    // after warmup the following probe cycle is recorded and published
    match w.handle_event(WorkerEvent::ProbeResult(Some(100)), true) {
        WorkerAction::Publish(s) => assert_eq!(s.total_samples, 1),
        other => panic!("expected a publish, got {:?}", other),
    }
}

#[test]
fn shutdown_stops_from_any_state() {
    let mut w = ProbeWorker::new(0, 4);
    assert_eq!(w.handle_event(WorkerEvent::ProbeResult(None), true), WorkerAction::Sleep(500));
    assert!(!w.is_stopped());
    assert!(w.event_fits(WorkerEvent::Shutdown));
    assert_eq!(w.handle_event(WorkerEvent::Shutdown, true), WorkerAction::Exit);
    assert!(w.is_stopped());
    // a stopped worker only ever exits
    assert_eq!(w.handle_event(WorkerEvent::SleepDone, true), WorkerAction::Exit);
    assert!(w.is_stopped());
}

#[test]
fn mismatched_events_are_rejected_by_the_fit_check() {
    let w = ProbeWorker::new(0, 4);
    // a fresh worker is probing: only a probe result or a shutdown fits
    assert!(w.event_fits(WorkerEvent::ProbeResult(None)));
    assert!(w.event_fits(WorkerEvent::Shutdown));
    assert!(!w.event_fits(WorkerEvent::SleepDone));
    assert!(!w.event_fits(WorkerEvent::Published));
}

#[test]
fn store_starts_absent_and_roundtrips() {
    let store = SnapshotStore::new(5);
    let empty = store.read();
    assert_eq!(empty.region_id, 5);
    assert_eq!(empty.last, None);
    assert_eq!(empty.min, None);
    assert_eq!(empty.total_samples, 0);

    let mut w = ProbeWorker::new(5, 4);
    let snap = match w.handle_event(WorkerEvent::ProbeResult(Some(314)), true) {
        WorkerAction::Publish(s) => s,
        other => panic!("expected a publish, got {:?}", other),
    };
    store.publish(snap);
    assert_eq!(store.read(), snap);
}
