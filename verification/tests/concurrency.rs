use std::sync::Arc;

use latmon::snapshot::SnapshotStore;
use latmon::worker::{ProbeWorker, WorkerAction, WorkerEvent};

const ROUNDS: u64 = 10_000;

/// One writer publishes ten thousand distinct snapshots while a reader
/// samples the store as fast as it can: every observed snapshot must be one
/// whole published value, never fields of two different publishes.
///
/// The writer's engine has a window of one sample, so in every published
/// snapshot the last, min, max, p95 and p99 fields all equal the one sample
/// of that cycle; a torn mixture of two publishes would break the equality.
#[test]
fn concurrent_publish_and_read_never_tears() {
    let store = Arc::new(SnapshotStore::new(0));
    let writer_store = Arc::clone(&store);
    let reader_store = Arc::clone(&store);

    let runtime = tokio::runtime::Builder::new_multi_thread()
        .worker_threads(2)
        .build()
        .unwrap();

    runtime.block_on(async move {
        let writer = tokio::task::spawn_blocking(move || {
            let mut worker = ProbeWorker::new(0, 1);
            for round in 1..=ROUNDS {
                match worker.handle_event(WorkerEvent::ProbeResult(Some(round)), true) {
                    WorkerAction::Publish(snap) => writer_store.publish(snap),
                    other => panic!("expected a publish, got {:?}", other),
                }
                worker.handle_event(WorkerEvent::Published, true);
                worker.handle_event(WorkerEvent::SleepDone, true);
            }
        });

        let reader = tokio::task::spawn_blocking(move || {
            let mut last_seen: u64 = 0;
            for _ in 0..ROUNDS {
                let snap = reader_store.read();
                if snap.total_samples == 0 {
                    assert_eq!(snap.last, None);
                    assert_eq!(snap.min, None);
                    assert_eq!(snap.max, None);
                    assert_eq!(snap.p95, None);
                    assert_eq!(snap.p99, None);
                    continue;
                }
                let v = snap.last.expect("a published snapshot has a last sample");
                assert_eq!(snap.min, Some(v));
                assert_eq!(snap.max, Some(v));
                assert_eq!(snap.p95, Some(v));
                assert_eq!(snap.p99, Some(v));
                assert_eq!(snap.total_samples, v);
                // publishes are observed in order: the store only ever
                // holds a newer snapshot than the one seen before
                assert!(snap.total_samples >= last_seen);
                last_seen = snap.total_samples;
            }
        });

        writer.await.unwrap();
        reader.await.unwrap();
    });

    // after both finish, the store holds the writer's final snapshot
    let last = store.read();
    assert_eq!(last.total_samples, ROUNDS);
    assert_eq!(last.last, Some(ROUNDS));
}
