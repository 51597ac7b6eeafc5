//! Immutable per-endpoint snapshots and the cross-thread hand-off point.
//!
//! A [`StatsSnapshot`] is a fully-owned copy of every derived statistic of
//! one endpoint at one moment. A [`SnapshotStore`] hands such copies from
//! the one probe worker that writes an endpoint to any number of readers:
//! `publish` replaces the stored value wholly while holding the write side
//! of a verified reader-writer lock, so a reader sees either the value
//! before a publish or the value after, never fields of two different
//! publishes. The lock's invariant pins down exactly that: every observable
//! snapshot is the image of one well-formed model.

use vstd::prelude::*;

verus! {

use crate::model::StatsModel;
use crate::model::initial_model;
use crate::model::model_wf;
use crate::model::spec_max;
use crate::model::spec_mean;
use crate::model::spec_min;
use crate::model::spec_p95;
use crate::model::spec_p99;
use crate::model::spec_stddev;
use crate::stats::EndpointStats;
use vstd::rwlock::RwLock;
use vstd::rwlock::RwLockPredicate;

/// Point-in-time copy of one endpoint's derived statistics. All latencies
/// are whole microseconds; an absent field means the statistic was not yet
/// available when the snapshot was taken.
#[derive(Clone, Copy, Debug, PartialEq)]
#[verifier::ext_equal]
pub struct StatsSnapshot {
    /// Index of the endpoint this snapshot describes.
    pub region_id: usize,
    /// Most recently recorded sample.
    pub last: Option<u64>,
    /// Minimum over the current window.
    pub min: Option<u64>,
    /// Maximum over the current window.
    pub max: Option<u64>,
    /// Mean over the entire history, rounded down.
    pub avg: Option<u64>,
    /// Sample standard deviation over the entire history, rounded down.
    pub stddev: Option<u64>,
    /// 95th percentile over the current window.
    pub p95: Option<u64>,
    /// 99th percentile over the current window.
    pub p99: Option<u64>,
    /// Number of samples ever recorded.
    pub total_samples: u64,
}

/// The snapshot that fully describes the model `m`.
pub open spec fn snapshot_of(m: StatsModel, region_id: usize) -> StatsSnapshot {
    StatsSnapshot {
        region_id,
        last: m.last,
        min: spec_min(m),
        max: spec_max(m),
        avg: spec_mean(m),
        stddev: spec_stddev(m),
        p95: spec_p95(m),
        p99: spec_p99(m),
        total_samples: m.count as u64,
    }
}

/// A snapshot is consistent when it is, whole, the image of one well-formed
/// model: no mixture of fields from two different states can satisfy this
/// unless the mixture itself describes a coherent state.
pub open spec fn consistent(s: StatsSnapshot) -> bool {
    exists|m: StatsModel| model_wf(m) && s == snapshot_of(m, s.region_id)
}

impl EndpointStats {
    /// Materializes a snapshot of every derived statistic, refreshing stale
    /// caches along the way.
    pub fn snapshot(&mut self, region_id: usize) -> (s: StatsSnapshot)
        requires
            old(self).wf(),
        ensures
            final(self).wf(),
            final(self)@ == old(self)@,
            s == snapshot_of(old(self)@, region_id),
            consistent(s),
    {
        let s = StatsSnapshot {
            region_id,
            last: self.last(),
            min: self.min(),
            max: self.max(),
            avg: self.mean(),
            stddev: self.stddev(),
            p95: self.p95(),
            p99: self.p99(),
            total_samples: self.total_samples(),
        };
        proof {
            let ghost m = old(self)@;
            old(self).lemma_wf_model();
            assert(m.count as u64 == m.count);
            assert(s =~= snapshot_of(m, s.region_id));
            assert(model_wf(m) && s == snapshot_of(m, s.region_id));
        }
        s
    }
}

/// The invariant every value inside a [`SnapshotStore`] satisfies: a
/// consistent snapshot of the one endpoint the store belongs to.
pub struct StoredConsistent {
    /// The endpoint whose snapshots the store carries.
    pub region_id: usize,
}

impl RwLockPredicate<StatsSnapshot> for StoredConsistent {
    open spec fn inv(self, v: StatsSnapshot) -> bool {
        consistent(v) && v.region_id == self.region_id
    }
}

/// Single point of hand-off between one endpoint's probe worker and the
/// render loop: at most one published snapshot is retained, and each
/// publish replaces it atomically.
pub struct SnapshotStore {
    region_id: usize,
    slot: RwLock<StatsSnapshot, StoredConsistent>,
}

impl SnapshotStore {
    #[verifier::type_invariant]
    spec fn type_inv(self) -> bool {
        self.slot.pred() == (StoredConsistent { region_id: self.region_id })
    }

    /// The endpoint this store carries snapshots of.
    pub closed spec fn spec_region_id(&self) -> usize {
        self.region_id
    }

    /// Creates a store holding the all-absent snapshot for `region_id`.
    pub fn new(region_id: usize) -> (r: SnapshotStore)
        ensures
            r.spec_region_id() == region_id,
    {
        let empty = StatsSnapshot {
            region_id,
            last: Option::None,
            min: Option::None,
            max: Option::None,
            avg: Option::None,
            stddev: Option::None,
            p95: Option::None,
            p99: Option::None,
            total_samples: 0,
        };
        proof {
            let ghost m = initial_model(1);
            assert(model_wf(m) && empty == snapshot_of(m, empty.region_id));
        }
        SnapshotStore {
            region_id,
            slot: RwLock::new(empty, Ghost(StoredConsistent { region_id })),
        }
    }

    /// The endpoint this store carries snapshots of, as a run-time value.
    pub fn region_id(&self) -> (r: usize)
        ensures
            r == self.spec_region_id(),
    {
        self.region_id
    }

    /// Atomically replaces the published snapshot.
    pub fn publish(&self, snap: StatsSnapshot)
        requires
            consistent(snap),
            snap.region_id == self.spec_region_id(),
    {
        proof {
            use_type_invariant(self);
        }
        let (_, write_handle) = self.slot.acquire_write();
        write_handle.release_write(snap);
    }

    /// Returns the most recently published snapshot, or the all-absent one
    /// if nothing was ever published. The result is always one whole
    /// published value of this store's endpoint, never a torn mixture.
    pub fn read(&self) -> (s: StatsSnapshot)
        ensures
            consistent(s),
            s.region_id == self.spec_region_id(),
    {
        proof {
            use_type_invariant(self);
        }
        let read_handle = self.slot.acquire_read();
        let s = *read_handle.borrow();
        read_handle.release_read();
        s
    }
}

} // verus!
