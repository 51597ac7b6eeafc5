//! The probe worker's decision logic, as a verified state machine.
//!
//! One worker owns one endpoint's [`EndpointStats`] exclusively and cycles
//! through measure, retry, publish and cooldown. Everything the worker
//! decides is here, as a pure transition on `(state, event)`; performing
//! the outside work — the measurement itself, the sleeps, handing the
//! returned snapshot to the store — is left to the caller, which feeds the
//! outcome back as the next event. Shutdown is cooperative: a shutdown
//! event is accepted in every state and stops the worker at once.

use vstd::prelude::*;

verus! {

use crate::MAX_SAMPLE_COUNT;
use crate::MAX_SAMPLE_MICROS;
use crate::model::StatsModel;
use crate::model::initial_model;
use crate::model::spec_record;
use crate::snapshot::StatsSnapshot;
use crate::snapshot::consistent;
use crate::snapshot::snapshot_of;
use crate::stats::EndpointStats;

/// Measurement attempts allowed per probe cycle.
pub const MAX_ATTEMPTS: u8 = 3;

/// Fixed delay between failed measurement attempts, in milliseconds.
pub const RETRY_DELAY_MS: u64 = 500;

/// Fixed delay between probe cycles, in milliseconds.
pub const PROBE_INTERVAL_MS: u64 = 1000;

/// Where a worker stands in its cycle.
#[derive(Clone, Copy, Debug, PartialEq, Eq, Structural)]
pub enum WorkerState {
    /// A measurement is in flight; this many attempts remain in the
    /// cycle, the in-flight one included.
    Probing { attempts_left: u8 },
    /// Waiting out the fixed delay before the next measurement attempt;
    /// this many attempts remain in the cycle.
    RetryWait { attempts_left: u8 },
    /// A snapshot has been handed out and its publication is awaited.
    Publishing,
    /// Waiting out the fixed delay before the next probe cycle.
    Cooldown,
    /// The worker has shut down and will do nothing more.
    Stopped,
}

/// What the outside world reports back to the worker.
#[derive(Clone, Copy, Debug, PartialEq, Eq, Structural)]
pub enum WorkerEvent {
    /// The in-flight measurement finished: a latency in microseconds, or
    /// `None` for a failed attempt.
    ProbeResult(Option<u64>),
    /// The requested sleep has elapsed.
    SleepDone,
    /// The handed-out snapshot has been published.
    Published,
    /// The shared shutdown flag was observed set.
    Shutdown,
}

/// What the worker asks the outside world to do next.
#[derive(Clone, Copy, Debug, PartialEq)]
#[verifier::ext_equal]
pub enum WorkerAction {
    /// Start one latency measurement against the endpoint.
    Measure,
    /// Sleep this many milliseconds, then report back.
    Sleep(u64),
    /// Hand this snapshot to the endpoint's store, then report back.
    Publish(StatsSnapshot),
    /// Stop the loop; the worker is done.
    Exit,
}

/// Whether the event can occur in the state; the driving loop always feeds
/// matching events, and `Shutdown` fits everywhere.
pub open spec fn spec_event_fits(state: WorkerState, event: WorkerEvent) -> bool {
    match (state, event) {
        (_, WorkerEvent::Shutdown) => true,
        (WorkerState::Stopped, _) => true,
        (WorkerState::Probing { .. }, WorkerEvent::ProbeResult(_)) => true,
        (WorkerState::RetryWait { .. }, WorkerEvent::SleepDone) => true,
        (WorkerState::Publishing, WorkerEvent::Published) => true,
        (WorkerState::Cooldown, WorkerEvent::SleepDone) => true,
        _ => false,
    }
}

/// The probe outcome this step records and publishes, if it is the step
/// that closes a probe cycle with the collection gate open.
pub open spec fn spec_outcome(state: WorkerState, event: WorkerEvent, gate_open: bool) -> Option<
    Option<u64>,
> {
    match (state, event) {
        (_, WorkerEvent::Shutdown) => Option::None,
        (WorkerState::Probing { attempts_left }, WorkerEvent::ProbeResult(r)) => {
            if !gate_open {
                Option::None
            } else if r is Some {
                Option::Some(r)
            } else if attempts_left <= 1 {
                Option::Some(Option::None)
            } else {
                Option::None
            }
        },
        _ => Option::None,
    }
}

/// The state after one step.
pub open spec fn spec_next_state(state: WorkerState, event: WorkerEvent, gate_open: bool)
    -> WorkerState {
    match (state, event) {
        (_, WorkerEvent::Shutdown) => WorkerState::Stopped,
        (WorkerState::Stopped, _) => WorkerState::Stopped,
        (WorkerState::Probing { attempts_left }, WorkerEvent::ProbeResult(r)) => {
            if r is None && attempts_left > 1 {
                WorkerState::RetryWait { attempts_left: (attempts_left - 1) as u8 }
            } else if gate_open {
                WorkerState::Publishing
            } else {
                WorkerState::Cooldown
            }
        },
        (WorkerState::RetryWait { attempts_left }, WorkerEvent::SleepDone) => WorkerState::Probing {
            attempts_left,
        },
        (WorkerState::Publishing, WorkerEvent::Published) => WorkerState::Cooldown,
        (WorkerState::Cooldown, WorkerEvent::SleepDone) => WorkerState::Probing {
            attempts_left: MAX_ATTEMPTS,
        },
        _ => state,
    }
}

/// The action of a step that publishes nothing.
pub open spec fn spec_plain_action(state: WorkerState, event: WorkerEvent) -> WorkerAction {
    match (state, event) {
        (_, WorkerEvent::Shutdown) => WorkerAction::Exit,
        (WorkerState::Stopped, _) => WorkerAction::Exit,
        (WorkerState::Probing { attempts_left }, WorkerEvent::ProbeResult(r)) => {
            if r is None && attempts_left > 1 {
                WorkerAction::Sleep(RETRY_DELAY_MS)
            } else {
                // the collection gate was closed: skip straight to cooldown
                WorkerAction::Sleep(PROBE_INTERVAL_MS)
            }
        },
        (WorkerState::RetryWait { .. }, WorkerEvent::SleepDone) => WorkerAction::Measure,
        (WorkerState::Publishing, WorkerEvent::Published) => WorkerAction::Sleep(PROBE_INTERVAL_MS),
        (WorkerState::Cooldown, WorkerEvent::SleepDone) => WorkerAction::Measure,
        _ => WorkerAction::Exit,
    }
}

/// One endpoint's probe worker: the exclusive owner of that endpoint's
/// statistics engine, plus its place in the probe cycle.
pub struct ProbeWorker {
    stats: EndpointStats,
    state: WorkerState,
    region_id: usize,
}

impl ProbeWorker {
    /// The worker's current place in its cycle.
    pub closed spec fn state(&self) -> WorkerState {
        self.state
    }

    /// The model of the owned statistics engine.
    pub closed spec fn stats_model(&self) -> StatsModel {
        self.stats@
    }

    /// The endpoint this worker probes.
    pub closed spec fn spec_region_id(&self) -> usize {
        self.region_id
    }

    /// Internal invariant.
    pub closed spec fn wf(&self) -> bool {
        &&& self.stats.wf()
        &&& match self.state {
            WorkerState::Probing { attempts_left } => 1 <= attempts_left <= MAX_ATTEMPTS,
            WorkerState::RetryWait { attempts_left } => 1 <= attempts_left < MAX_ATTEMPTS,
            _ => true,
        }
    }

    /// Creates a worker for `region_id`, about to take its first
    /// measurement, with a fresh statistics engine of the given window
    /// capacity.
    pub fn new(region_id: usize, capacity: usize) -> (r: ProbeWorker)
        requires
            1 <= capacity <= crate::CAPACITY_LIMIT,
        ensures
            r.wf(),
            r.state() == (WorkerState::Probing { attempts_left: MAX_ATTEMPTS }),
            r.stats_model() == initial_model(capacity as nat),
            r.spec_region_id() == region_id,
    {
        ProbeWorker {
            stats: EndpointStats::new(capacity),
            state: WorkerState::Probing { attempts_left: MAX_ATTEMPTS },
            region_id,
        }
    }

    /// The endpoint this worker probes, as a run-time value.
    pub fn region_id(&self) -> (r: usize)
        ensures
            r == self.spec_region_id(),
    {
        self.region_id
    }

    /// Whether the worker has shut down.
    pub fn is_stopped(&self) -> (r: bool)
        ensures
            r == (self.state() is Stopped),
    {
        match self.state {
            WorkerState::Stopped => true,
            _ => false,
        }
    }

    /// Whether `event` can occur in the worker's current state; the driver
    /// checks this before handing an event over.
    pub fn event_fits(&self, event: WorkerEvent) -> (r: bool)
        ensures
            r == spec_event_fits(self.state(), event),
    {
        match (self.state, event) {
            (_, WorkerEvent::Shutdown) => true,
            (WorkerState::Stopped, _) => true,
            (WorkerState::Probing { .. }, WorkerEvent::ProbeResult(_)) => true,
            (WorkerState::RetryWait { .. }, WorkerEvent::SleepDone) => true,
            (WorkerState::Publishing, WorkerEvent::Published) => true,
            (WorkerState::Cooldown, WorkerEvent::SleepDone) => true,
            _ => false,
        }
    }

    /// Advances the worker by one step: takes the event that ended the
    /// outside work, updates the owned statistics exactly when a probe
    /// cycle closes with the collection gate open, and returns the next
    /// piece of outside work. The published snapshot is always the whole
    /// image of the statistics engine after recording.
    pub fn handle_event(&mut self, event: WorkerEvent, gate_open: bool) -> (action: WorkerAction)
        requires
            old(self).wf(),
            spec_event_fits(old(self).state(), event),
            event matches WorkerEvent::ProbeResult(Option::Some(v)) ==> v <= MAX_SAMPLE_MICROS,
            old(self).stats_model().count < MAX_SAMPLE_COUNT,
        ensures
            final(self).wf(),
            final(self).spec_region_id() == old(self).spec_region_id(),
            final(self).state() == spec_next_state(old(self).state(), event, gate_open),
            match spec_outcome(old(self).state(), event, gate_open) {
                Option::Some(outcome) => {
                    &&& final(self).stats_model() == spec_record(old(self).stats_model(), outcome)
                    &&& action == WorkerAction::Publish(
                        snapshot_of(final(self).stats_model(), old(self).spec_region_id()),
                    )
                    &&& (action matches WorkerAction::Publish(s) ==> consistent(s))
                },
                Option::None => {
                    &&& final(self).stats_model() == old(self).stats_model()
                    &&& action == spec_plain_action(old(self).state(), event)
                },
            },
    {
        if let WorkerEvent::Shutdown = event {
            self.state = WorkerState::Stopped;
            return WorkerAction::Exit;
        }
        match self.state {
            WorkerState::Stopped => WorkerAction::Exit,
            WorkerState::Probing { attempts_left } => {
                let outcome = match event {
                    WorkerEvent::ProbeResult(r) => r,
                    _ => Option::None,  // unreachable: the event fits the state
                };
                if outcome.is_none() && attempts_left > 1 {
                    self.state = WorkerState::RetryWait { attempts_left: attempts_left - 1 };
                    WorkerAction::Sleep(RETRY_DELAY_MS)
                } else if gate_open {
                    self.stats.record(outcome);
                    let snap = self.stats.snapshot(self.region_id);
                    self.state = WorkerState::Publishing;
                    WorkerAction::Publish(snap)
                } else {
                    self.state = WorkerState::Cooldown;
                    WorkerAction::Sleep(PROBE_INTERVAL_MS)
                }
            },
            WorkerState::RetryWait { attempts_left } => {
                self.state = WorkerState::Probing { attempts_left };
                WorkerAction::Measure
            },
            WorkerState::Publishing => {
                self.state = WorkerState::Cooldown;
                WorkerAction::Sleep(PROBE_INTERVAL_MS)
            },
            WorkerState::Cooldown => {
                self.state = WorkerState::Probing { attempts_left: MAX_ATTEMPTS };
                WorkerAction::Measure
            },
        }
    }

    /// Number of samples the owned engine has recorded; lets the driver
    /// test the recording bound before handing over an event.
    pub fn recorded_samples(&self) -> (n: u64)
        requires
            self.wf(),
        ensures
            n == self.stats_model().count,
    {
        self.stats.total_samples()
    }
}

} // verus!
