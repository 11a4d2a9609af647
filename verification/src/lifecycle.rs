//! Monotonic process-shutdown intent shared by long-running CLI consumers.
use vstd::prelude::*;

use crate::shutdown::ShutdownAction;
use crate::text::owned;

verus! {

const RUNNING: u8 = 0;

const DRAINING: u8 = 1;

const FORCED: u8 = 2;

/// Monotonic process-shutdown intent shared by long-running CLI consumers.
///
/// This is deliberately process intent rather than HTTP/server lifecycle state.
/// Consumers may mirror an accepted transition into their server lifecycle,
/// stop a listener, flush telemetry, or close resources; those
/// responsibilities stay with the consumer.
#[derive(Debug, Clone, Copy, PartialEq, Eq, PartialOrd, Ord, Structural)]
pub enum ShutdownLifecyclePhase {
    /// No shutdown intent has been accepted yet.
    Running,
    /// Graceful draining has begun.
    Draining,
    /// An already-started drain has been explicitly escalated.
    Forced,
}

impl Default for ShutdownLifecyclePhase {
    fn default() -> (r: Self)
        ensures
            r == ShutdownLifecyclePhase::Running,
    {
        ShutdownLifecyclePhase::Running
    }
}

/// Position of a phase in `Running < Draining < Forced`.
pub open spec fn phase_rank(phase: ShutdownLifecyclePhase) -> int {
    match phase {
        ShutdownLifecyclePhase::Running => 0,
        ShutdownLifecyclePhase::Draining => 1,
        ShutdownLifecyclePhase::Forced => 2,
    }
}

/// Canonical lowercase spelling of a phase.
pub open spec fn phase_spelling(phase: ShutdownLifecyclePhase) -> Seq<char> {
    match phase {
        ShutdownLifecyclePhase::Running => "running"@,
        ShutdownLifecyclePhase::Draining => "draining"@,
        ShutdownLifecyclePhase::Forced => "forced"@,
    }
}

/// The phase a stored byte denotes; any byte other than the three encodings
/// reads as `Forced`, so a corrupted gate never reports that work may be
/// admitted.
pub open spec fn phase_from_raw(raw: u8) -> ShutdownLifecyclePhase {
    if raw == 0 {
        ShutdownLifecyclePhase::Running
    } else if raw == 1 {
        ShutdownLifecyclePhase::Draining
    } else {
        ShutdownLifecyclePhase::Forced
    }
}

impl ShutdownLifecyclePhase {
    /// Canonical lowercase diagnostic/wire spelling.
    pub fn as_str(self) -> (r: &'static str)
        ensures
            r@ == phase_spelling(self),
    {
        match self {
            ShutdownLifecyclePhase::Running => "running",
            ShutdownLifecyclePhase::Draining => "draining",
            ShutdownLifecyclePhase::Forced => "forced",
        }
    }

    /// The spelling as an owned string.
    pub fn to_string(&self) -> (r: String)
        ensures
            r@ == phase_spelling(*self),
    {
        owned(self.as_str())
    }

    fn from_raw_fail_closed(value: u8) -> (r: Self)
        ensures
            r == phase_from_raw(value),
    {
        if value == RUNNING {
            ShutdownLifecyclePhase::Running
        } else if value == DRAINING {
            ShutdownLifecyclePhase::Draining
        } else if value == FORCED {
            ShutdownLifecyclePhase::Forced
        } else {
            ShutdownLifecyclePhase::Forced
        }
    }
}

/// A phase transition asked of a lifecycle gate.
#[derive(Debug, Clone, Copy, PartialEq, Eq, Structural)]
pub enum LifecycleRequest {
    /// Begin graceful draining.
    Drain,
    /// Escalate an already-started drain.
    Force,
}

/// The next phase after one transition is asked for, and whether it was
/// admitted. Only `Running -> Draining` and `Draining -> Forced` are
/// admitted; everything else leaves the phase unchanged.
pub open spec fn lifecycle_step(phase: ShutdownLifecyclePhase, request: LifecycleRequest) -> (
    ShutdownLifecyclePhase,
    bool,
) {
    match request {
        LifecycleRequest::Drain => if phase == ShutdownLifecyclePhase::Running {
            (ShutdownLifecyclePhase::Draining, true)
        } else {
            (phase, false)
        },
        LifecycleRequest::Force => if phase == ShutdownLifecyclePhase::Draining {
            (ShutdownLifecyclePhase::Forced, true)
        } else {
            (phase, false)
        },
    }
}

/// The phase after a sequence of requests.
pub open spec fn lifecycle_phase_after(phase: ShutdownLifecyclePhase, requests: Seq<LifecycleRequest>) -> ShutdownLifecyclePhase
    decreases requests.len(),
{
    if requests.len() == 0 {
        phase
    } else {
        lifecycle_step(lifecycle_phase_after(phase, requests.drop_last()), requests.last()).0
    }
}

/// Whether the last request of a sequence was admitted.
pub open spec fn lifecycle_admits_last(phase: ShutdownLifecyclePhase, requests: Seq<LifecycleRequest>) -> bool
    recommends
        requests.len() > 0,
{
    lifecycle_step(lifecycle_phase_after(phase, requests.drop_last()), requests.last()).1
}

/// Number of admitted requests of a kind in a sequence.
pub open spec fn admitted_count(
    phase: ShutdownLifecyclePhase,
    requests: Seq<LifecycleRequest>,
    kind: LifecycleRequest,
) -> nat
    decreases requests.len(),
{
    if requests.len() == 0 {
        0
    } else {
        admitted_count(phase, requests.drop_last(), kind) + if requests.last() == kind
            && lifecycle_admits_last(phase, requests) {
            1nat
        } else {
            0nat
        }
    }
}

/// The phase never moves backwards.
pub proof fn law_lifecycle_is_monotonic(phase: ShutdownLifecyclePhase, requests: Seq<LifecycleRequest>)
    ensures
        phase_rank(lifecycle_phase_after(phase, requests)) >= phase_rank(phase),
    decreases requests.len(),
{
    if requests.len() > 0 {
        law_lifecycle_is_monotonic(phase, requests.drop_last());
    }
}

proof fn lemma_admitted_drains_bound(phase: ShutdownLifecyclePhase, requests: Seq<LifecycleRequest>)
    ensures
        admitted_count(phase, requests, LifecycleRequest::Drain) <= if phase
            == ShutdownLifecyclePhase::Running {
            1nat
        } else {
            0nat
        },
        admitted_count(phase, requests, LifecycleRequest::Drain) == 1 ==> phase_rank(
            lifecycle_phase_after(phase, requests),
        ) >= 1,
        phase_rank(lifecycle_phase_after(phase, requests)) >= 1 && phase
            == ShutdownLifecyclePhase::Running ==> admitted_count(
            phase,
            requests,
            LifecycleRequest::Drain,
        ) == 1,
    decreases requests.len(),
{
    if requests.len() > 0 {
        lemma_admitted_drains_bound(phase, requests.drop_last());
        law_lifecycle_is_monotonic(phase, requests.drop_last());
    }
}

proof fn lemma_admitted_forces_bound(phase: ShutdownLifecyclePhase, requests: Seq<LifecycleRequest>)
    ensures
        admitted_count(phase, requests, LifecycleRequest::Force) <= if phase
            == ShutdownLifecyclePhase::Forced {
            0nat
        } else {
            1nat
        },
        admitted_count(phase, requests, LifecycleRequest::Force) == 1 ==> lifecycle_phase_after(
            phase,
            requests,
        ) == ShutdownLifecyclePhase::Forced,
        lifecycle_phase_after(phase, requests) == ShutdownLifecyclePhase::Forced && phase
            != ShutdownLifecyclePhase::Forced ==> admitted_count(
            phase,
            requests,
            LifecycleRequest::Force,
        ) == 1,
    decreases requests.len(),
{
    if requests.len() > 0 {
        lemma_admitted_forces_bound(phase, requests.drop_last());
        law_lifecycle_is_monotonic(phase, requests.drop_last());
    }
}

/// However many sources race, at most one drain request and at most one force
/// request is ever admitted, and a force is admitted only after draining has
/// begun: from `Running`, a force can be admitted only if a drain was.
pub proof fn law_each_transition_is_admitted_at_most_once(
    phase: ShutdownLifecyclePhase,
    requests: Seq<LifecycleRequest>,
)
    ensures
        admitted_count(phase, requests, LifecycleRequest::Drain) <= 1,
        admitted_count(phase, requests, LifecycleRequest::Force) <= 1,
        phase == ShutdownLifecyclePhase::Running && admitted_count(
            phase,
            requests,
            LifecycleRequest::Force,
        ) == 1 ==> admitted_count(phase, requests, LifecycleRequest::Drain) == 1,
{
    lemma_admitted_drains_bound(phase, requests);
    lemma_admitted_forces_bound(phase, requests);
}

proof fn lemma_asked_transition_happens(
    phase: ShutdownLifecyclePhase,
    requests: Seq<LifecycleRequest>,
)
    ensures
        requests.contains(LifecycleRequest::Drain) ==> phase_rank(
            lifecycle_phase_after(phase, requests),
        ) >= 1,
        requests.contains(LifecycleRequest::Force) && phase_rank(phase) >= 1
            ==> lifecycle_phase_after(phase, requests) == ShutdownLifecyclePhase::Forced,
    decreases requests.len(),
{
    if requests.len() > 0 {
        let init = requests.drop_last();
        lemma_asked_transition_happens(phase, init);
        law_lifecycle_is_monotonic(phase, init);
        if requests.contains(LifecycleRequest::Drain) && requests.last() != LifecycleRequest::Drain {
            let k = choose|k: int| 0 <= k < requests.len() && requests[k] == LifecycleRequest::Drain;
            assert(init[k] == LifecycleRequest::Drain);
        }
        if requests.contains(LifecycleRequest::Force) && requests.last() != LifecycleRequest::Force {
            let k = choose|k: int| 0 <= k < requests.len() && requests[k] == LifecycleRequest::Force;
            assert(init[k] == LifecycleRequest::Force);
        }
    }
}

/// When several sources ask for the same transition, exactly one of them
/// wins: from `Running`, a batch with at least one drain admits exactly one
/// drain; once draining, a batch with at least one force admits exactly one
/// force.
pub proof fn law_exactly_one_asker_wins(
    phase: ShutdownLifecyclePhase,
    requests: Seq<LifecycleRequest>,
)
    ensures
        phase == ShutdownLifecyclePhase::Running && requests.contains(LifecycleRequest::Drain)
            ==> admitted_count(phase, requests, LifecycleRequest::Drain) == 1,
        phase == ShutdownLifecyclePhase::Draining && requests.contains(LifecycleRequest::Force)
            ==> admitted_count(phase, requests, LifecycleRequest::Force) == 1,
{
    lemma_asked_transition_happens(phase, requests);
    lemma_admitted_drains_bound(phase, requests);
    lemma_admitted_forces_bound(phase, requests);
}

/// Force is admitted only while draining: a force asked while still running
/// (or after force) is rejected and changes nothing, so the grace phase is
/// never skipped.
pub proof fn law_force_before_drain_is_rejected(phase: ShutdownLifecyclePhase)
    ensures
        phase != ShutdownLifecyclePhase::Draining ==> lifecycle_step(
            phase,
            LifecycleRequest::Force,
        ) == (phase, false),
        lifecycle_step(phase, LifecycleRequest::Force).1 ==> phase
            == ShutdownLifecyclePhase::Draining,
{
}

/// Gate for combining multiple process-shutdown intent sources.
///
/// Only `Running -> Draining -> Forced` is admitted. Duplicate asks,
/// force-before-drain, and regressions after force are ignored. This is useful
/// when a consumer combines the signal layer with an admin endpoint,
/// orchestrator hook, or another process-event source and wants exactly-once
/// lifecycle orchestration. Transitions take `&mut self`, so sources on
/// several threads share one instance behind a lock, and each transition is
/// decided while that lock is held.
#[derive(Debug)]
pub struct ShutdownLifecycleGate {
    phase: u8,
}

impl View for ShutdownLifecycleGate {
    type V = ShutdownLifecyclePhase;

    closed spec fn view(&self) -> ShutdownLifecyclePhase {
        phase_from_raw(self.phase)
    }
}

impl Default for ShutdownLifecycleGate {
    fn default() -> (r: Self)
        ensures
            r@ == ShutdownLifecyclePhase::Running,
    {
        Self::new()
    }
}

impl ShutdownLifecycleGate {
    /// Construct a gate in the running phase.
    pub fn new() -> (r: Self)
        ensures
            r@ == ShutdownLifecyclePhase::Running,
    {
        ShutdownLifecycleGate { phase: RUNNING }
    }

    /// Restore a gate from its stored phase byte (`0` running, `1` draining,
    /// `2` forced). Any other byte reads as forced.
    pub fn from_raw_phase(raw: u8) -> (r: Self)
        ensures
            r@ == phase_from_raw(raw),
    {
        ShutdownLifecycleGate { phase: raw }
    }

    /// Current monotonic process-shutdown phase.
    pub fn phase(&self) -> (r: ShutdownLifecyclePhase)
        ensures
            r == self@,
    {
        ShutdownLifecyclePhase::from_raw_fail_closed(self.phase)
    }

    /// Whether new application work may still be admitted by the consumer.
    ///
    /// This is only an intent observation; actual request admission remains the
    /// consumer's responsibility.
    pub fn is_accepting_work(&self) -> (r: bool)
        ensures
            r == (self@ == ShutdownLifecyclePhase::Running),
    {
        self.phase() == ShutdownLifecyclePhase::Running
    }

    /// Whether explicit force escalation has been accepted.
    pub fn is_forced(&self) -> (r: bool)
        ensures
            r == (self@ == ShutdownLifecyclePhase::Forced),
    {
        self.phase() == ShutdownLifecyclePhase::Forced
    }

    /// Accept the first request to begin graceful drain.
    ///
    /// Returns `true` only for the single `Running -> Draining` transition.
    pub fn try_begin_drain(&mut self) -> (r: bool)
        ensures
            (final(self)@, r) == lifecycle_step(old(self)@, LifecycleRequest::Drain),
    {
        if self.phase == RUNNING {
            self.phase = DRAINING;
            true
        } else {
            false
        }
    }

    /// Accept the first force request after draining has begun.
    ///
    /// A force request while still running is rejected rather than skipping the
    /// grace phase. Returns `true` only for `Draining -> Forced`.
    pub fn try_force(&mut self) -> (r: bool)
        ensures
            (final(self)@, r) == lifecycle_step(old(self)@, LifecycleRequest::Force),
    {
        if self.phase == DRAINING {
            self.phase = FORCED;
            true
        } else {
            false
        }
    }

    /// Apply a lifecycle action emitted by the shared signal layer.
    ///
    /// The action's reason remains owned by the caller for logging/exit policy;
    /// this gate only deduplicates and orders the phase transition.
    pub fn try_apply(&mut self, action: ShutdownAction) -> (r: bool)
        ensures
            (final(self)@, r) == lifecycle_step(
                old(self)@,
                if action is Force {
                    LifecycleRequest::Force
                } else {
                    LifecycleRequest::Drain
                },
            ),
    {
        match action {
            ShutdownAction::Drain(_) => self.try_begin_drain(),
            ShutdownAction::Force(_) => self.try_force(),
        }
    }
}

} // verus!
