use ores_clis_core::{ShutdownAction, ShutdownLifecycleGate, ShutdownLifecyclePhase, ShutdownReason};

#[test]
fn phases_have_stable_lowercase_spellings() {
    assert_eq!(ShutdownLifecyclePhase::Running.as_str(), "running");
    assert_eq!(ShutdownLifecyclePhase::Draining.as_str(), "draining");
    assert_eq!(ShutdownLifecyclePhase::Forced.as_str(), "forced");
    assert_eq!(ShutdownLifecyclePhase::Forced.to_string(), "forced");
}

#[test]
fn default_gate_is_running_and_accepting_work() {
    let gate = ShutdownLifecycleGate::default();
    assert_eq!(gate.phase(), ShutdownLifecyclePhase::Running);
    assert!(gate.is_accepting_work());
    assert!(!gate.is_forced());
}

#[test]
fn lifecycle_is_monotonic() {
    let mut gate = ShutdownLifecycleGate::new();
    assert!(gate.try_begin_drain());
    assert_eq!(gate.phase(), ShutdownLifecyclePhase::Draining);
    assert!(!gate.is_accepting_work());
    assert!(!gate.try_begin_drain());
    assert!(gate.try_force());
    assert_eq!(gate.phase(), ShutdownLifecyclePhase::Forced);
    assert!(gate.is_forced());
    assert!(!gate.try_force());
    assert!(!gate.try_begin_drain());
}

#[test]
fn force_before_drain_is_rejected_without_changing_phase() {
    let mut gate = ShutdownLifecycleGate::new();
    assert!(!gate.try_force());
    assert_eq!(gate.phase(), ShutdownLifecyclePhase::Running);
    assert!(gate.is_accepting_work());
}

#[test]
fn signal_actions_map_to_the_same_monotonic_gate() {
    let mut gate = ShutdownLifecycleGate::new();
    assert!(gate.try_apply(ShutdownAction::Drain(ShutdownReason::SigTerm)));
    assert!(!gate.try_apply(ShutdownAction::Drain(ShutdownReason::SigInt)));
    assert!(gate.try_apply(ShutdownAction::Force(ShutdownReason::CtrlD)));
    assert!(!gate.try_apply(ShutdownAction::Force(ShutdownReason::CtrlD)));
    assert_eq!(gate.phase(), ShutdownLifecyclePhase::Forced);
}

#[test]
fn corrupted_internal_phase_fails_closed() {
    let mut gate = ShutdownLifecycleGate::from_raw_phase(u8::MAX);
    assert_eq!(gate.phase(), ShutdownLifecyclePhase::Forced);
    assert!(!gate.is_accepting_work());
    assert!(gate.is_forced());
    assert!(!gate.try_begin_drain());
    assert!(!gate.try_force());
}

// Further cases of the lifecycle gate.

#[test]
fn repeated_drain_requests_admit_exactly_one_transition() {
    let mut gate = ShutdownLifecycleGate::new();
    let admitted = (0..32).filter(|_| gate.try_begin_drain()).count();
    assert_eq!(admitted, 1);
    assert_eq!(gate.phase(), ShutdownLifecyclePhase::Draining);
}

#[test]
fn repeated_force_requests_after_drain_admit_exactly_one_transition() {
    let mut gate = ShutdownLifecycleGate::new();
    assert!(gate.try_begin_drain());
    let admitted = (0..32).filter(|_| gate.try_force()).count();
    assert_eq!(admitted, 1);
    assert_eq!(gate.phase(), ShutdownLifecyclePhase::Forced);
}

#[test]
fn known_raw_phases_map_to_their_phase() {
    assert_eq!(ShutdownLifecycleGate::from_raw_phase(0).phase(), ShutdownLifecyclePhase::Running);
    assert_eq!(ShutdownLifecycleGate::from_raw_phase(1).phase(), ShutdownLifecyclePhase::Draining);
    assert_eq!(ShutdownLifecycleGate::from_raw_phase(2).phase(), ShutdownLifecyclePhase::Forced);
    assert_eq!(ShutdownLifecycleGate::from_raw_phase(3).phase(), ShutdownLifecyclePhase::Forced);
}

#[test]
fn phases_are_ordered_and_default_to_running() {
    assert!(ShutdownLifecyclePhase::Running < ShutdownLifecyclePhase::Draining);
    assert!(ShutdownLifecyclePhase::Draining < ShutdownLifecyclePhase::Forced);
    assert_eq!(ShutdownLifecyclePhase::default(), ShutdownLifecyclePhase::Running);
    assert_eq!(ShutdownLifecyclePhase::Draining.to_string(), "draining");
}

#[test]
fn actions_carry_their_reason_and_kind() {
    let drain = ShutdownAction::Drain(ShutdownReason::SigInt);
    let force = ShutdownAction::Force(ShutdownReason::CtrlD);
    assert!(!drain.is_force());
    assert!(force.is_force());
    assert_eq!(drain.reason(), ShutdownReason::SigInt);
    assert_eq!(force.reason(), ShutdownReason::CtrlD);
}

#[test]
fn mixed_askers_admit_one_drain_and_one_force() {
    let mut gate = ShutdownLifecycleGate::new();
    let outcomes = [
        gate.try_force(),
        gate.try_begin_drain(),
        gate.try_begin_drain(),
        gate.try_force(),
        gate.try_force(),
    ];
    assert_eq!(outcomes, [false, true, false, true, false]);
}
