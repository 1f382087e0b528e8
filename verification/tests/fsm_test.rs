use std::collections::HashSet;

use mavfleet::events::{EventKind, EventLog};
use mavfleet::fsm::{legal_arcs, transition, FsmCause, FsmState, CAUSES};
use mavfleet::registry::Registry;
use mavfleet::slot::Slot;

#[test]
fn transition_table_is_total_and_closed() {
    let legal: HashSet<(FsmState, FsmState, FsmCause)> = legal_arcs().into_iter().collect();
    assert!(legal.contains(&(FsmState::Init, FsmState::Spawning, FsmCause::Spawn)));
    assert!(legal.contains(&(FsmState::Booting, FsmState::Ready, FsmCause::TelemetryValid)));
    assert!(legal.contains(&(FsmState::Ready, FsmState::Active, FsmCause::TaskAccepted)));
    assert!(legal.contains(&(FsmState::Active, FsmState::Rtl, FsmCause::GeofenceBreach)));
    assert!(legal.contains(&(FsmState::Rtl, FsmState::Landed, FsmCause::DisarmObserved)));
    assert!(legal.contains(&(FsmState::Landed, FsmState::Ready, FsmCause::Rearm)));
    assert!(legal.contains(&(FsmState::Fault, FsmState::Spawning, FsmCause::RestartOnFault)));
    for s in FsmState::ALL {
        assert!(
            legal.iter().any(|(f, _, _)| *f == s),
            "{} has no outgoing arcs",
            s.name()
        );
    }
    let total: usize = FsmState::ALL.len() * CAUSES.len();
    assert_eq!(total, 8 * 21);
    assert!(legal.len() < total, "some transitions must be illegal");
}

#[test]
fn illegal_transitions_rejected() {
    assert!(transition(FsmState::Ready, FsmCause::TelemetryValid).is_none());
    assert!(transition(FsmState::Landed, FsmCause::TaskAccepted).is_none());
    assert!(transition(FsmState::Fault, FsmCause::TaskAccepted).is_none());
    assert!(transition(FsmState::Init, FsmCause::TaskAccepted).is_none());
    assert!(transition(FsmState::Active, FsmCause::Spawn).is_none());
    assert!(transition(FsmState::Booting, FsmCause::TaskAccepted).is_none());
}

#[test]
fn every_cause_appears_in_at_least_one_arc() {
    let legal = legal_arcs();
    for c in CAUSES {
        assert!(
            legal.iter().any(|(_, _, cause)| *cause == c),
            "cause {c:?} unreachable"
        );
    }
}

#[test]
fn canonical_f3_trace() {
    let s = FsmState::Active;
    let s2 = transition(s, FsmCause::HeartbeatLoss).unwrap();
    assert_eq!(s2, FsmState::Rtl);
    let s3 = transition(s2, FsmCause::DisarmObserved).unwrap();
    assert_eq!(s3, FsmState::Landed);
}

#[test]
fn legal_arcs_are_the_transitions() {
    let arcs = legal_arcs();
    let mut n = 0;
    for s in FsmState::ALL {
        for c in CAUSES {
            if let Some(to) = transition(s, c) {
                n += 1;
                assert!(arcs.contains(&(s, to, c)));
            }
        }
    }
    assert_eq!(arcs.len(), n);
    assert_eq!(arcs.len(), 31);
    let distinct: HashSet<(FsmState, FsmState, FsmCause)> = arcs.iter().copied().collect();
    assert_eq!(distinct.len(), 31);
    assert!(FsmState::ALL.iter().all(|s| arcs.iter().any(|a| a.0 == *s)));
    assert!(CAUSES.iter().all(|c| arcs.iter().any(|a| a.2 == *c)));
}

#[test]
fn names_of_states_and_causes() {
    assert_eq!(FsmState::Booting.name(), "BOOTING");
    assert_eq!(FsmCause::HeartbeatLoss.name(), "heartbeat_loss");
    assert!(FsmState::Rtl.is_flying());
    assert!(!FsmState::Landed.is_flying());
}

fn setup() -> (Registry, EventLog) {
    (Registry::new(2), EventLog::in_memory())
}

#[test]
fn forcing_keeps_to_the_table() {
    let (mut r, mut log) = setup();
    assert_eq!(r.force_transition(1, FsmCause::Spawn, &mut log), Some(FsmState::Spawning));
    assert_eq!(r.force_transition(1, FsmCause::TaskAccepted, &mut log), Some(FsmState::Spawning));
    assert_eq!(r.force_transition(2, FsmCause::Spawn, &mut log), None);
    assert_eq!(r.fsm(0), Some(FsmState::Init));
    assert_eq!(log.total(), 2);
    assert_eq!(log.all()[1].kind, EventKind::FsmRejected);
}

#[test]
fn full_lifecycle_walk() {
    let (mut r, mut log) = setup();
    assert_eq!(r.apply_transition(0, FsmCause::Spawn, &mut log), Some(FsmState::Spawning));
    assert_eq!(r.apply_transition(0, FsmCause::Px4Launched, &mut log), Some(FsmState::Booting));
    assert_eq!(r.apply_transition(0, FsmCause::TelemetryValid, &mut log), Some(FsmState::Ready));
    assert_eq!(r.apply_transition(0, FsmCause::TaskAccepted, &mut log), Some(FsmState::Active));
    assert_eq!(r.apply_transition(0, FsmCause::HeartbeatLoss, &mut log), Some(FsmState::Rtl));
    assert_eq!(r.apply_transition(0, FsmCause::DisarmObserved, &mut log), Some(FsmState::Landed));
    assert_eq!(r.apply_transition(0, FsmCause::Rearm, &mut log), Some(FsmState::Ready));
}

#[test]
fn illegal_arc_keeps_state_and_logs() {
    let (mut r, mut log) = setup();
    r.apply_transition(0, FsmCause::Spawn, &mut log);
    let before = r.fsm(0).unwrap();
    let after = r.apply_transition(0, FsmCause::TaskAccepted, &mut log);
    assert_eq!(after, Some(before));
    let kinds: Vec<EventKind> = log.all().iter().map(|e| e.kind).collect();
    assert!(kinds.contains(&EventKind::FsmRejected));
}

#[test]
fn bring_up_booting_gate_requires_telemetry_valid() {
    let (mut r, mut log) = setup();
    r.apply_transition(1, FsmCause::Spawn, &mut log);
    r.apply_transition(1, FsmCause::Px4Launched, &mut log);
    assert_eq!(r.fsm(1).unwrap(), FsmState::Booting);
    assert!(r.apply_transition(1, FsmCause::TaskAccepted, &mut log).is_some());
    assert_eq!(r.fsm(1).unwrap(), FsmState::Booting);
    assert_eq!(r.apply_transition(1, FsmCause::TelemetryValid, &mut log), Some(FsmState::Ready));
}

#[test]
fn a_vehicle_out_of_range_has_no_state() {
    let (mut r, mut log) = setup();
    assert_eq!(r.apply_transition(2, FsmCause::Spawn, &mut log), None);
    assert_eq!(r.fsm(2), None);
    assert!(r.snapshot(2).is_none());
    assert_eq!(log.total(), 0);
    assert_eq!(r.indices(), vec![0, 1]);
    assert_eq!(r.len(), 2);
}

#[test]
fn the_log_keeps_its_tail() {
    let mut log = EventLog::in_memory();
    for i in 0..5 {
        log.log(EventKind::SupervisorAction, Some(i), format!("line {i}"));
    }
    let tail = log.tail(2);
    assert_eq!(tail.len(), 2);
    assert_eq!(tail[0].text, "line 3");
    assert_eq!(tail[1].vehicle, Some(4));
    assert_eq!(log.tail(99).len(), 5);
}

#[test]
fn slot_roundtrip_and_version() {
    let mut slot = Slot::new(0u32);
    assert_eq!(slot.read(), 0);
    assert_eq!(slot.version(), 0);
    slot.write(|v| *v = 7);
    assert_eq!(slot.read(), 7);
    assert_eq!(slot.version(), 1);
}
