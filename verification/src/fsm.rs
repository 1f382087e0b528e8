//! The vehicle state machine: which cause takes a vehicle from which state to
//! which.

use vstd::prelude::*;

verus! {

#[derive(Debug, Clone, Copy, PartialEq, Eq, Hash, Structural)]
pub enum FsmState {
    Init,
    Spawning,
    Booting,
    Ready,
    Active,
    Rtl,
    Landed,
    Fault,
}

/// Every state, in order.
pub const ALL_STATES: [FsmState; 8] = [
    FsmState::Init,
    FsmState::Spawning,
    FsmState::Booting,
    FsmState::Ready,
    FsmState::Active,
    FsmState::Rtl,
    FsmState::Landed,
    FsmState::Fault,
];

impl FsmState {
    /// Every state, in order.
    pub const ALL: [FsmState; 8] = ALL_STATES;

    pub open spec fn text(self) -> Seq<char> {
        match self {
            FsmState::Init => "INIT"@,
            FsmState::Spawning => "SPAWNING"@,
            FsmState::Booting => "BOOTING"@,
            FsmState::Ready => "READY"@,
            FsmState::Active => "ACTIVE"@,
            FsmState::Rtl => "RTL"@,
            FsmState::Landed => "LANDED"@,
            FsmState::Fault => "FAULT"@,
        }
    }

    pub fn name(&self) -> (r: &'static str)
        ensures
            r@ == self.text(),
    {
        match self {
            FsmState::Init => "INIT",
            FsmState::Spawning => "SPAWNING",
            FsmState::Booting => "BOOTING",
            FsmState::Ready => "READY",
            FsmState::Active => "ACTIVE",
            FsmState::Rtl => "RTL",
            FsmState::Landed => "LANDED",
            FsmState::Fault => "FAULT",
        }
    }

    /// Airborne from the supervisor's point of view.
    pub fn is_flying(self) -> (r: bool)
        ensures
            r == (self is Active || self is Rtl),
    {
        matches!(self, FsmState::Active | FsmState::Rtl)
    }

    pub open spec fn rank(self) -> int {
        match self {
            FsmState::Init => 0,
            FsmState::Spawning => 1,
            FsmState::Booting => 2,
            FsmState::Ready => 3,
            FsmState::Active => 4,
            FsmState::Rtl => 5,
            FsmState::Landed => 6,
            FsmState::Fault => 7,
        }
    }
}

/// What can move a vehicle from one state to another.
#[derive(Debug, Clone, Copy, PartialEq, Eq, Hash, Structural)]
pub enum FsmCause {
    Spawn,
    SpawnFailure,
    Px4Launched,
    TelemetryValid,
    TaskAccepted,
    TaskComplete,
    GeofenceBreach,
    GeofenceBreachLand,
    HeartbeatLoss,
    HeartbeatLossEscalation,
    BatteryLow,
    BatteryCritical,
    CommandFailure,
    OffboardDropout,
    SupervisorRtl,
    LandCommand,
    DisarmObserved,
    Estop,
    ProcessDeath,
    Rearm,
    RestartOnFault,
}

/// Every cause, in order.
pub const CAUSES: [FsmCause; 21] = [
    FsmCause::Spawn,
    FsmCause::SpawnFailure,
    FsmCause::Px4Launched,
    FsmCause::TelemetryValid,
    FsmCause::TaskAccepted,
    FsmCause::TaskComplete,
    FsmCause::GeofenceBreach,
    FsmCause::GeofenceBreachLand,
    FsmCause::HeartbeatLoss,
    FsmCause::HeartbeatLossEscalation,
    FsmCause::BatteryLow,
    FsmCause::BatteryCritical,
    FsmCause::CommandFailure,
    FsmCause::OffboardDropout,
    FsmCause::SupervisorRtl,
    FsmCause::LandCommand,
    FsmCause::DisarmObserved,
    FsmCause::Estop,
    FsmCause::ProcessDeath,
    FsmCause::Rearm,
    FsmCause::RestartOnFault,
];

impl FsmCause {
    pub open spec fn text(self) -> Seq<char> {
        match self {
            FsmCause::Spawn => "spawn"@,
            FsmCause::SpawnFailure => "spawn_failure"@,
            FsmCause::Px4Launched => "px4_launched"@,
            FsmCause::TelemetryValid => "telemetry_valid"@,
            FsmCause::TaskAccepted => "task_accepted"@,
            FsmCause::TaskComplete => "task_complete"@,
            FsmCause::GeofenceBreach => "geofence_breach"@,
            FsmCause::GeofenceBreachLand => "geofence_breach_land"@,
            FsmCause::HeartbeatLoss => "heartbeat_loss"@,
            FsmCause::HeartbeatLossEscalation => "heartbeat_loss_escalation"@,
            FsmCause::BatteryLow => "battery_low"@,
            FsmCause::BatteryCritical => "battery_critical"@,
            FsmCause::CommandFailure => "command_failure"@,
            FsmCause::OffboardDropout => "offboard_dropout"@,
            FsmCause::SupervisorRtl => "supervisor_rtl"@,
            FsmCause::LandCommand => "land_command"@,
            FsmCause::DisarmObserved => "disarm_observed"@,
            FsmCause::Estop => "estop"@,
            FsmCause::ProcessDeath => "process_death"@,
            FsmCause::Rearm => "rearm"@,
            FsmCause::RestartOnFault => "restart_on_fault"@,
        }
    }

    pub fn name(&self) -> (r: &'static str)
        ensures
            r@ == self.text(),
    {
        match self {
            FsmCause::Spawn => "spawn",
            FsmCause::SpawnFailure => "spawn_failure",
            FsmCause::Px4Launched => "px4_launched",
            FsmCause::TelemetryValid => "telemetry_valid",
            FsmCause::TaskAccepted => "task_accepted",
            FsmCause::TaskComplete => "task_complete",
            FsmCause::GeofenceBreach => "geofence_breach",
            FsmCause::GeofenceBreachLand => "geofence_breach_land",
            FsmCause::HeartbeatLoss => "heartbeat_loss",
            FsmCause::HeartbeatLossEscalation => "heartbeat_loss_escalation",
            FsmCause::BatteryLow => "battery_low",
            FsmCause::BatteryCritical => "battery_critical",
            FsmCause::CommandFailure => "command_failure",
            FsmCause::OffboardDropout => "offboard_dropout",
            FsmCause::SupervisorRtl => "supervisor_rtl",
            FsmCause::LandCommand => "land_command",
            FsmCause::DisarmObserved => "disarm_observed",
            FsmCause::Estop => "estop",
            FsmCause::ProcessDeath => "process_death",
            FsmCause::Rearm => "rearm",
            FsmCause::RestartOnFault => "restart_on_fault",
        }
    }

    pub open spec fn rank(self) -> int {
        match self {
            FsmCause::Spawn => 0,
            FsmCause::SpawnFailure => 1,
            FsmCause::Px4Launched => 2,
            FsmCause::TelemetryValid => 3,
            FsmCause::TaskAccepted => 4,
            FsmCause::TaskComplete => 5,
            FsmCause::GeofenceBreach => 6,
            FsmCause::GeofenceBreachLand => 7,
            FsmCause::HeartbeatLoss => 8,
            FsmCause::HeartbeatLossEscalation => 9,
            FsmCause::BatteryLow => 10,
            FsmCause::BatteryCritical => 11,
            FsmCause::CommandFailure => 12,
            FsmCause::OffboardDropout => 13,
            FsmCause::SupervisorRtl => 14,
            FsmCause::LandCommand => 15,
            FsmCause::DisarmObserved => 16,
            FsmCause::Estop => 17,
            FsmCause::ProcessDeath => 18,
            FsmCause::Rearm => 19,
            FsmCause::RestartOnFault => 20,
        }
    }
}

/// The transition table.
pub open spec fn arc(from: FsmState, cause: FsmCause) -> Option<FsmState> {
    match (from, cause) {
        (FsmState::Init, FsmCause::Spawn) => Some(FsmState::Spawning),
        (FsmState::Spawning, FsmCause::Px4Launched) => Some(FsmState::Booting),
        (FsmState::Spawning, FsmCause::SpawnFailure) => Some(FsmState::Fault),
        (FsmState::Spawning, FsmCause::ProcessDeath) => Some(FsmState::Fault),
        (FsmState::Spawning, FsmCause::Estop) => Some(FsmState::Fault),
        (FsmState::Booting, FsmCause::TelemetryValid) => Some(FsmState::Ready),
        (FsmState::Booting, FsmCause::ProcessDeath) => Some(FsmState::Fault),
        (FsmState::Booting, FsmCause::Estop) => Some(FsmState::Fault),
        (FsmState::Ready, FsmCause::TaskAccepted) => Some(FsmState::Active),
        (FsmState::Ready, FsmCause::ProcessDeath) => Some(FsmState::Fault),
        (FsmState::Ready, FsmCause::Estop) => Some(FsmState::Fault),
        (FsmState::Active, FsmCause::TaskComplete) => Some(FsmState::Rtl),
        (FsmState::Active, FsmCause::BatteryLow) => Some(FsmState::Rtl),
        (FsmState::Active, FsmCause::GeofenceBreach) => Some(FsmState::Rtl),
        (FsmState::Active, FsmCause::HeartbeatLoss) => Some(FsmState::Rtl),
        (FsmState::Active, FsmCause::OffboardDropout) => Some(FsmState::Rtl),
        (FsmState::Active, FsmCause::CommandFailure) => Some(FsmState::Rtl),
        (FsmState::Active, FsmCause::SupervisorRtl) => Some(FsmState::Rtl),
        (FsmState::Active, FsmCause::BatteryCritical) => Some(FsmState::Landed),
        (FsmState::Active, FsmCause::GeofenceBreachLand) => Some(FsmState::Landed),
        (FsmState::Active, FsmCause::HeartbeatLossEscalation) => Some(FsmState::Landed),
        (FsmState::Active, FsmCause::LandCommand) => Some(FsmState::Landed),
        (FsmState::Active, FsmCause::Estop) => Some(FsmState::Landed),
        (FsmState::Active, FsmCause::ProcessDeath) => Some(FsmState::Fault),
        (FsmState::Rtl, FsmCause::DisarmObserved) => Some(FsmState::Landed),
        (FsmState::Rtl, FsmCause::LandCommand) => Some(FsmState::Landed),
        (FsmState::Rtl, FsmCause::HeartbeatLossEscalation) => Some(FsmState::Landed),
        (FsmState::Rtl, FsmCause::Estop) => Some(FsmState::Landed),
        (FsmState::Rtl, FsmCause::ProcessDeath) => Some(FsmState::Fault),
        (FsmState::Landed, FsmCause::Rearm) => Some(FsmState::Ready),
        (FsmState::Fault, FsmCause::RestartOnFault) => Some(FsmState::Spawning),
        _ => None,
    }
}

/// Where a cause takes a vehicle, or `None` where the arc is illegal.
pub fn transition(from: FsmState, cause: FsmCause) -> (r: Option<FsmState>)
    ensures
        r == arc(from, cause),
{
    match from {
        FsmState::Init => match cause {
            FsmCause::Spawn => Some(FsmState::Spawning),
            _ => None,
        },
        FsmState::Spawning => match cause {
            FsmCause::Px4Launched => Some(FsmState::Booting),
            FsmCause::SpawnFailure | FsmCause::ProcessDeath | FsmCause::Estop => Some(
                FsmState::Fault,
            ),
            _ => None,
        },
        FsmState::Booting => match cause {
            FsmCause::TelemetryValid => Some(FsmState::Ready),
            FsmCause::ProcessDeath | FsmCause::Estop => Some(FsmState::Fault),
            _ => None,
        },
        FsmState::Ready => match cause {
            FsmCause::TaskAccepted => Some(FsmState::Active),
            FsmCause::ProcessDeath | FsmCause::Estop => Some(FsmState::Fault),
            _ => None,
        },
        FsmState::Active => match cause {
            FsmCause::TaskComplete
            | FsmCause::BatteryLow
            | FsmCause::GeofenceBreach
            | FsmCause::HeartbeatLoss
            | FsmCause::OffboardDropout
            | FsmCause::CommandFailure
            | FsmCause::SupervisorRtl => Some(FsmState::Rtl),
            FsmCause::BatteryCritical
            | FsmCause::GeofenceBreachLand
            | FsmCause::HeartbeatLossEscalation
            | FsmCause::LandCommand
            | FsmCause::Estop => Some(FsmState::Landed),
            FsmCause::ProcessDeath => Some(FsmState::Fault),
            _ => None,
        },
        FsmState::Rtl => match cause {
            FsmCause::DisarmObserved
            | FsmCause::LandCommand
            | FsmCause::HeartbeatLossEscalation
            | FsmCause::Estop => Some(FsmState::Landed),
            FsmCause::ProcessDeath => Some(FsmState::Fault),
            _ => None,
        },
        FsmState::Landed => match cause {
            FsmCause::Rearm => Some(FsmState::Ready),
            _ => None,
        },
        FsmState::Fault => match cause {
            FsmCause::RestartOnFault => Some(FsmState::Spawning),
            _ => None,
        },
    }
}

pub open spec fn arc_rank(a: (FsmState, FsmState, FsmCause)) -> int {
    a.0.rank() * 21 + a.2.rank()
}

/// `s` holds exactly the arcs of the table, ordered by state and then by cause.
pub open spec fn lists_arcs(s: Seq<(FsmState, FsmState, FsmCause)>) -> bool {
    &&& forall|i: int| 0 <= i < s.len() ==> arc((#[trigger] s[i]).0, s[i].2) == Some(s[i].1)
    &&& forall|from: FsmState, to: FsmState, cause: FsmCause|
        arc(from, cause) == Some(to) ==> #[trigger] s.contains((from, to, cause))
    &&& forall|i: int, j: int|
        0 <= i < j < s.len() ==> arc_rank(#[trigger] s[i]) < arc_rank(#[trigger] s[j])
}

/// Every legal arc, once, ordered by state and then by cause.
pub fn legal_arcs() -> (r: Vec<(FsmState, FsmState, FsmCause)>)
    ensures
        lists_arcs(r@),
{
    let states = ALL_STATES;
    let causes = CAUSES;
    let mut arcs: Vec<(FsmState, FsmState, FsmCause)> = Vec::new();
    let mut i: usize = 0;
    assert(forall|s: FsmState| states@[#[trigger] s.rank()] == s);
    assert(forall|c: FsmCause| causes@[#[trigger] c.rank()] == c);
    while i < 8
        invariant
            i <= 8,
            states@.len() == 8,
            causes@.len() == 21,
            forall|s: FsmState| states@[#[trigger] s.rank()] == s,
            forall|c: FsmCause| causes@[#[trigger] c.rank()] == c,
            forall|k: int| 0 <= k < 8 ==> (#[trigger] states@[k]).rank() == k,
            forall|k: int| 0 <= k < 21 ==> (#[trigger] causes@[k]).rank() == k,
            forall|k: int|
                0 <= k < arcs@.len() ==> arc((#[trigger] arcs@[k]).0, arcs@[k].2) == Some(
                    arcs@[k].1,
                ) && arc_rank(arcs@[k]) < i * 21,
            forall|from: FsmState, to: FsmState, cause: FsmCause|
                from.rank() < i && arc(from, cause) == Some(to) ==> #[trigger] arcs@.contains(
                    (from, to, cause),
                ),
            forall|a: int, b: int|
                0 <= a < b < arcs@.len() ==> arc_rank(#[trigger] arcs@[a]) < arc_rank(
                    #[trigger] arcs@[b],
                ),
        decreases 8 - i,
    {
        let from: FsmState = states[i];
        let mut j: usize = 0;
        while j < 21
            invariant
                i < 8,
                j <= 21,
                states@.len() == 8,
                causes@.len() == 21,
                from == states@[i as int],
                from.rank() == i,
                forall|s: FsmState| states@[#[trigger] s.rank()] == s,
                forall|c: FsmCause| causes@[#[trigger] c.rank()] == c,
                forall|k: int| 0 <= k < 21 ==> (#[trigger] causes@[k]).rank() == k,
                forall|k: int|
                    0 <= k < arcs@.len() ==> arc((#[trigger] arcs@[k]).0, arcs@[k].2) == Some(
                        arcs@[k].1,
                    ) && arc_rank(arcs@[k]) < i * 21 + j,
                forall|f: FsmState, to: FsmState, cause: FsmCause|
                    (f.rank() < i || (f.rank() == i && cause.rank() < j)) && arc(f, cause) == Some(
                        to,
                    ) ==> #[trigger] arcs@.contains((f, to, cause)),
                forall|a: int, b: int|
                    0 <= a < b < arcs@.len() ==> arc_rank(#[trigger] arcs@[a]) < arc_rank(
                        #[trigger] arcs@[b],
                    ),
            decreases 21 - j,
        {
            let cause: FsmCause = causes[j];
            let ghost before = arcs@;
            match transition(from, cause) {
                Some(to) => {
                    arcs.push((from, to, cause));
                    assert(arcs@[before.len() as int] == (from, to, cause));
                    assert forall|f: FsmState, t: FsmState, c: FsmCause|
                        (f.rank() < i || (f.rank() == i && c.rank() < j + 1)) && arc(f, c) == Some(
                            t,
                        ) implies #[trigger] arcs@.contains((f, t, c)) by {
                        if f.rank() == i && c.rank() == j {
                            assert(f == states@[f.rank()] && c == causes@[c.rank()]);
                        } else {
                            assert(before.contains((f, t, c)));
                            let k = choose|k: int|
                                0 <= k < before.len() && before[k] == (f, t, c);
                            assert(arcs@[k] == (f, t, c));
                        }
                    }
                },
                None => {
                    assert forall|f: FsmState, t: FsmState, c: FsmCause|
                        (f.rank() < i || (f.rank() == i && c.rank() < j + 1)) && arc(f, c) == Some(
                            t,
                        ) implies #[trigger] arcs@.contains((f, t, c)) by {
                        if f.rank() == i && c.rank() == j {
                            assert(f == states@[f.rank()] && c == causes@[c.rank()]);
                        }
                    }
                },
            }
            j = j + 1;
        }
        i = i + 1;
    }
    arcs
}

// Laws.

/// Every state can be left.
pub proof fn every_state_has_an_exit(from: FsmState)
    ensures
        exists|cause: FsmCause| (#[trigger] arc(from, cause)) is Some,
{
    match from {
        FsmState::Init => assert(arc(from, FsmCause::Spawn) is Some),
        FsmState::Landed => assert(arc(from, FsmCause::Rearm) is Some),
        FsmState::Fault => assert(arc(from, FsmCause::RestartOnFault) is Some),
        _ => assert(arc(from, FsmCause::ProcessDeath) is Some),
    }
}

/// Every cause moves a vehicle out of some state.
pub proof fn every_cause_is_used(cause: FsmCause)
    ensures
        exists|from: FsmState| (#[trigger] arc(from, cause)) is Some,
{
    match cause {
        FsmCause::Spawn => assert(arc(FsmState::Init, cause) is Some),
        FsmCause::SpawnFailure => assert(arc(FsmState::Spawning, cause) is Some),
        FsmCause::Px4Launched => assert(arc(FsmState::Spawning, cause) is Some),
        FsmCause::TelemetryValid => assert(arc(FsmState::Booting, cause) is Some),
        FsmCause::TaskAccepted => assert(arc(FsmState::Ready, cause) is Some),
        FsmCause::DisarmObserved => assert(arc(FsmState::Rtl, cause) is Some),
        FsmCause::Rearm => assert(arc(FsmState::Landed, cause) is Some),
        FsmCause::RestartOnFault => assert(arc(FsmState::Fault, cause) is Some),
        _ => assert(arc(FsmState::Active, cause) is Some),
    }
}

spec fn arc_table() -> Seq<(FsmState, FsmState, FsmCause)> {
    seq![
        (FsmState::Init, FsmState::Spawning, FsmCause::Spawn),
        (FsmState::Spawning, FsmState::Fault, FsmCause::SpawnFailure),
        (FsmState::Spawning, FsmState::Booting, FsmCause::Px4Launched),
        (FsmState::Spawning, FsmState::Fault, FsmCause::Estop),
        (FsmState::Spawning, FsmState::Fault, FsmCause::ProcessDeath),
        (FsmState::Booting, FsmState::Ready, FsmCause::TelemetryValid),
        (FsmState::Booting, FsmState::Fault, FsmCause::Estop),
        (FsmState::Booting, FsmState::Fault, FsmCause::ProcessDeath),
        (FsmState::Ready, FsmState::Active, FsmCause::TaskAccepted),
        (FsmState::Ready, FsmState::Fault, FsmCause::Estop),
        (FsmState::Ready, FsmState::Fault, FsmCause::ProcessDeath),
        (FsmState::Active, FsmState::Rtl, FsmCause::TaskComplete),
        (FsmState::Active, FsmState::Rtl, FsmCause::GeofenceBreach),
        (FsmState::Active, FsmState::Landed, FsmCause::GeofenceBreachLand),
        (FsmState::Active, FsmState::Rtl, FsmCause::HeartbeatLoss),
        (FsmState::Active, FsmState::Landed, FsmCause::HeartbeatLossEscalation),
        (FsmState::Active, FsmState::Rtl, FsmCause::BatteryLow),
        (FsmState::Active, FsmState::Landed, FsmCause::BatteryCritical),
        (FsmState::Active, FsmState::Rtl, FsmCause::CommandFailure),
        (FsmState::Active, FsmState::Rtl, FsmCause::OffboardDropout),
        (FsmState::Active, FsmState::Rtl, FsmCause::SupervisorRtl),
        (FsmState::Active, FsmState::Landed, FsmCause::LandCommand),
        (FsmState::Active, FsmState::Landed, FsmCause::Estop),
        (FsmState::Active, FsmState::Fault, FsmCause::ProcessDeath),
        (FsmState::Rtl, FsmState::Landed, FsmCause::HeartbeatLossEscalation),
        (FsmState::Rtl, FsmState::Landed, FsmCause::LandCommand),
        (FsmState::Rtl, FsmState::Landed, FsmCause::DisarmObserved),
        (FsmState::Rtl, FsmState::Landed, FsmCause::Estop),
        (FsmState::Rtl, FsmState::Fault, FsmCause::ProcessDeath),
        (FsmState::Landed, FsmState::Ready, FsmCause::Rearm),
        (FsmState::Fault, FsmState::Spawning, FsmCause::RestartOnFault),
    ]
}

spec fn arc_position(a: (FsmState, FsmState, FsmCause)) -> int {
    match (a.0, a.2) {
        (FsmState::Init, FsmCause::Spawn) => 0,
        (FsmState::Spawning, FsmCause::SpawnFailure) => 1,
        (FsmState::Spawning, FsmCause::Px4Launched) => 2,
        (FsmState::Spawning, FsmCause::Estop) => 3,
        (FsmState::Spawning, FsmCause::ProcessDeath) => 4,
        (FsmState::Booting, FsmCause::TelemetryValid) => 5,
        (FsmState::Booting, FsmCause::Estop) => 6,
        (FsmState::Booting, FsmCause::ProcessDeath) => 7,
        (FsmState::Ready, FsmCause::TaskAccepted) => 8,
        (FsmState::Ready, FsmCause::Estop) => 9,
        (FsmState::Ready, FsmCause::ProcessDeath) => 10,
        (FsmState::Active, FsmCause::TaskComplete) => 11,
        (FsmState::Active, FsmCause::GeofenceBreach) => 12,
        (FsmState::Active, FsmCause::GeofenceBreachLand) => 13,
        (FsmState::Active, FsmCause::HeartbeatLoss) => 14,
        (FsmState::Active, FsmCause::HeartbeatLossEscalation) => 15,
        (FsmState::Active, FsmCause::BatteryLow) => 16,
        (FsmState::Active, FsmCause::BatteryCritical) => 17,
        (FsmState::Active, FsmCause::CommandFailure) => 18,
        (FsmState::Active, FsmCause::OffboardDropout) => 19,
        (FsmState::Active, FsmCause::SupervisorRtl) => 20,
        (FsmState::Active, FsmCause::LandCommand) => 21,
        (FsmState::Active, FsmCause::Estop) => 22,
        (FsmState::Active, FsmCause::ProcessDeath) => 23,
        (FsmState::Rtl, FsmCause::HeartbeatLossEscalation) => 24,
        (FsmState::Rtl, FsmCause::LandCommand) => 25,
        (FsmState::Rtl, FsmCause::DisarmObserved) => 26,
        (FsmState::Rtl, FsmCause::Estop) => 27,
        (FsmState::Rtl, FsmCause::ProcessDeath) => 28,
        (FsmState::Landed, FsmCause::Rearm) => 29,
        (FsmState::Fault, FsmCause::RestartOnFault) => 30,
        _ => 31,
    }
}

proof fn arc_table_is_the_table()
    ensures
        arc_table().no_duplicates(),
        arc_table().len() == 31,
        forall|from: FsmState, to: FsmState, cause: FsmCause|
            #[trigger] arc_table().contains((from, to, cause)) <==> arc(from, cause) == Some(to),
{
    let t = arc_table();
    assert forall|i: int, j: int| 0 <= i < t.len() && 0 <= j < t.len() && i != j implies t[i]
        != t[j] by {
        assert(arc_position(t[i]) == i);
        assert(arc_position(t[j]) == j);
    }
    assert forall|from: FsmState, to: FsmState, cause: FsmCause|
        arc(from, cause) == Some(to) implies #[trigger] t.contains((from, to, cause)) by {
        assert(t[arc_position((from, to, cause))] == (from, to, cause));
    }
}

pub open spec fn some_arc_leaves(
    arcs: Seq<(FsmState, FsmState, FsmCause)>,
    from: FsmState,
) -> bool {
    exists|i: int| 0 <= i < arcs.len() && (#[trigger] arcs[i]).0 == from
}

pub open spec fn some_arc_takes(
    arcs: Seq<(FsmState, FsmState, FsmCause)>,
    cause: FsmCause,
) -> bool {
    exists|i: int| 0 <= i < arcs.len() && (#[trigger] arcs[i]).2 == cause
}

/// The legal arcs are thirty-one and no two are equal; a triple is one of them
/// exactly where the table leads from its first state, on its cause, to its
/// second; every state is left by one and every cause takes one.
pub proof fn legal_arcs_are_the_table(arcs: Seq<(FsmState, FsmState, FsmCause)>)
    requires
        lists_arcs(arcs),
    ensures
        arcs.no_duplicates(),
        arcs.len() == 31,
        forall|from: FsmState, to: FsmState, cause: FsmCause|
            #[trigger] arcs.contains((from, to, cause)) <==> arc(from, cause) == Some(to),
        forall|from: FsmState| #[trigger] some_arc_leaves(arcs, from),
        forall|cause: FsmCause| #[trigger] some_arc_takes(arcs, cause),
{
    assert forall|from: FsmState, to: FsmState, cause: FsmCause| #[trigger]
        arcs.contains((from, to, cause)) implies arc(from, cause) == Some(to) by {
        let i = choose|i: int| 0 <= i < arcs.len() && arcs[i] == (from, to, cause);
        assert(arcs[i].0 == from);
    }
    let table = arc_table();
    arc_table_is_the_table();
    assert(arcs.to_set() =~= table.to_set()) by {
        assert forall|a: (FsmState, FsmState, FsmCause)| arcs.contains(a) <==> #[trigger]
            table.contains(a) by {
            assert(a == (a.0, a.1, a.2));
            assert(arcs.contains((a.0, a.1, a.2)) <==> table.contains((a.0, a.1, a.2)));
        }
    }
    arcs.unique_seq_to_set();
    table.unique_seq_to_set();
    assert forall|from: FsmState| #[trigger] some_arc_leaves(arcs, from) by {
        every_state_has_an_exit(from);
        let cause = choose|cause: FsmCause| (#[trigger] arc(from, cause)) is Some;
        assert(arcs.contains((from, arc(from, cause)->0, cause)));
    }
    assert forall|cause: FsmCause| #[trigger] some_arc_takes(arcs, cause) by {
        every_cause_is_used(cause);
        let from = choose|from: FsmState| (#[trigger] arc(from, cause)) is Some;
        assert(arcs.contains((from, arc(from, cause)->0, cause)));
    }
}

/// A vehicle takes off only from READY and only on an accepted task, and an
/// emergency stop never leaves it flying.
pub proof fn flight_starts_with_a_task(from: FsmState, cause: FsmCause, to: FsmState)
    requires
        arc(from, cause) == Some(to),
    ensures
        (to is Active) <==> (from is Ready && cause is TaskAccepted),
        cause is Estop ==> !(to is Active) && !(to is Rtl),
        to is Ready ==> (from is Booting && cause is TelemetryValid) || (from is Landed
            && cause is Rearm),
        to is Fault ==> cause is ProcessDeath || cause is Estop || cause is SpawnFailure,
        to != from,
{
}

/// The death of its processes takes every vehicle that has any and is not
/// down to FAULT; from there only a restart leads on.
pub proof fn process_death_is_a_fault(from: FsmState, cause: FsmCause)
    ensures
        arc(from, FsmCause::ProcessDeath) == (if from is Init || from is Landed || from is Fault {
            None
        } else {
            Some(FsmState::Fault)
        }),
        arc(FsmState::Fault, cause) is Some <==> cause is RestartOnFault,
{
}

} // verus!
