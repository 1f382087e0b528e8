//! How a run goes: what each vehicle may become, and when.

use vstd::prelude::*;
#[allow(unused_imports)]
use crate::events::EventKind;
#[allow(unused_imports)]
use crate::fleet::{cleared, FleetModel, Phase, TaskModel};
#[allow(unused_imports)]
use crate::float::{f32_order_is_by_rank, f32_rank, f32_ranked, f64_order_is_by_rank, f64_rank};
#[allow(unused_imports)]
use crate::fsm::{arc, FsmCause, FsmState};
#[allow(unused_imports)]
use crate::operator::{airframe_applied, flight_ended, goto_begun, Ending};
#[allow(unused_imports)]
use crate::operator_laws::{is_place, places_are_on_the_globe};
#[allow(unused_imports)]
use crate::registry::stepped;
#[allow(unused_imports)]
use crate::supervisor::{
    activity_noted, all_died, brought_up, died, ended, exit_status, flags_raised, flown, fresh_run,
    gated, health_noted, landing_observed, link_noted, moved, offboard_echoed, queued_for, refusal,
    restart_ended, rtl_echoed, run_aborted, spawn_ended, started, streams_stopped, taken_in,
    tasks_shown, tick_begun, ticked, uploaded, vehicle_aborted, vehicle_ticked, vehicles_aborted,
    vehicles_ticked, DeadPair, OperatorWaypoint, PlacementFacts, SupAction, SupModel, VehicleInput,
};
#[allow(unused_imports)]
use crate::text::{decimal, texts};

verus! {

// The state machine.

/// What each cause does, cause by cause: from which states it leads on, and
/// where to. From any other state it leads nowhere.
pub open spec fn leads_to(from: FsmState, cause: FsmCause) -> Option<FsmState> {
    let in_flight = from is Active || from is Rtl;
    let coming_up = from is Spawning || from is Booting || from is Ready;
    match cause {
        FsmCause::Spawn => if from is Init {
            Some(FsmState::Spawning)
        } else {
            None
        },
        FsmCause::SpawnFailure => if from is Spawning {
            Some(FsmState::Fault)
        } else {
            None
        },
        FsmCause::Px4Launched => if from is Spawning {
            Some(FsmState::Booting)
        } else {
            None
        },
        FsmCause::TelemetryValid => if from is Booting {
            Some(FsmState::Ready)
        } else {
            None
        },
        FsmCause::TaskAccepted => if from is Ready {
            Some(FsmState::Active)
        } else {
            None
        },
        FsmCause::DisarmObserved => if from is Rtl {
            Some(FsmState::Landed)
        } else {
            None
        },
        FsmCause::Rearm => if from is Landed {
            Some(FsmState::Ready)
        } else {
            None
        },
        FsmCause::RestartOnFault => if from is Fault {
            Some(FsmState::Spawning)
        } else {
            None
        },
        FsmCause::ProcessDeath => if in_flight || coming_up {
            Some(FsmState::Fault)
        } else {
            None
        },
        FsmCause::Estop => if in_flight {
            Some(FsmState::Landed)
        } else if coming_up {
            Some(FsmState::Fault)
        } else {
            None
        },
        FsmCause::LandCommand | FsmCause::HeartbeatLossEscalation => if in_flight {
            Some(FsmState::Landed)
        } else {
            None
        },
        FsmCause::BatteryCritical | FsmCause::GeofenceBreachLand => if from is Active {
            Some(FsmState::Landed)
        } else {
            None
        },
        FsmCause::TaskComplete | FsmCause::GeofenceBreach | FsmCause::HeartbeatLoss
        | FsmCause::BatteryLow | FsmCause::CommandFailure | FsmCause::OffboardDropout
        | FsmCause::SupervisorRtl => if from is Active {
            Some(FsmState::Rtl)
        } else {
            None
        },
    }
}

/// Every cause leads where it should, and nowhere else; a cause that leads
/// nowhere leaves the state as it is.
pub proof fn causes_lead_where_they_should(from: FsmState, cause: FsmCause)
    ensures
        arc(from, cause) == leads_to(from, cause),
        leads_to(from, cause) is None ==> stepped(from, cause) == from,
        leads_to(from, cause) matches Some(to) ==> stepped(from, cause) == to,
{
}

/// A cause moves one vehicle and logs one line about it: a transition where it
/// leads somewhere, else a rejection. Nothing else changes.
pub proof fn one_vehicle_moves(m: SupModel, i: u8, cause: FsmCause)
    requires
        i < m.states.len(),
    ensures
        ({
            let r = moved(m, i, cause);
            &&& r.states.len() == m.states.len()
            &&& r.states[i as int] == (match leads_to(m.states[i as int], cause) {
                Some(to) => to,
                None => m.states[i as int],
            })
            &&& forall|j: int| 0 <= j < m.states.len() && j != i ==> r.states[j] == m.states[j]
            &&& r.log.len() == m.log.len() + 1
            &&& r.log.last().vehicle == Some(i)
            &&& r.log.last().kind == (if leads_to(m.states[i as int], cause) is Some {
                EventKind::FsmTransition
            } else {
                EventKind::FsmRejected
            })
            &&& r.vehicles == m.vehicles
            &&& r.fleet == m.fleet
            &&& r.ctxs == m.ctxs
            &&& r.actions == m.actions
        }),
{
}

// Time.

/// `ms` have passed since a moment.
pub open spec fn passed(since: u64, now: u64, ms: int) -> bool {
    now - since > ms
}

// One vehicle's tick.

/// A booting vehicle becomes ready once it has been heard and knows its local
/// position, and its home position is set or more than 45 seconds have passed
/// since it first waited for one. As it becomes ready, its datalink failsafe
/// is switched off, once. Any other vehicle is left alone.
pub proof fn booting_vehicle_becomes_ready(m: SupModel, i: int, now: u64)
    requires
        0 <= i < m.states.len() <= 255,
        m.vehicles.len() == m.states.len(),
        m.ctxs.len() == m.states.len(),
    ensures
        ({
            let v = m.vehicles[i];
            let r = gated(m, i, now);
            let heard = m.states[i] is Booting && v.heartbeat_seen && v.local_position_seen;
            let waited = m.ctxs[i].gate_since_ms matches Some(t) && passed(t, now, 45_000);
            &&& heard && (v.home_set || waited) ==> r.states[i] is Ready && r.ctxs[i].nav_dll_done
                && (!m.ctxs[i].nav_dll_done ==> r.actions == m.actions.push(
                SupAction::DisableDatalinkFailsafe(i as u8),
            )) && (m.ctxs[i].nav_dll_done ==> r.actions == m.actions)
            &&& heard && !v.home_set && !waited ==> r.states == m.states && r.actions == m.actions
                && r.ctxs[i].gate_since_ms == (match m.ctxs[i].gate_since_ms {
                Some(t) => Some(t),
                None => Some(now),
            })
            &&& !heard ==> r == m
        }),
{
    assert(gated(m, i, now).states =~= m.states || gated(m, i, now).states[i] is Ready);
}

/// A returning vehicle has landed once it is disarmed and more than two
/// seconds have passed since its return began, or two minutes have in any
/// case; until then it returns.
pub proof fn returning_vehicle_lands(m: SupModel, i: int, now: u64)
    requires
        0 <= i < m.states.len() <= 255,
        m.vehicles.len() == m.states.len(),
        m.ctxs.len() == m.states.len(),
        m.states[i] is Rtl,
    ensures
        ({
            let r = landing_observed(m, i, now);
            let since = match m.ctxs[i].rtl_since_ms {
                Some(t) => t,
                None => now,
            };
            let down = passed(since, now, 120_000) || (!m.vehicles[i].armed && passed(
                since,
                now,
                2_000,
            ));
            &&& down ==> r.states[i] is Landed && r.ctxs[i].landed_since_ms == Some(now)
                && r.ctxs[i].rtl_since_ms is None
            &&& !down ==> r.states == m.states && r.ctxs[i].rtl_since_ms == Some(since) && r.log
                == m.log
        }),
{
}

/// After a vehicle's tick the fleet shows of it: the link figures, the health
/// flags and the queued tasks it was given, and as flying on its own exactly
/// where it is armed in an automatic or offboard mode. What is shown of the
/// others stays.
pub proof fn tick_shows_the_vehicle(m: SupModel, i: int, input: VehicleInput)
    requires
        0 <= i < m.states.len() <= 255,
        m.vehicles.len() == m.states.len(),
        m.ctxs.len() == m.states.len(),
        m.fleet.mission_active.len() == m.states.len(),
        m.fleet.flags.len() == m.states.len(),
        m.fleet.vehicle_tasks.len() == m.states.len(),
    ensures
        ({
            let v = m.vehicles[i];
            let main = (v.mode_word as int / 0x1_0000) % 0x100;
            let linked = link_noted(m, i, input);
            let flying = activity_noted(m, i);
            let healthy = health_noted(m, i, texts(input.flags@));
            let shown = tasks_shown(m, i);
            &&& linked.vehicles[i].link == input.link
            &&& linked.vehicles[i].recv_rate_hz == input.recv_rate_hz
            &&& linked.vehicles[i].msg_counts == input.msg_counts@
            &&& linked.vehicles[i].position_ned_m == v.position_ned_m
            &&& linked.vehicles[i].mode_word == v.mode_word
            &&& linked.vehicles[i].armed == v.armed
            &&& flying.fleet.mission_active[i] == (v.armed && (main == 4 || main == 6))
            &&& healthy.fleet.flags[i] == texts(input.flags@)
            &&& healthy.ctxs[i].flags == texts(input.flags@)
            &&& healthy.states == m.states
            &&& shown.fleet.vehicle_tasks[i].queue == queued_for(
                m.fleet.tasks,
                i,
                m.fleet.tasks.len(),
            )
            &&& shown.fleet.vehicle_tasks[i].current is None
            &&& forall|j: int|
                0 <= j < m.states.len() && j != i ==> #[trigger] linked.vehicles[j] == m.vehicles[j]
            &&& forall|j: int|
                0 <= j < m.states.len() && j != i ==> #[trigger] flying.fleet.mission_active[j]
                    == m.fleet.mission_active[j]
            &&& forall|j: int|
                0 <= j < m.states.len() && j != i ==> #[trigger] healthy.fleet.flags[j]
                    == m.fleet.flags[j]
            &&& forall|j: int|
                0 <= j < m.states.len() && j != i ==> #[trigger] shown.fleet.vehicle_tasks[j]
                    == m.fleet.vehicle_tasks[j]
        }),
{
    let w = m.vehicles[i].mode_word;
    assert((w >> 16) & 0xFF == (w / 0x1_0000) % 0x100) by (bit_vector);
    flags_touch_only_the_log(
        m,
        i,
        m.ctxs[i].flags,
        texts(input.flags@),
        texts(input.flags@).len(),
    );
}

proof fn flags_touch_only_the_log(
    m: SupModel,
    i: int,
    before: Seq<Seq<char>>,
    flags: Seq<Seq<char>>,
    n: nat,
)
    ensures
        flags_raised(m, i, before, flags, n) == (SupModel {
            log: flags_raised(m, i, before, flags, n).log,
            ..m
        }),
    decreases n,
{
    if n > 0 {
        flags_touch_only_the_log(m, i, before, flags, (n - 1) as nat);
    }
}

/// The queue shown of a vehicle is made of the ids of the queued tasks that
/// are assigned to it, in the order of the board.
pub proof fn shown_queue_is_the_vehicles_own(tasks: Seq<TaskModel>, t: TaskModel, i: int)
    ensures
        queued_for(tasks.push(t), i, tasks.len() + 1) == (if t.assigned == Some(i as u8)
            && t.state is Queued {
            queued_for(tasks, i, tasks.len()).push(t.id)
        } else {
            queued_for(tasks, i, tasks.len())
        }),
        queued_for(tasks, i, 0).len() == 0,
{
    earlier_tasks_decide(tasks, t, i, tasks.len());
}

proof fn earlier_tasks_decide(tasks: Seq<TaskModel>, t: TaskModel, i: int, n: nat)
    requires
        n <= tasks.len(),
    ensures
        queued_for(tasks.push(t), i, n) == queued_for(tasks, i, n),
    decreases n,
{
    if n > 0 {
        earlier_tasks_decide(tasks, t, i, (n - 1) as nat);
        assert(tasks.push(t)[n - 1] == tasks[n - 1]);
    }
}

/// Every health flag that did not hold before is logged, in order; one that
/// did is not.
pub proof fn new_flags_are_logged(
    m: SupModel,
    i: int,
    before: Seq<Seq<char>>,
    flags: Seq<Seq<char>>,
    n: nat,
)
    requires
        n < flags.len(),
    ensures
        ({
            let s = flags_raised(m, i, before, flags, n);
            let r = flags_raised(m, i, before, flags, n + 1);
            &&& before.contains(flags[n as int]) ==> r.log == s.log
            &&& !before.contains(flags[n as int]) ==> r.log.len() == s.log.len() + 1
                && r.log.drop_last() == s.log && r.log.last().kind == EventKind::HealthFlag
                && r.log.last().vehicle == Some(i as u8) && r.log.last().text
                == "health flag raised: "@ + flags[n as int]
            &&& flags_raised(m, i, before, flags, 0) == m
        }),
{
    let s = flags_raised(m, i, before, flags, n);
    let r = flags_raised(m, i, before, flags, n + 1);
    if !before.contains(flags[n as int]) {
        assert(r.log.drop_last() =~= s.log);
    }
}

// Deaths, aborts and the end.

/// The death of a vehicle's processes faults that vehicle, unless it is
/// faulted, landed or not spawned, and nobody else; a vehicle that is in fault
/// already is not logged again.
pub proof fn death_faults_its_vehicle(m: SupModel, d: DeadPair)
    requires
        d.index < m.states.len(),
    ensures
        ({
            let r = died(m, d);
            let s = m.states[d.index as int];
            &&& r.states.len() == m.states.len()
            &&& s is Spawning || s is Booting || s is Ready || s is Active || s is Rtl
                ==> r.states[d.index as int] is Fault
            &&& s is Init || s is Landed || s is Fault ==> r.states[d.index as int] == s
            &&& s is Fault ==> r == m
            &&& !(s is Fault) ==> r.log.len() == m.log.len() + 2
            &&& forall|j: int|
                0 <= j < m.states.len() && j != d.index ==> #[trigger] r.states[j] == m.states[j]
            &&& r.vehicles == m.vehicles
            &&& r.fleet == m.fleet
        }),
{
}

/// An abort of one vehicle stops its stream; in flight it is landed and
/// disarmed, while it comes up it is taken out of service, and on the ground
/// it stays as it is.
pub proof fn abort_of_one_vehicle(m: SupModel, i: u8)
    requires
        i < m.states.len(),
    ensures
        ({
            let r = vehicle_aborted(m, i);
            let s = m.states[i as int];
            let stop = SupAction::StopStream(i);
            let land = SupAction::LandAndDisarm(i);
            &&& s is Active || s is Rtl ==> r.states[i as int] is Landed && r.actions
                == m.actions.push(stop).push(land)
            &&& s is Spawning || s is Booting || s is Ready ==> r.states[i as int] is Fault
                && r.actions == m.actions.push(stop)
            &&& s is Init || s is Landed || s is Fault ==> r.states == m.states && r.actions
                == m.actions.push(stop)
            &&& forall|j: int|
                0 <= j < m.states.len() && j != i ==> #[trigger] r.states[j] == m.states[j]
        }),
{
}

/// An aborted run goes on for four seconds more, so that what it set off can
/// take effect, and the phase says that it was aborted.
pub proof fn abort_waits_four_seconds(m: SupModel, now: u64, reason: Seq<char>)
    requires
        m.grace is None,
        now + 4_000 <= u64::MAX,
    ensures
        ({
            let r = run_aborted(m, now, reason);
            &&& r.grace == Some((now + 4_000) as u64)
            &&& r.fleet.aborted
            &&& r.fleet.phase is Aborted
            &&& run_aborted(r, now, reason) == r
        }),
{
    aborting_keeps_the_fleet(
        crate::supervisor::logging(
            SupModel {
                fleet: FleetModel { aborted: true, phase: Phase::Aborted, ..m.fleet },
                ..m
            },
            EventKind::RunBoundary,
            None,
            "run ABORTED: "@ + reason,
        ),
        m.ctxs.len(),
    );
}

proof fn aborting_keeps_the_fleet(m: SupModel, n: nat)
    ensures
        vehicles_aborted(m, n).fleet == m.fleet,
    decreases n,
{
    if n > 0 {
        aborting_keeps_the_fleet(m, (n - 1) as nat);
    }
}

/// A tick stops the run where its grace time or its deadline has passed, and
/// at no other time. A fleet of which every vehicle is in fault is aborted.
pub proof fn tick_stops_in_time(
    m: SupModel,
    now: u64,
    dead: Seq<DeadPair>,
    inputs: Seq<VehicleInput>,
)
    ensures
        ({
            let s = tick_begun(m, now, dead);
            let (r, outcome) = ticked(m, now, dead, inputs);
            let all_faulted = s.ctxs.len() > 0 && forall|i: int|
                0 <= i < s.ctxs.len() ==> #[trigger] s.states[i] is Fault;
            &&& outcome is Stop <==> (match s.grace {
                Some(g) => now > g,
                None => now > s.deadline,
            })
            &&& s.grace is None && now > s.deadline ==> r.fleet.phase is Timeout
            &&& s.grace is None && now <= s.deadline && all_faulted ==> r == run_aborted(
                s,
                now,
                "all vehicles FAULT"@,
            )
            &&& s.grace is Some ==> r == s
        }),
{
}

/// The run's clock starts when the fleet is up: five minutes from then it is
/// over. It waits for setup where it is to, else the fleet comes up.
pub proof fn run_lasts_five_minutes(m: SupModel, now: u64, hold: bool)
    requires
        now + 300_000 <= u64::MAX,
    ensures
        ({
            let r = brought_up(m, now, hold);
            &&& r.deadline == now + 300_000
            &&& hold ==> r.fleet.phase is SetupHold
            &&& !hold ==> r.fleet.phase is BringUp
            &&& r.states == m.states
            &&& r.log == m.log
            &&& r.fleet.aborted == m.fleet.aborted
        }),
{
}

/// A spawned vehicle boots; one whose spawn failed is in fault, with the
/// reason in the log.
pub proof fn spawn_ends_in_boot_or_fault(m: SupModel, i: u8, reason: Seq<char>)
    requires
        i < m.states.len(),
        m.states[i as int] is Spawning,
    ensures
        spawn_ended(m, i, None).states == m.states.update(i as int, FsmState::Booting),
        spawn_ended(m, i, Some(reason)).states == m.states.update(i as int, FsmState::Fault),
        spawn_ended(m, i, Some(reason)).log.last().text == "spawn failed: "@ + reason,
        spawn_ended(m, i, Some(reason)).log.last().vehicle == Some(i),
        restart_ended(m, i, None).states == m.states,
        restart_ended(m, i, Some(reason)).states == m.states,
{
}

/// The end of a run stops every stream, drops every link and leaves the phase.
pub proof fn end_drops_everything(m: SupModel, seconds: Seq<char>, i: int)
    requires
        0 <= i < m.ctxs.len() <= 255,
        m.fleet.count == m.ctxs.len(),
    ensures
        ({
            let r = ended(m, seconds);
            &&& r.actions.contains(SupAction::StopStream(i as u8))
            &&& r.actions.len() == m.actions.len() + m.ctxs.len()
            &&& r.fleet.linked.len() == m.fleet.count
            &&& !r.fleet.linked[i]
            &&& r.fleet.phase == m.fleet.phase
            &&& r.states == m.states
        }),
{
    let s = crate::supervisor::logging(
        m,
        EventKind::RunBoundary,
        None,
        "run end (phase "@ + m.fleet.phase.text() + ") after "@ + seconds + "s"@,
    );
    streams_are_stopped(s, m.ctxs.len());
    let r = ended(m, seconds);
    assert(r.actions[m.actions.len() + i] == SupAction::StopStream(i as u8));
}

proof fn streams_are_stopped(m: SupModel, n: nat)
    requires
        n <= 255,
    ensures
        ({
            let r = streams_stopped(m, n);
            &&& r.actions.len() == m.actions.len() + n
            &&& forall|i: int|
                0 <= i < n ==> #[trigger] r.actions[m.actions.len() + i] == SupAction::StopStream(
                    i as u8,
                )
            &&& r.fleet == m.fleet
            &&& r.states == m.states
        }),
    decreases n,
{
    if n > 0 {
        streams_are_stopped(m, (n - 1) as nat);
        let b = streams_stopped(m, (n - 1) as nat);
        let r = streams_stopped(m, n);
        assert forall|i: int| 0 <= i < n implies #[trigger] r.actions[m.actions.len() + i]
            == SupAction::StopStream(i as u8) by {
            if i < n - 1 {
                assert(b.actions[m.actions.len() + i] == SupAction::StopStream(i as u8));
            }
        }
    }
}

/// A fresh run has every vehicle of the fleet in its first state, nothing
/// logged, nothing to do and no deadline yet.
pub proof fn fresh_run_is_blank(count: u8, i: int)
    requires
        0 <= i < count,
    ensures
        ({
            let r = fresh_run(count);
            &&& r.states.len() == count
            &&& r.vehicles.len() == count
            &&& r.states[i] is Init
            &&& r.vehicles[i].index == i
            &&& !r.vehicles[i].heartbeat_seen
            &&& r.log.len() == 0
            &&& r.actions.len() == 0
            &&& r.grace is None
            &&& r.deadline == u64::MAX
            &&& r.operator_seq == 0
            &&& r.fleet.count == count
            &&& !r.fleet.aborted
            &&& !r.fleet.estop
            &&& r.fleet.tasks.len() == 0
        }),
{
}

// The task board.

/// A waypoint can be flown to: it hovers no negative time, its place is on the
/// globe, its altitude is finite and not below zero, and it lies inside the
/// fence and its altitude box.
pub open spec fn can_be_flown(item: OperatorWaypoint, f: PlacementFacts) -> bool {
    &&& !(f32_ranked(item.hover_s) && f32_rank(item.hover_s) < 0)
    &&& is_place(item.lat_deg, item.lon_deg)
    &&& 0 <= f64_rank(item.alt_m) < 0x7FF0_0000_0000_0000
    &&& f.in_fence
    &&& f.altitude_ok
}

/// A waypoint is refused exactly where it cannot be flown to.
pub proof fn waypoints_are_refused_for_cause(item: OperatorWaypoint, f: PlacementFacts)
    ensures
        refusal(item, f) is None <==> can_be_flown(item, f),
{
    f32_order_is_by_rank(item.hover_s, 0);
    f64_order_is_by_rank(item.alt_m, 0);
    places_are_on_the_globe(item.lat_deg, item.lon_deg);
}

/// The waypoint after `n` others becomes a pending task at its own position,
/// with nobody assigned and under the next number, where it can be flown to;
/// else it is listed as refused, under its label or its place in the upload.
pub proof fn next_waypoint_is_taken_or_refused(
    m: SupModel,
    items: Seq<OperatorWaypoint>,
    facts: Seq<PlacementFacts>,
    n: nat,
)
    requires
        n < items.len(),
        items.len() == facts.len(),
    ensures
        ({
            let b = taken_in(m, items, facts, n);
            let u = taken_in(m, items, facts, n + 1);
            let item = items[n as int];
            if can_be_flown(item, facts[n as int]) {
                let t = u.run.fleet.tasks.last();
                &&& u.run.fleet.tasks.len() == b.run.fleet.tasks.len() + 1
                &&& u.run.fleet.tasks.drop_last() == b.run.fleet.tasks
                &&& t.pos_ned_m == facts[n as int].position
                &&& t.assigned is None
                &&& t.state is Pending
                &&& t.hover_observed is None
                &&& u.run.operator_seq == b.run.operator_seq.wrapping_add(1)
                &&& t.id == "op"@ + decimal(u.run.operator_seq as nat)
                &&& u.accepted == b.accepted.push(t.id)
                &&& u.rejected == b.rejected
            } else {
                &&& u.run == b.run
                &&& u.accepted == b.accepted
                &&& u.rejected.len() == b.rejected.len() + 1
                &&& u.rejected.drop_last() == b.rejected
                &&& item.label matches Some(l) ==> u.rejected.last().0 == l@
                &&& item.label is None ==> u.rejected.last().0 == "item["@ + decimal(n) + "]"@
            }
        }),
{
    waypoints_are_refused_for_cause(items[n as int], facts[n as int]);
    let b = taken_in(m, items, facts, n);
    let u = taken_in(m, items, facts, n + 1);
    if can_be_flown(items[n as int], facts[n as int]) {
        assert(u.run.fleet.tasks.drop_last() =~= b.run.fleet.tasks);
    } else {
        assert(u.rejected.drop_last() =~= b.rejected);
    }
}

/// A mission can be started unless it runs already or the run is over, and
/// then the phase is running and nothing else moves.
pub proof fn mission_starts_from_setup(m: SupModel)
    ensures
        started(m).1 is Some <==> m.fleet.phase is Running || m.fleet.phase is Aborted
            || m.fleet.phase is Timeout,
        started(m).1 is Some ==> started(m).0 == m,
        started(m).1 is None ==> started(m).0.fleet.phase is Running && started(m).0.states
            == m.states && started(m).0.fleet.tasks == m.fleet.tasks,
{
}

/// A run that was aborted exits with two, any other with zero.
pub proof fn aborted_runs_exit_with_two(m: SupModel)
    ensures
        m.fleet.aborted ==> exit_status(m) == 2,
        !m.fleet.aborted ==> exit_status(m) == 0,
{
}

// Whole ticks.

/// The run has one place per vehicle in every list.
pub open spec fn in_step(m: SupModel) -> bool {
    &&& m.states.len() <= 255
    &&& m.vehicles.len() == m.states.len()
    &&& m.ctxs.len() == m.states.len()
    &&& m.fleet.mission_active.len() == m.states.len()
    &&& m.fleet.flags.len() == m.states.len()
    &&& m.fleet.vehicle_tasks.len() == m.states.len()
}

/// The vehicle is seen to be ready: it boots, has been heard, knows its local
/// position, and has its home or has waited for it for more than 45 seconds.
pub open spec fn seen_ready(m: SupModel, i: int, now: u64) -> bool {
    &&& m.states[i] is Booting
    &&& m.vehicles[i].heartbeat_seen
    &&& m.vehicles[i].local_position_seen
    &&& m.vehicles[i].home_set || (m.ctxs[i].gate_since_ms matches Some(t) && passed(
        t,
        now,
        45_000,
    ))
}

/// The vehicle is seen to have landed: it returns, and is disarmed after two
/// seconds or has returned for two minutes.
pub open spec fn seen_landed(m: SupModel, i: int, now: u64) -> bool {
    &&& m.states[i] is Rtl
    &&& m.ctxs[i].rtl_since_ms matches Some(t) && (passed(t, now, 120_000) || (
    !m.vehicles[i].armed && passed(t, now, 2_000)))
}

/// One tick takes a vehicle all the way: it becomes ready or landed where it
/// is seen to be and stays as it is otherwise, a mode it was asked to show is
/// remembered, and what the fleet shows of it is brought up to date. Nothing
/// of the other vehicles changes.
pub proof fn tick_takes_a_vehicle_all_the_way(m: SupModel, i: int, now: u64, input: VehicleInput)
    requires
        in_step(m),
        0 <= i < m.states.len(),
    ensures
        ({
            let r = vehicle_ticked(m, i, now, input);
            let v = m.vehicles[i];
            let main = (v.mode_word as int / 0x1_0000) % 0x100;
            &&& in_step(r)
            &&& r.states.len() == m.states.len()
            &&& seen_ready(m, i, now) ==> r.states[i] is Ready && r.ctxs[i].nav_dll_done
            &&& seen_landed(m, i, now) ==> r.states[i] is Landed
            &&& !seen_ready(m, i, now) && !seen_landed(m, i, now) ==> r.states[i] == m.states[i]
            &&& r.vehicles[i].link == input.link
            &&& r.vehicles[i].recv_rate_hz == input.recv_rate_hz
            &&& r.vehicles[i].msg_counts == input.msg_counts@
            &&& r.ctxs[i].saw_offboard_echo == (m.ctxs[i].saw_offboard_echo || v.mode_word
                == 0x0006_0000)
            &&& r.ctxs[i].saw_rtl_echo == (m.ctxs[i].saw_rtl_echo || v.mode_word == 0x0504_0000)
            &&& r.fleet.mission_active[i] == (v.armed && (main == 4 || main == 6))
            &&& r.fleet.flags[i] == texts(input.flags@)
            &&& r.fleet.vehicle_tasks[i].queue == queued_for(
                m.fleet.tasks,
                i,
                m.fleet.tasks.len(),
            )
            &&& r.fleet.tasks == m.fleet.tasks
            &&& r.fleet.phase == m.fleet.phase
            &&& r.fleet.linked == m.fleet.linked
            &&& r.grace == m.grace
            &&& r.deadline == m.deadline
            &&& forall|j: int|
                0 <= j < m.states.len() && j != i ==> #[trigger] r.states[j] == m.states[j]
            &&& forall|j: int|
                0 <= j < m.states.len() && j != i ==> #[trigger] r.vehicles[j] == m.vehicles[j]
            &&& forall|j: int|
                0 <= j < m.states.len() && j != i ==> #[trigger] r.ctxs[j] == m.ctxs[j]
            &&& forall|j: int|
                0 <= j < m.states.len() && j != i ==> #[trigger] r.fleet.mission_active[j]
                    == m.fleet.mission_active[j]
            &&& forall|j: int|
                0 <= j < m.states.len() && j != i ==> #[trigger] r.fleet.flags[j]
                    == m.fleet.flags[j]
        }),
{
    reveal(vehicle_ticked);
    let w = m.vehicles[i].mode_word;
    assert((w >> 16) & 0xFF == (w / 0x1_0000) % 0x100) by (bit_vector);
    let s1 = gated(link_noted(m, i, input), i, now);
    let s2 = activity_noted(rtl_echoed(offboard_echoed(s1, i), i), i);
    flags_touch_only_the_log(
        s2,
        i,
        s2.ctxs[i].flags,
        texts(input.flags@),
        texts(input.flags@).len(),
    );
    let s3 = health_noted(s2, i, texts(input.flags@));
    assert(s1.states[i] is Ready || s1.states == m.states);
    assert(s3.states == s1.states);
}

proof fn ticks_follow(m: SupModel, n: nat, now: u64, inputs: Seq<VehicleInput>, i: int)
    requires
        in_step(m),
        n <= m.states.len(),
        n <= inputs.len(),
        0 <= i < m.states.len(),
    ensures
        ({
            let r = vehicles_ticked(m, n, now, inputs);
            &&& in_step(r)
            &&& r.states.len() == m.states.len()
            &&& r.fleet.tasks == m.fleet.tasks
            &&& i >= n ==> r.states[i] == m.states[i] && r.vehicles[i] == m.vehicles[i] && r.ctxs[i]
                == m.ctxs[i]
            &&& i < n ==> r.vehicles[i].link == inputs[i].link && r.fleet.flags[i] == texts(
                inputs[i].flags@,
            ) && (seen_ready(m, i, now) ==> r.states[i] is Ready) && (seen_landed(m, i, now)
                ==> r.states[i] is Landed) && (!seen_ready(m, i, now) && !seen_landed(m, i, now)
                ==> r.states[i] == m.states[i])
        }),
    decreases n,
{
    if n > 0 {
        let k = (n - 1) as nat;
        ticks_follow(m, k, now, inputs, i);
        ticks_follow(m, k, now, inputs, k as int);
        let b = vehicles_ticked(m, k, now, inputs);
        tick_takes_a_vehicle_all_the_way(b, k as int, now, inputs[k as int]);
    }
}

/// A tick of a run that goes on looks after every vehicle, each with what was
/// put in for it.
pub proof fn every_vehicle_is_looked_after(
    m: SupModel,
    now: u64,
    inputs: Seq<VehicleInput>,
    i: int,
)
    requires
        in_step(m),
        m.states.len() <= inputs.len(),
        0 <= i < m.states.len(),
        m.grace is None,
        !m.fleet.estop,
        now <= m.deadline,
        exists|k: int| 0 <= k < m.states.len() && !(#[trigger] m.states[k] is Fault),
    ensures
        ({
            let (r, outcome) = ticked(m, now, Seq::empty(), inputs);
            &&& outcome is Continue
            &&& r.vehicles[i].link == inputs[i].link
            &&& r.fleet.flags[i] == texts(inputs[i].flags@)
            &&& seen_ready(m, i, now) ==> r.states[i] is Ready
            &&& seen_landed(m, i, now) ==> r.states[i] is Landed
            &&& !seen_ready(m, i, now) && !seen_landed(m, i, now) ==> r.states[i] == m.states[i]
        }),
{
    let s = tick_begun(m, now, Seq::empty());
    assert(s.states == m.states && s.ctxs == m.ctxs && s.vehicles == m.vehicles);
    let k = choose|k: int| 0 <= k < m.states.len() && !(#[trigger] m.states[k] is Fault);
    assert(!(s.states[k] is Fault));
    ticks_follow(s, s.ctxs.len(), now, inputs, i);
}

proof fn deaths_keep_faults(m: SupModel, dead: Seq<DeadPair>, i: int)
    requires
        0 <= i < m.states.len() <= 255,
        m.states[i] is Fault,
    ensures
        all_died(m, dead).states.len() == m.states.len(),
        all_died(m, dead).states[i] is Fault,
    decreases dead.len(),
{
    if dead.len() > 0 {
        deaths_keep_faults(died(m, dead[0]), dead.drop_first(), i);
    }
}

/// Every vehicle whose processes have died while it was in service is in fault
/// before anything else of the tick.
pub proof fn every_death_is_taken_in(m: SupModel, dead: Seq<DeadPair>, k: int)
    requires
        m.states.len() <= 255,
        0 <= k < dead.len(),
        dead[k].index < m.states.len(),
        ({
            let s = m.states[dead[k].index as int];
            s is Spawning || s is Booting || s is Ready || s is Active || s is Rtl || s is Fault
        }),
    ensures
        all_died(m, dead).states[dead[k].index as int] is Fault,
    decreases dead.len(),
{
    let i = dead[k].index as int;
    let r = died(m, dead[0]);
    if dead[0].index < m.states.len() {
        death_faults_its_vehicle(m, dead[0]);
    }
    if dead[0].index as int == i {
        deaths_keep_faults(r, dead.drop_first(), i);
    } else {
        assert(dead.drop_first()[k - 1] == dead[k]);
        every_death_is_taken_in(r, dead.drop_first(), k - 1);
    }
}

// What an operator sets off.

/// Landing or returning ends the flight of an active vehicle; holding, or any
/// of them for a vehicle that is not active, leaves it as it is. Each is
/// logged.
pub proof fn flights_end_as_asked(m: SupModel, index: u8)
    requires
        index < m.states.len(),
    ensures
        ({
            let land = flight_ended(m, index, Ending::Land);
            let home = flight_ended(m, index, Ending::ReturnHome);
            let hold = flight_ended(m, index, Ending::Hold);
            let active = m.states[index as int] is Active;
            &&& land.states == (if active {
                m.states.update(index as int, FsmState::Landed)
            } else {
                m.states
            })
            &&& home.states == (if active {
                m.states.update(index as int, FsmState::Rtl)
            } else {
                m.states
            })
            &&& hold.states == m.states
            &&& land.log.last().vehicle == Some(index)
            &&& home.log.last().vehicle == Some(index)
            &&& hold.log.last().vehicle == Some(index)
            &&& hold.log.len() == m.log.len() + 1
        }),
{
}

/// A ready vehicle that is sent somewhere becomes active; any other stays as
/// it is. An airframe that was written and echoed has its vehicle restarted,
/// one that was not has nobody restarted.
pub proof fn flights_and_restarts_begin(
    m: SupModel,
    index: u8,
    id: u32,
    lat: Seq<char>,
    lon: Seq<char>,
    alt: Seq<char>,
    target: Seq<char>,
    clamped: bool,
)
    requires
        index < m.states.len(),
        m.fleet.restart_requests.len() == m.states.len(),
    ensures
        goto_begun(m, index, lat, lon, alt, target, clamped).states == (if m.states[index as int]
            is Ready {
            m.states.update(index as int, FsmState::Active)
        } else {
            m.states
        }),
        airframe_applied(m, index, id, true).fleet.restart_requests
            == m.fleet.restart_requests.update(index as int, true),
        airframe_applied(m, index, id, false).fleet == m.fleet,
        airframe_applied(m, index, id, true).states == m.states,
{
}

/// An upload that replaces has cleared what waited before its own tasks are
/// added; one that does not leaves the board as it was in front of them.
pub proof fn upload_goes_behind_the_board(
    m: SupModel,
    items: Seq<OperatorWaypoint>,
    facts: Seq<PlacementFacts>,
    i: int,
)
    requires
        0 <= i < m.fleet.tasks.len(),
        items.len() == facts.len(),
        m.operator_seq + items.len() <= u32::MAX,
    ensures
        uploaded(m, items, facts, false).run.fleet.tasks[i] == m.fleet.tasks[i],
        ({
            let t = m.fleet.tasks[i];
            let r = uploaded(m, items, facts, true).run.fleet.tasks[i];
            &&& t.state is Pending || t.state is Queued ==> r.state is Cleared
            &&& !(t.state is Pending || t.state is Queued) ==> r == t
        }),
{
    crate::supervisor_laws::every_waypoint_is_answered(m, items, facts, items.len());
    let c = crate::supervisor::board_cleared(m);
    crate::supervisor_laws::every_waypoint_is_answered(c, items, facts, items.len());
    assert(c.fleet.tasks[i] == crate::fleet::cleared_task(m.fleet.tasks[i]));
    assert(taken_in(m, items, facts, items.len()).run.fleet.tasks[i] == m.fleet.tasks[i]);
    assert(taken_in(c, items, facts, items.len()).run.fleet.tasks[i] == c.fleet.tasks[i]);
}

} // verus!
