//! What holds of a run as a whole.

use vstd::prelude::*;
#[allow(unused_imports)]
use crate::fleet::Phase;
#[allow(unused_imports)]
use crate::fsm::FsmState;
#[allow(unused_imports)]
use crate::supervisor::{
    all_died, board_cleared, died, flags_raised, gated, later, refusal, run_aborted, started,
    taken_in, ticked, uploaded, vehicle_ticked, vehicles_aborted, vehicles_ticked, DeadPair,
    OperatorWaypoint, PlacementFacts, SupAction, SupModel, VehicleInput, ABORT_GRACE_MS,
    DISARM_SETTLE_MS, LAND_TIMEOUT_MS,
};
#[allow(unused_imports)]
use crate::text::{decimal, texts};

verus! {

/// On the ground for good: never started, landed, or out of service.
pub open spec fn grounded(s: FsmState) -> bool {
    s is Init || s is Landed || s is Fault
}

proof fn aborting_grounds(m: SupModel, n: nat)
    requires
        n <= m.states.len() <= 255,
    ensures
        ({
            let r = vehicles_aborted(m, n);
            &&& r.states.len() == m.states.len()
            &&& r.fleet == m.fleet
            &&& r.ctxs == m.ctxs
            &&& forall|i: int| 0 <= i < n ==> grounded(#[trigger] r.states[i])
            &&& forall|i: int| n <= i < m.states.len() ==> #[trigger] r.states[i] == m.states[i]
            &&& m.actions.is_prefix_of(r.actions)
            &&& forall|i: int|
                0 <= i < n ==> #[trigger] r.actions.contains(SupAction::StopStream(i as u8))
            &&& forall|i: int|
                0 <= i < n && (m.states[i] is Active || m.states[i] is Rtl)
                    ==> #[trigger] r.actions.contains(SupAction::LandAndDisarm(i as u8))
        }),
    decreases n,
{
    if n > 0 {
        let k = (n - 1) as nat;
        aborting_grounds(m, k);
        let b = vehicles_aborted(m, k);
        let r = vehicles_aborted(m, n);
        let stop = SupAction::StopStream(k as u8);
        let land = SupAction::LandAndDisarm(k as u8);
        assert(b.states[k as int] == m.states[k as int]);
        assert(r.actions == b.actions.push(stop) || r.actions == b.actions.push(stop).push(land));
        assert(r.actions[b.actions.len() as int] == stop);
        if m.states[k as int] is Active || m.states[k as int] is Rtl {
            assert(r.actions == b.actions.push(stop).push(land));
            assert(r.actions[b.actions.len() + 1int] == land);
        }
        assert forall|a: SupAction| b.actions.contains(a) implies r.actions.contains(a) by {
            let j = choose|j: int| 0 <= j < b.actions.len() && b.actions[j] == a;
            assert(r.actions[j] == a);
        }
        assert forall|i: int| 0 <= i < n implies #[trigger] r.actions.contains(
            SupAction::StopStream(i as u8),
        ) by {
            if i < k {
                assert(b.actions.contains(SupAction::StopStream(i as u8)));
            }
        }
        assert forall|i: int|
            0 <= i < n && (m.states[i] is Active || m.states[i] is Rtl) implies
            #[trigger] r.actions.contains(SupAction::LandAndDisarm(i as u8)) by {
            if i < k {
                assert(b.actions.contains(SupAction::LandAndDisarm(i as u8)));
            }
        }
        assert forall|i: int| 0 <= i < n implies grounded(#[trigger] r.states[i]) by {
            if i < k {
                assert(grounded(b.states[i]));
            }
        }
        assert forall|i: int| n <= i < m.states.len() implies #[trigger] r.states[i]
            == m.states[i] by {
            assert(b.states[i] == m.states[i]);
        }
    }
}

/// An abort leaves no vehicle in flight: every stream stops, every vehicle
/// that flew is landed and disarmed, and each one counts as down.
pub proof fn abort_grounds_the_fleet(m: SupModel, now: u64, reason: Seq<char>)
    requires
        m.grace is None,
        m.ctxs.len() == m.states.len(),
        m.states.len() <= 255,
    ensures
        ({
            let r = run_aborted(m, now, reason);
            &&& r.fleet.aborted && r.fleet.phase == Phase::Aborted
            &&& r.grace == Some(later(now, ABORT_GRACE_MS))
            &&& r.states.len() == m.states.len()
            &&& forall|i: int| 0 <= i < m.states.len() ==> grounded(#[trigger] r.states[i])
            &&& forall|i: int|
                0 <= i < m.states.len() ==> #[trigger] r.actions.contains(
                    SupAction::StopStream(i as u8),
                )
            &&& forall|i: int|
                0 <= i < m.states.len() && (m.states[i] is Active || m.states[i] is Rtl)
                    ==> #[trigger] r.actions.contains(SupAction::LandAndDisarm(i as u8))
        }),
{
    let s = crate::supervisor::logging(
        SupModel {
            fleet: crate::fleet::FleetModel { aborted: true, phase: Phase::Aborted, ..m.fleet },
            ..m
        },
        crate::events::EventKind::RunBoundary,
        None,
        "run ABORTED: "@ + reason,
    );
    aborting_grounds(s, m.ctxs.len());
}

/// A run is aborted once: a second abort changes nothing.
pub proof fn abort_happens_once(
    m: SupModel,
    now: u64,
    reason: Seq<char>,
    again: u64,
    other: Seq<char>,
)
    ensures
        run_aborted(run_aborted(m, now, reason), again, other) == run_aborted(m, now, reason),
{
}

proof fn deaths_leave_the_run(m: SupModel, dead: Seq<DeadPair>)
    ensures
        all_died(m, dead).grace == m.grace,
        all_died(m, dead).fleet == m.fleet,
        all_died(m, dead).ctxs == m.ctxs,
        all_died(m, dead).states.len() == m.states.len(),
        all_died(m, dead).vehicles == m.vehicles,
    decreases dead.len(),
{
    if dead.len() > 0 {
        deaths_leave_the_run(died(m, dead[0]), dead.drop_first());
    }
}

/// An emergency stop that was requested aborts the run at the next tick.
pub proof fn estop_aborts(m: SupModel, now: u64, dead: Seq<DeadPair>, inputs: Seq<VehicleInput>)
    requires
        m.fleet.estop,
        m.grace is None,
        m.ctxs.len() == m.states.len(),
        m.states.len() <= 255,
    ensures
        ({
            let (r, outcome) = ticked(m, now, dead, inputs);
            &&& r.fleet.aborted && r.fleet.phase == Phase::Aborted
            &&& r.grace == Some(later(now, ABORT_GRACE_MS))
            &&& outcome is Continue
            &&& forall|i: int| 0 <= i < m.states.len() ==> grounded(#[trigger] r.states[i])
        }),
{
    let s = SupModel {
        fleet: crate::fleet::FleetModel {
            tick_count: m.fleet.tick_count.wrapping_add(1),
            ..m.fleet
        },
        ..m
    };
    deaths_leave_the_run(s, dead);
    abort_grounds_the_fleet(all_died(s, dead), now, "e-stop (operator requested via API)"@);
}

/// An aborted run stays aborted, no tick changes its vehicles but for deaths,
/// it ends exactly when its grace time is over, and it cannot be started.
pub proof fn aborted_run_ends(
    m: SupModel,
    g: u64,
    now: u64,
    dead: Seq<DeadPair>,
    inputs: Seq<VehicleInput>,
)
    requires
        m.grace == Some(g),
        m.fleet.aborted,
        m.fleet.phase == Phase::Aborted,
    ensures
        ({
            let (r, outcome) = ticked(m, now, dead, inputs);
            &&& r.grace == m.grace
            &&& r.fleet.aborted && r.fleet.phase == Phase::Aborted
            &&& outcome is Stop <==> now > g
            &&& r.vehicles == m.vehicles
            &&& r.ctxs == m.ctxs
        }),
        started(m).0 == m,
        started(m).1 is Some,
{
    let s = SupModel {
        fleet: crate::fleet::FleetModel {
            tick_count: m.fleet.tick_count.wrapping_add(1),
            ..m.fleet
        },
        ..m
    };
    deaths_leave_the_run(s, dead);
}

/// A run that is neither stopped nor aborted ends at its deadline, and not
/// before.
pub proof fn deadline_ends_the_run(
    m: SupModel,
    now: u64,
    dead: Seq<DeadPair>,
    inputs: Seq<VehicleInput>,
)
    requires
        m.grace is None,
        !m.fleet.estop,
    ensures
        all_died(m, dead).deadline == m.deadline,
        ticked(m, now, dead, inputs).1 is Stop <==> now > m.deadline,
        now > m.deadline ==> ticked(m, now, dead, inputs).0.fleet.phase == Phase::Timeout,
{
    let s = SupModel {
        fleet: crate::fleet::FleetModel {
            tick_count: m.fleet.tick_count.wrapping_add(1),
            ..m.fleet
        },
        ..m
    };
    deaths_leave_the_run(s, dead);
    deaths_keep_the_deadline(s, dead);
    deaths_keep_the_deadline(m, dead);
}

proof fn deaths_keep_the_deadline(m: SupModel, dead: Seq<DeadPair>)
    ensures
        all_died(m, dead).deadline == m.deadline,
    decreases dead.len(),
{
    if dead.len() > 0 {
        deaths_keep_the_deadline(died(m, dead[0]), dead.drop_first());
    }
}

proof fn flags_change_only_the_log(
    m: SupModel,
    i: int,
    before: Seq<Seq<char>>,
    flags: Seq<Seq<char>>,
    n: nat,
)
    ensures
        ({
            let r = flags_raised(m, i, before, flags, n);
            &&& r.states == m.states
            &&& r.vehicles == m.vehicles
            &&& r.ctxs == m.ctxs
            &&& r.fleet == m.fleet
        }),
    decreases n,
{
    if n > 0 {
        flags_change_only_the_log(m, i, before, flags, (n - 1) as nat);
    }
}

/// What a tick may do to a vehicle: leave it, find it ready, or find it
/// landed. It is found ready only if it booted, has been heard and knows its
/// position, and is found landed only on its way home.
pub open spec fn ticked_soundly(m: SupModel, i: int, to: FsmState) -> bool {
    let from = m.states[i];
    ||| to == from
    ||| {
        &&& from is Booting && to is Ready
        &&& m.vehicles[i].heartbeat_seen && m.vehicles[i].local_position_seen
    }
    ||| from is Rtl && to is Landed
}

/// A vehicle's tick moves only that vehicle, and only in these ways.
pub proof fn vehicle_tick_is_sound(m: SupModel, i: int, now: u64, input: VehicleInput)
    requires
        0 <= i < m.states.len() <= 255,
        m.vehicles.len() == m.states.len(),
        m.ctxs.len() == m.states.len(),
    ensures
        ({
            let r = vehicle_ticked(m, i, now, input);
            &&& r.states.len() == m.states.len()
            &&& r.vehicles.len() == m.vehicles.len()
            &&& r.ctxs.len() == m.ctxs.len()
            &&& ticked_soundly(m, i, r.states[i])
            &&& forall|j: int|
                0 <= j < m.states.len() && j != i ==> #[trigger] r.states[j] == m.states[j]
            &&& forall|j: int|
                0 <= j < m.states.len() && j != i ==> #[trigger] r.vehicles[j] == m.vehicles[j]
        }),
{
    reveal(vehicle_ticked);
    let s = gated(crate::supervisor::link_noted(m, i, input), i, now);
    let s = crate::supervisor::activity_noted(
        crate::supervisor::rtl_echoed(crate::supervisor::offboard_echoed(s, i), i),
        i,
    );
    flags_change_only_the_log(s, i, s.ctxs[i].flags, texts(input.flags@), texts(input.flags@).len());
}

/// A vehicle on its way home is found landed: two seconds after it set out if
/// it has disarmed, and after the budget of two minutes in any case. Until
/// then the time it set out is kept.
pub proof fn return_ends_within_its_budget(m: SupModel, i: int, now: u64, input: VehicleInput)
    requires
        0 <= i < m.states.len() <= 255,
        m.vehicles.len() == m.states.len(),
        m.ctxs.len() == m.states.len(),
        m.states[i] is Rtl,
    ensures
        ({
            let since = match m.ctxs[i].rtl_since_ms {
                Some(t) => t,
                None => now,
            };
            let home = now > later(since, LAND_TIMEOUT_MS) || (!m.vehicles[i].armed && now > later(
                since,
                DISARM_SETTLE_MS,
            ));
            let r = vehicle_ticked(m, i, now, input);
            &&& home ==> r.states[i] is Landed && r.ctxs[i].landed_since_ms == Some(now)
            &&& !home ==> r.states[i] is Rtl && r.ctxs[i].rtl_since_ms == Some(since)
        }),
{
    reveal(vehicle_ticked);
    let s = gated(crate::supervisor::link_noted(m, i, input), i, now);
    let s = crate::supervisor::activity_noted(
        crate::supervisor::rtl_echoed(crate::supervisor::offboard_echoed(s, i), i),
        i,
    );
    flags_change_only_the_log(s, i, s.ctxs[i].flags, texts(input.flags@), texts(input.flags@).len());
}

/// A tick moves each vehicle at most in these ways.
pub proof fn tick_is_sound(m: SupModel, n: nat, now: u64, inputs: Seq<VehicleInput>)
    requires
        n <= m.states.len() <= 255,
        m.vehicles.len() == m.states.len(),
        m.ctxs.len() == m.states.len(),
    ensures
        ({
            let r = vehicles_ticked(m, n, now, inputs);
            &&& r.states.len() == m.states.len()
            &&& r.vehicles.len() == m.vehicles.len()
            &&& r.ctxs.len() == m.ctxs.len()
            &&& forall|i: int| 0 <= i < n ==> ticked_soundly(m, i, #[trigger] r.states[i])
            &&& forall|i: int| n <= i < m.states.len() ==> #[trigger] r.states[i] == m.states[i]
            &&& forall|i: int|
                n <= i < m.states.len() ==> #[trigger] r.vehicles[i] == m.vehicles[i]
        }),
    decreases n,
{
    if n > 0 {
        let k = (n - 1) as nat;
        tick_is_sound(m, k, now, inputs);
        let b = vehicles_ticked(m, k, now, inputs);
        let r = vehicles_ticked(m, n, now, inputs);
        vehicle_tick_is_sound(b, k as int, now, inputs[k as int]);
        assert(b.states[k as int] == m.states[k as int]);
        assert(b.vehicles[k as int] == m.vehicles[k as int]);
        assert forall|i: int| 0 <= i < n implies ticked_soundly(m, i, #[trigger] r.states[i]) by {
            if i < k {
                assert(r.states[i] == b.states[i]);
            }
        }
        assert forall|i: int| n <= i < m.states.len() implies #[trigger] r.states[i]
            == m.states[i] by {
            assert(r.states[i] == b.states[i]);
        }
        assert forall|i: int| n <= i < m.states.len() implies #[trigger] r.vehicles[i]
            == m.vehicles[i] by {
            assert(r.vehicles[i] == b.vehicles[i]);
        }
    }
}

/// Task `i` of those an upload brought is accepted under its number and waits.
pub open spec fn waypoint_placed(m: SupModel, u: crate::supervisor::UploadModel, i: int) -> bool {
    let task = u.run.fleet.tasks[m.fleet.tasks.len() + i];
    &&& u.accepted[i] == "op"@ + decimal((m.operator_seq + 1 + i) as nat)
    &&& task.id == u.accepted[i]
    &&& task.state is Pending
}

/// Every uploaded waypoint is answered once: taken in or refused. Those taken
/// in become pending tasks at the end of the board, numbered consecutively.
pub proof fn every_waypoint_is_answered(
    m: SupModel,
    items: Seq<OperatorWaypoint>,
    facts: Seq<PlacementFacts>,
    n: nat,
)
    requires
        m.operator_seq + n <= u32::MAX,
        n <= items.len(),
        items.len() == facts.len(),
    ensures
        taken_in(m, items, facts, n).accepted.len() + taken_in(m, items, facts, n).rejected.len()
            == n,
        taken_in(m, items, facts, n).run.operator_seq == m.operator_seq + taken_in(
            m,
            items,
            facts,
            n,
        ).accepted.len(),
        taken_in(m, items, facts, n).run.fleet.tasks.len() == m.fleet.tasks.len() + taken_in(
            m,
            items,
            facts,
            n,
        ).accepted.len(),
        forall|i: int|
            0 <= i < m.fleet.tasks.len() ==> #[trigger] taken_in(
                m,
                items,
                facts,
                n,
            ).run.fleet.tasks[i] == m.fleet.tasks[i],
        forall|i: int|
            0 <= i < taken_in(m, items, facts, n).accepted.len() ==> #[trigger] waypoint_placed(
                m,
                taken_in(m, items, facts, n),
                i,
            ),
        taken_in(m, items, facts, n).run.log == m.log,
        taken_in(m, items, facts, n).run.states == m.states,
    decreases n,
{
    if n > 0 {
        let k = (n - 1) as nat;
        every_waypoint_is_answered(m, items, facts, k);
        let b = taken_in(m, items, facts, k);
        let u = taken_in(m, items, facts, n);
        if refusal(items[k as int], facts[k as int]) is None {
            let task = crate::supervisor::operator_task(
                u.run.operator_seq,
                facts[k as int].position,
            );
            assert(u.run.operator_seq == b.run.operator_seq + 1);
            assert(u.accepted == b.accepted.push(task.id));
            assert(u.run.fleet.tasks == b.run.fleet.tasks.push(task));
            assert forall|i: int| 0 <= i < u.accepted.len() implies #[trigger] waypoint_placed(
                m,
                u,
                i,
            ) by {
                if i < b.accepted.len() {
                    assert(waypoint_placed(m, b, i));
                    assert(u.accepted[i] == b.accepted[i]);
                }
            }
            assert forall|i: int| 0 <= i < m.fleet.tasks.len() implies #[trigger] u.run.fleet.tasks[i]
                == m.fleet.tasks[i] by {
                assert(b.run.fleet.tasks[i] == m.fleet.tasks[i]);
            }
        } else {
            assert forall|i: int| 0 <= i < u.accepted.len() implies #[trigger] waypoint_placed(
                m,
                u,
                i,
            ) by {
                assert(waypoint_placed(m, b, i));
            }
        }
    }
}

/// An upload that replaces leaves nothing waiting but what it brought.
pub proof fn replacing_upload_clears_first(m: SupModel)
    ensures
        crate::fleet::waiting(board_cleared(m).fleet.tasks) == 0,
        board_cleared(m).operator_seq == m.operator_seq,
        board_cleared(m).fleet.tasks.len() == m.fleet.tasks.len(),
{
    crate::fleet::clearing_is_complete(m.fleet.tasks);
}

/// A mission that was started is not started twice.
pub proof fn a_mission_starts_once(m: SupModel)
    ensures
        started(m).1 is None ==> started(started(m).0) == (
            started(m).0,
            Some("mission already started"@),
        ),
{
}

} // verus!
