//! The fleet supervisor: bring-up, the ten-per-second tick, the operator's
//! task board, abort and teardown.
//!
//! The supervisor is the one writer of the fleet's state. Processes, links and
//! clocks are the application's: each tick it hands in what it saw and
//! performs the actions that come back.

use std::collections::BTreeMap;
use vstd::prelude::*;
use crate::events::{EventKind, EventLog};
#[allow(unused_imports)]
use crate::events::EventLine;
use crate::fleet::{
    ClearAck, FleetState, Phase, StartAck, TaskState, TaskStatus, UploadAck, VehicleTaskInfo,
};
#[allow(unused_imports)]
use crate::fleet::{cleared, fresh_fleet, placed, waiting, FleetModel, TaskInfoModel, TaskModel};
use crate::float::{f32_lt, f64_is_finite, f64_le, f64_lt};
#[allow(unused_imports)]
use crate::float::{f32_less, f64_at_most, f64_finite, f64_less};
use crate::fsm::{FsmCause, FsmState};
use crate::engage::ack_text;
#[allow(unused_imports)]
use crate::engage::{ack_kind, ack_line};
use crate::link::{CmdAck, LinkCounts};
use crate::messages::{TelemetryEvent, Vec3};
use crate::modes::{
    decode_mode_word, MAIN_AUTO, MAIN_OFFBOARD, MODE_WORD_AUTO_RTL, MODE_WORD_OFFBOARD,
};
#[allow(unused_imports)]
use crate::modes::main_of;
use crate::registry::Registry;
#[allow(unused_imports)]
use crate::registry::{step_line, stepped};
use crate::text::{copy_texts, holds, joined, push_decimal, push_quoted_list};
#[allow(unused_imports)]
use crate::text::{decimal, opt_view, quoted_list, texts};
#[allow(unused_imports)]
use crate::vehicle::{observed, unheard, VehicleModel};

verus! {

/// Exit code of a configuration or infrastructure failure.
pub const EXIT_ERROR: i32 = 3;

/// Exit code of an aborted run.
pub const EXIT_ABORTED: i32 = 2;

/// How long the home position may be missing before readiness stops waiting for it.
pub const HOME_FALLBACK_MS: u64 = 45_000;

/// How long a returning vehicle may stay armed before it counts as landed.
pub const LAND_TIMEOUT_MS: u64 = 120_000;

/// How long after its start a return counts as one at all.
pub const DISARM_SETTLE_MS: u64 = 2_000;

/// Time between an abort and the end of the run.
pub const ABORT_GRACE_MS: u64 = 4_000;

/// Longest run.
pub const HARD_DEADLINE_MS: u64 = 300_000;

/// What the supervisor remembers of one vehicle.
pub struct VehCtx {
    nav_dll_done: bool,
    rtl_since_ms: Option<u64>,
    landed_since_ms: Option<u64>,
    saw_offboard_echo: bool,
    saw_rtl_echo: bool,
    gate_since_ms: Option<u64>,
    flags: Vec<String>,
}

#[verifier::ext_equal]
pub struct CtxModel {
    /// The datalink failsafe was switched off.
    pub nav_dll_done: bool,
    pub rtl_since_ms: Option<u64>,
    pub landed_since_ms: Option<u64>,
    pub saw_offboard_echo: bool,
    pub saw_rtl_echo: bool,
    /// Since when only the home position is missing.
    pub gate_since_ms: Option<u64>,
    /// Health flags at the last tick.
    pub flags: Seq<Seq<char>>,
}

impl View for VehCtx {
    type V = CtxModel;

    closed spec fn view(&self) -> CtxModel {
        CtxModel {
            nav_dll_done: self.nav_dll_done,
            rtl_since_ms: self.rtl_since_ms,
            landed_since_ms: self.landed_since_ms,
            saw_offboard_echo: self.saw_offboard_echo,
            saw_rtl_echo: self.saw_rtl_echo,
            gate_since_ms: self.gate_since_ms,
            flags: texts(self.flags@),
        }
    }
}

pub open spec fn fresh_ctx() -> CtxModel {
    CtxModel {
        nav_dll_done: false,
        rtl_since_ms: None,
        landed_since_ms: None,
        saw_offboard_echo: false,
        saw_rtl_echo: false,
        gate_since_ms: None,
        flags: Seq::empty(),
    }
}

impl VehCtx {
    pub fn new() -> (r: Self)
        ensures
            r@ == fresh_ctx(),
    {
        let r = VehCtx {
            nav_dll_done: false,
            rtl_since_ms: None,
            landed_since_ms: None,
            saw_offboard_echo: false,
            saw_rtl_echo: false,
            gate_since_ms: None,
            flags: Vec::new(),
        };
        assert(r@ =~= fresh_ctx());
        r
    }
}

/// What the application is to do.
#[derive(Debug, Clone, Copy, PartialEq, Eq, Structural)]
pub enum SupAction {
    /// Stop the vehicle's setpoint stream.
    StopStream(u8),
    /// Switch the vehicle to landing, then disarm it.
    LandAndDisarm(u8),
    /// Write NAV_DLL_ACT = 0: the vehicle would not arm without a ground
    /// station otherwise.
    DisableDatalinkFailsafe(u8),
}

/// Whether the run goes on.
#[derive(Debug, Clone, Copy, PartialEq, Eq, Structural)]
pub enum Outcome {
    Continue,
    Stop,
}

/// What the application saw of a vehicle since the last tick.
#[derive(Debug)]
pub struct VehicleInput {
    pub link: LinkCounts,
    pub recv_rate_hz: u32,
    pub msg_counts: BTreeMap<u32, u64>,
    /// Names of the health flags that hold.
    pub flags: Vec<String>,
}

/// A pair of processes of which one or both died.
#[derive(Debug, Clone, Copy, PartialEq, Eq, Structural)]
pub struct DeadPair {
    pub index: u8,
    pub sim_dead: bool,
    pub px4_dead: bool,
}

pub struct Supervisor {
    registry: Registry,
    log: EventLog,
    fleet: FleetState,
    ctxs: Vec<VehCtx>,
    abort_grace_until: Option<u64>,
    hard_deadline_ms: u64,
    operator_seq: u32,
    actions: Vec<SupAction>,
}

/// The state of a run.
#[verifier::ext_equal]
pub struct SupModel {
    pub states: Seq<FsmState>,
    pub vehicles: Seq<VehicleModel>,
    pub log: Seq<EventLine>,
    pub fleet: FleetModel,
    pub ctxs: Seq<CtxModel>,
    /// End of an aborted run's grace time.
    pub grace: Option<u64>,
    pub deadline: u64,
    /// Number of the last operator task.
    pub operator_seq: u32,
    /// Actions not yet taken.
    pub actions: Seq<SupAction>,
}

pub open spec fn ctxs_of(s: Seq<VehCtx>) -> Seq<CtxModel> {
    Seq::new(s.len(), |i: int| s[i]@)
}

impl View for Supervisor {
    type V = SupModel;

    closed spec fn view(&self) -> SupModel {
        SupModel {
            states: self.registry.states(),
            vehicles: self.registry.vehicles(),
            log: self.log@,
            fleet: self.fleet@,
            ctxs: ctxs_of(self.ctxs@),
            grace: self.abort_grace_until,
            deadline: self.hard_deadline_ms,
            operator_seq: self.operator_seq,
            actions: self.actions@,
        }
    }
}

// Building blocks.

pub open spec fn logging(
    m: SupModel,
    kind: EventKind,
    vehicle: Option<u8>,
    text: Seq<char>,
) -> SupModel {
    SupModel { log: m.log.push(EventLine { kind, vehicle, text }), ..m }
}

pub open spec fn acting(m: SupModel, a: SupAction) -> SupModel {
    SupModel { actions: m.actions.push(a), ..m }
}

pub open spec fn at_ctx(m: SupModel, i: int, c: CtxModel) -> SupModel {
    SupModel { ctxs: m.ctxs.update(i, c), ..m }
}

/// A cause is applied to a vehicle and logged; a vehicle the fleet does not
/// have is passed over.
pub open spec fn moved(m: SupModel, i: u8, cause: FsmCause) -> SupModel {
    if i < m.states.len() {
        SupModel {
            states: m.states.update(i as int, stepped(m.states[i as int], cause)),
            log: m.log.push(step_line(i, m.states[i as int], cause)),
            ..m
        }
    } else {
        m
    }
}

pub open spec fn bool_text(b: bool) -> Seq<char> {
    if b {
        "true"@
    } else {
        "false"@
    }
}

fn bool_name(b: bool) -> (r: &'static str)
    ensures
        r@ == bool_text(b),
{
    if b {
        "true"
    } else {
        "false"
    }
}

pub open spec fn later(now: u64, ms: u64) -> u64 {
    if now + ms > u64::MAX {
        u64::MAX
    } else {
        (now + ms) as u64
    }
}

// Process supervision.

/// The death of a vehicle's processes is logged and faults the vehicle, once.
pub open spec fn died(m: SupModel, d: DeadPair) -> SupModel {
    if d.index < m.states.len() && m.states[d.index as int] is Fault {
        m
    } else {
        moved(
            logging(
                m,
                EventKind::SupervisorAction,
                Some(d.index),
                "process death (sim_dead="@ + bool_text(d.sim_dead) + ", px4_dead="@ + bool_text(
                    d.px4_dead,
                ) + ")"@,
            ),
            d.index,
            FsmCause::ProcessDeath,
        )
    }
}

pub open spec fn all_died(m: SupModel, dead: Seq<DeadPair>) -> SupModel
    decreases dead.len(),
{
    if dead.len() == 0 {
        m
    } else {
        all_died(died(m, dead[0]), dead.drop_first())
    }
}

// Abort.

/// What an abort does to one vehicle: its stream stops, a flying vehicle
/// lands and disarms, one on the ground that is not down yet is stopped.
pub open spec fn vehicle_aborted(m: SupModel, i: u8) -> SupModel {
    let s = acting(m, SupAction::StopStream(i));
    match s.states[i as int] {
        FsmState::Active => acting(moved(s, i, FsmCause::Estop), SupAction::LandAndDisarm(i)),
        FsmState::Rtl => acting(moved(s, i, FsmCause::Estop), SupAction::LandAndDisarm(i)),
        FsmState::Ready => moved(s, i, FsmCause::Estop),
        FsmState::Booting => moved(s, i, FsmCause::Estop),
        FsmState::Spawning => moved(s, i, FsmCause::Estop),
        _ => s,
    }
}

/// The first `n` vehicles, in order.
pub open spec fn vehicles_aborted(m: SupModel, n: nat) -> SupModel
    decreases n,
{
    if n == 0 {
        m
    } else {
        vehicle_aborted(vehicles_aborted(m, (n - 1) as nat), (n - 1) as u8)
    }
}

/// The run is aborted, once.
pub open spec fn run_aborted(m: SupModel, now: u64, reason: Seq<char>) -> SupModel {
    if m.grace is Some {
        m
    } else {
        let s = logging(
            SupModel {
                fleet: FleetModel { aborted: true, phase: Phase::Aborted, ..m.fleet },
                ..m
            },
            EventKind::RunBoundary,
            None,
            "run ABORTED: "@ + reason,
        );
        SupModel {
            grace: Some(later(now, ABORT_GRACE_MS)),
            ..vehicles_aborted(s, m.ctxs.len())
        }
    }
}

// One vehicle's tick.

pub open spec fn link_noted(m: SupModel, i: int, input: VehicleInput) -> SupModel {
    SupModel {
        vehicles: m.vehicles.update(
            i,
            VehicleModel {
                link: input.link,
                recv_rate_hz: input.recv_rate_hz,
                msg_counts: input.msg_counts@,
                ..m.vehicles[i]
            },
        ),
        ..m
    }
}

/// A booting vehicle that has been heard and knows its position is ready once
/// its home position is known, or has been missing too long.
pub open spec fn gate_passed(m: SupModel, i: int, now: u64) -> SupModel {
    let v = m.vehicles[i];
    let c = m.ctxs[i];
    if v.home_set {
        moved(m, i as u8, FsmCause::TelemetryValid)
    } else {
        let since = match c.gate_since_ms {
            Some(t) => t,
            None => now,
        };
        let s = at_ctx(m, i, CtxModel { gate_since_ms: Some(since), ..c });
        if now - since > HOME_FALLBACK_MS {
            moved(
                logging(
                    s,
                    EventKind::SupervisorAction,
                    Some(i as u8),
                    "HOME_POSITION not observed within 45s; gate opened on heartbeat+local-position (interim sim)"@,
                ),
                i as u8,
                FsmCause::TelemetryValid,
            )
        } else {
            s
        }
    }
}

/// The vehicle's datalink failsafe is switched off as soon as it is ready.
pub open spec fn datalink_settled(m: SupModel, i: int) -> SupModel {
    if m.states[i] is Ready && !m.ctxs[i].nav_dll_done {
        acting(
            at_ctx(m, i, CtxModel { nav_dll_done: true, ..m.ctxs[i] }),
            SupAction::DisableDatalinkFailsafe(i as u8),
        )
    } else {
        m
    }
}

pub open spec fn gated(m: SupModel, i: int, now: u64) -> SupModel {
    let v = m.vehicles[i];
    if m.states[i] is Booting && v.heartbeat_seen && v.local_position_seen {
        datalink_settled(gate_passed(m, i, now), i)
    } else {
        m
    }
}

/// The first heartbeat that shows a mode the operator asked for is logged.
pub open spec fn offboard_echoed(m: SupModel, i: int) -> SupModel {
    if !m.ctxs[i].saw_offboard_echo && m.vehicles[i].mode_word == MODE_WORD_OFFBOARD {
        logging(
            at_ctx(m, i, CtxModel { saw_offboard_echo: true, ..m.ctxs[i] }),
            EventKind::TaskEvent,
            Some(i as u8),
            "heartbeat mode echo: OFFBOARD (custom_mode=0x00060000) — operator go-to engaged"@,
        )
    } else {
        m
    }
}

pub open spec fn rtl_echoed(m: SupModel, i: int) -> SupModel {
    if !m.ctxs[i].saw_rtl_echo && m.vehicles[i].mode_word == MODE_WORD_AUTO_RTL {
        logging(
            at_ctx(m, i, CtxModel { saw_rtl_echo: true, ..m.ctxs[i] }),
            EventKind::SupervisorAction,
            Some(i as u8),
            "heartbeat mode echo: AUTO.RTL — operator-verified mode change"@,
        )
    } else {
        m
    }
}

/// Armed and flown by a mission or a setpoint stream.
pub open spec fn flown(v: VehicleModel) -> bool {
    v.armed && (main_of(v.mode_word) == MAIN_AUTO || main_of(v.mode_word) == MAIN_OFFBOARD)
}

pub open spec fn activity_noted(m: SupModel, i: int) -> SupModel {
    SupModel {
        fleet: FleetModel {
            mission_active: placed(m.fleet.mission_active, i, flown(m.vehicles[i])),
            ..m.fleet
        },
        ..m
    }
}

/// One line for each of the first `n` flags that did not hold before.
pub open spec fn flags_raised(
    m: SupModel,
    i: int,
    before: Seq<Seq<char>>,
    flags: Seq<Seq<char>>,
    n: nat,
) -> SupModel
    decreases n,
{
    if n == 0 {
        m
    } else {
        let s = flags_raised(m, i, before, flags, (n - 1) as nat);
        if before.contains(flags[n - 1]) {
            s
        } else {
            logging(
                s,
                EventKind::HealthFlag,
                Some(i as u8),
                "health flag raised: "@ + flags[n - 1],
            )
        }
    }
}

pub open spec fn health_noted(m: SupModel, i: int, flags: Seq<Seq<char>>) -> SupModel {
    let s = flags_raised(m, i, m.ctxs[i].flags, flags, flags.len());
    SupModel {
        fleet: FleetModel { flags: placed(s.fleet.flags, i, flags), ..s.fleet },
        ..at_ctx(s, i, CtxModel { flags, ..s.ctxs[i] })
    }
}

/// A returning vehicle that has disarmed, or should have long ago, has
/// landed. Since when a vehicle returns, and when it landed, is remembered.
pub open spec fn landing_observed(m: SupModel, i: int, now: u64) -> SupModel {
    let c = m.ctxs[i];
    if m.states[i] is Rtl {
        let since = match c.rtl_since_ms {
            Some(t) => t,
            None => now,
        };
        let overdue = now > later(since, LAND_TIMEOUT_MS);
        let disarmed = !m.vehicles[i].armed && now > later(since, DISARM_SETTLE_MS);
        if disarmed || overdue {
            let s = moved(
                logging(
                    m,
                    EventKind::SupervisorAction,
                    Some(i as u8),
                    if overdue {
                        "disarm not observed within 120s; treating vehicle as LANDED (watchdog — check RTL/land progress and teardown)"@
                    } else {
                        "disarm observed after RTL — vehicle LANDED"@
                    },
                ),
                i as u8,
                FsmCause::DisarmObserved,
            );
            at_ctx(s, i, CtxModel { landed_since_ms: Some(now), rtl_since_ms: None, ..s.ctxs[i] })
        } else {
            at_ctx(m, i, CtxModel { rtl_since_ms: Some(since), ..c })
        }
    } else {
        at_ctx(
            m,
            i,
            CtxModel {
                rtl_since_ms: None,
                landed_since_ms: if m.states[i] is Landed && c.landed_since_ms is None {
                    Some(now)
                } else {
                    c.landed_since_ms
                },
                ..c
            },
        )
    }
}

/// Ids of the queued tasks of a vehicle among the first `n`.
pub open spec fn queued_for(tasks: Seq<TaskModel>, i: int, n: nat) -> Seq<Seq<char>>
    decreases n,
{
    if n == 0 {
        Seq::empty()
    } else {
        let s = queued_for(tasks, i, (n - 1) as nat);
        let t = tasks[n - 1];
        if t.assigned == Some(i as u8) && t.state is Queued {
            s.push(t.id)
        } else {
            s
        }
    }
}

pub open spec fn tasks_shown(m: SupModel, i: int) -> SupModel {
    SupModel {
        fleet: FleetModel {
            vehicle_tasks: placed(
                m.fleet.vehicle_tasks,
                i,
                TaskInfoModel {
                    current: None,
                    queue: queued_for(m.fleet.tasks, i, m.fleet.tasks.len()),
                },
            ),
            ..m.fleet
        },
        ..m
    }
}

/// One vehicle's whole tick.
#[verifier::opaque]
pub open spec fn vehicle_ticked(m: SupModel, i: int, now: u64, input: VehicleInput) -> SupModel {
    let s = gated(link_noted(m, i, input), i, now);
    let s = activity_noted(rtl_echoed(offboard_echoed(s, i), i), i);
    let s = health_noted(s, i, texts(input.flags@));
    tasks_shown(landing_observed(s, i, now), i)
}

/// The first `n` vehicles, in order.
pub open spec fn vehicles_ticked(
    m: SupModel,
    n: nat,
    now: u64,
    inputs: Seq<VehicleInput>,
) -> SupModel
    decreases n,
{
    if n == 0 {
        m
    } else {
        vehicle_ticked(
            vehicles_ticked(m, (n - 1) as nat, now, inputs),
            n - 1,
            now,
            inputs[n - 1],
        )
    }
}

// The tick.

pub open spec fn every_vehicle_faulted(m: SupModel) -> bool {
    m.ctxs.len() > 0 && forall|i: int| 0 <= i < m.ctxs.len() ==> #[trigger] m.states[i] is Fault
}

/// Deaths are taken in and an emergency stop is latched before anything else.
pub open spec fn tick_begun(m: SupModel, now: u64, dead: Seq<DeadPair>) -> SupModel {
    let s = all_died(
        SupModel {
            fleet: FleetModel { tick_count: m.fleet.tick_count.wrapping_add(1), ..m.fleet },
            ..m
        },
        dead,
    );
    if s.fleet.estop && s.grace is None {
        run_aborted(s, now, "e-stop (operator requested via API)"@)
    } else {
        s
    }
}

pub open spec fn cap_text(deadline: u64) -> Seq<char> {
    "run hit the hard wall-clock cap ("@ + decimal((deadline / 1000) as nat)
        + "s) — phase TIMEOUT"@
}

/// One tick: an aborted run waits out its grace time, an overlong one ends, a
/// fleet that is down is aborted, and otherwise every vehicle is looked after.
pub open spec fn ticked(
    m: SupModel,
    now: u64,
    dead: Seq<DeadPair>,
    inputs: Seq<VehicleInput>,
) -> (SupModel, Outcome) {
    let s = tick_begun(m, now, dead);
    match s.grace {
        Some(g) => (s, if now > g {
            Outcome::Stop
        } else {
            Outcome::Continue
        }),
        None => if now > s.deadline {
            (
                logging(
                    SupModel { fleet: FleetModel { phase: Phase::Timeout, ..s.fleet }, ..s },
                    EventKind::RunBoundary,
                    None,
                    cap_text(s.deadline),
                ),
                Outcome::Stop,
            )
        } else if every_vehicle_faulted(s) {
            (run_aborted(s, now, "all vehicles FAULT"@), Outcome::Continue)
        } else {
            (vehicles_ticked(s, s.ctxs.len(), now, inputs), Outcome::Continue)
        },
    }
}

// The operator's task board.

/// A waypoint the operator uploads.
#[derive(Debug, Clone)]
pub struct OperatorWaypoint {
    pub label: Option<String>,
    /// Degrees, double precision.
    pub lat_deg: u64,
    pub lon_deg: u64,
    /// Metres above the origin, double precision.
    pub alt_m: u64,
    /// Seconds, single precision.
    pub hover_s: u32,
}

/// What geometry says of an uploaded waypoint.
#[derive(Debug, Clone)]
pub struct PlacementFacts {
    /// North-east-down position.
    pub position: Vec3,
    /// Inside the fence's polygon.
    pub in_fence: bool,
    /// Inside the fence's altitude box.
    pub altitude_ok: bool,
    /// Latitude and longitude to six decimals.
    pub lat_text: String,
    pub lon_text: String,
    /// How far outside the polygon, in whole metres.
    pub breach_text: String,
    /// Altitude to one decimal, and the altitude box.
    pub agl_text: String,
    pub floor_text: String,
    pub ceiling_text: String,
}

pub const F64_90: u64 = 0x4056_8000_0000_0000;

pub const F64_MINUS_90: u64 = 0xC056_8000_0000_0000;

pub const F64_180: u64 = 0x4066_8000_0000_0000;

pub const F64_MINUS_180: u64 = 0xC066_8000_0000_0000;

/// A latitude from pole to pole and a longitude around the globe.
pub open spec fn on_globe(lat: u64, lon: u64) -> bool {
    f64_at_most(F64_MINUS_90, lat) && f64_at_most(lat, F64_90) && f64_at_most(F64_MINUS_180, lon)
        && f64_at_most(lon, F64_180)
}

/// Whether a latitude and a longitude lie on the globe.
pub fn is_on_globe(lat: u64, lon: u64) -> (r: bool)
    ensures
        r == on_globe(lat, lon),
{
    f64_le(F64_MINUS_90, lat) && f64_le(lat, F64_90) && f64_le(F64_MINUS_180, lon) && f64_le(
        lon,
        F64_180,
    )
}

/// Why a waypoint is refused, if it is.
pub open spec fn refusal(item: OperatorWaypoint, f: PlacementFacts) -> Option<Seq<char>> {
    if f32_less(item.hover_s, 0) {
        Some("hover_s must be >= 0"@)
    } else if !f64_finite(item.lat_deg) || !f64_finite(item.lon_deg) || !f64_finite(item.alt_m) {
        Some("lat/lon/alt must be finite"@)
    } else if !on_globe(item.lat_deg, item.lon_deg) {
        Some("lat/lon out of range"@)
    } else if f64_less(item.alt_m, 0) {
        Some("alt_m (AGL) must be >= 0"@)
    } else if !f.in_fence {
        Some(
            "outside geofence polygon (lat "@ + f.lat_text@ + ", lon "@ + f.lon_text@
                + ", breach "@ + f.breach_text@ + " m)"@,
        )
    } else if !f.altitude_ok {
        Some(
            "outside altitude box (AGL "@ + f.agl_text@ + " m; box "@ + f.floor_text@ + ".."@
                + f.ceiling_text@ + " m)"@,
        )
    } else {
        None
    }
}

fn refuse(item: &OperatorWaypoint, f: &PlacementFacts) -> (r: Option<String>)
    ensures
        crate::fleet::opt_text(r) == refusal(*item, *f),
{
    if f32_lt(item.hover_s, 0) {
        return Some(String::from_str("hover_s must be >= 0"));
    }
    if !f64_is_finite(item.lat_deg) || !f64_is_finite(item.lon_deg) || !f64_is_finite(item.alt_m) {
        return Some(String::from_str("lat/lon/alt must be finite"));
    }
    if !is_on_globe(item.lat_deg, item.lon_deg) {
        return Some(String::from_str("lat/lon out of range"));
    }
    if f64_lt(item.alt_m, 0) {
        return Some(String::from_str("alt_m (AGL) must be >= 0"));
    }
    if !f.in_fence {
        let mut s = String::from_str("outside geofence polygon (lat ");
        s.append(f.lat_text.as_str());
        s.append(", lon ");
        s.append(f.lon_text.as_str());
        s.append(", breach ");
        s.append(f.breach_text.as_str());
        s.append(" m)");
        return Some(s);
    }
    if !f.altitude_ok {
        let mut s = String::from_str("outside altitude box (AGL ");
        s.append(f.agl_text.as_str());
        s.append(" m; box ");
        s.append(f.floor_text.as_str());
        s.append("..");
        s.append(f.ceiling_text.as_str());
        s.append(" m)");
        return Some(s);
    }
    None
}

/// The label of waypoint `k`: its own, or one made of its place.
pub open spec fn label_of(item: OperatorWaypoint, k: int) -> Seq<char> {
    match item.label {
        Some(l) => l@,
        None => "item["@ + decimal(k as nat) + "]"@,
    }
}

fn label(item: &OperatorWaypoint, k: usize) -> (r: String)
    ensures
        r@ == label_of(*item, k as int),
{
    match &item.label {
        Some(l) => l.clone(),
        None => {
            let mut s = String::from_str("item[");
            push_decimal(&mut s, k as u64);
            s.append("]");
            s
        },
    }
}

/// What an upload brought about so far.
#[verifier::ext_equal]
pub struct UploadModel {
    pub run: SupModel,
    pub accepted: Seq<Seq<char>>,
    pub rejected: Seq<(Seq<char>, Seq<char>)>,
}

pub open spec fn operator_task(n: u32, position: Vec3) -> TaskModel {
    TaskModel {
        id: "op"@ + decimal(n as nat),
        pos_ned_m: position,
        assigned: None,
        state: TaskState::Pending,
        hover_observed: None,
    }
}

/// The first `n` waypoints are taken in: each becomes a pending task under the
/// next number, or is refused with its reason.
pub open spec fn taken_in(
    m: SupModel,
    items: Seq<OperatorWaypoint>,
    facts: Seq<PlacementFacts>,
    n: nat,
) -> UploadModel
    decreases n,
{
    if n == 0 {
        UploadModel { run: m, accepted: Seq::empty(), rejected: Seq::empty() }
    } else {
        let u = taken_in(m, items, facts, (n - 1) as nat);
        match refusal(items[n - 1], facts[n - 1]) {
            Some(reason) => UploadModel {
                rejected: u.rejected.push((label_of(items[n - 1], n - 1), reason)),
                ..u
            },
            None => {
                let number = u.run.operator_seq.wrapping_add(1);
                let task = operator_task(number, facts[n - 1].position);
                UploadModel {
                    run: SupModel {
                        operator_seq: number,
                        fleet: FleetModel { tasks: u.run.fleet.tasks.push(task), ..u.run.fleet },
                        ..u.run
                    },
                    accepted: u.accepted.push(task.id),
                    ..u
                }
            },
        }
    }
}

/// How many tasks wait for a vehicle.
pub open spec fn pending_count(s: Seq<TaskModel>) -> nat
    decreases s.len(),
{
    if s.len() == 0 {
        0
    } else {
        pending_count(s.drop_last()) + (if s.last().state is Pending {
            1nat
        } else {
            0nat
        })
    }
}

/// The waiting tasks are dropped, which is logged where there were any.
pub open spec fn board_cleared(m: SupModel) -> SupModel {
    let n = waiting(m.fleet.tasks);
    let s = SupModel { fleet: FleetModel { tasks: cleared(m.fleet.tasks), ..m.fleet }, ..m };
    if n > 0 {
        logging(
            s,
            EventKind::SupervisorAction,
            None,
            "operator: cleared "@ + decimal(n) + " queued mission task(s)"@,
        )
    } else {
        s
    }
}

pub open spec fn upload_text(u: UploadModel) -> Seq<char> {
    "operator mission upload: "@ + decimal(u.accepted.len()) + " waypoint(s) accepted ("@
        + quoted_list(u.accepted) + "), "@ + decimal(u.rejected.len()) + " rejected, pool "@
        + decimal(pending_count(u.run.fleet.tasks))
}

/// An upload, after clearing the board where it replaces what waits.
pub open spec fn uploaded(
    m: SupModel,
    items: Seq<OperatorWaypoint>,
    facts: Seq<PlacementFacts>,
    replace: bool,
) -> UploadModel {
    let u = taken_in(
        if replace {
            board_cleared(m)
        } else {
            m
        },
        items,
        facts,
        items.len(),
    );
    if u.accepted.len() > 0 {
        UploadModel {
            run: logging(u.run, EventKind::SupervisorAction, None, upload_text(u)),
            ..u
        }
    } else {
        u
    }
}

pub open spec fn pairs_of(s: Seq<(String, String)>) -> Seq<(Seq<char>, Seq<char>)> {
    Seq::new(s.len(), |i: int| (s[i].0@, s[i].1@))
}

/// The run after the operator asks to start, and why it does not if so.
pub open spec fn started(m: SupModel) -> (SupModel, Option<Seq<char>>) {
    match m.fleet.phase {
        Phase::Running => (m, Some("mission already started"@)),
        Phase::Aborted => (m, Some("run is "@ + m.fleet.phase.text())),
        Phase::Timeout => (m, Some("run is "@ + m.fleet.phase.text())),
        _ => (
            logging(
                SupModel { fleet: FleetModel { phase: Phase::Running, ..m.fleet }, ..m },
                EventKind::RunBoundary,
                None,
                "operator mission start: phase RUNNING — operator in the loop (use POST /api/fleet/start to upload + arm the bound catalog missions, or POST /api/vehicles/{i}/goto for a single waypoint)"@,
            ),
            None,
        ),
    }
}

impl Supervisor {
    /// One memory per vehicle, and one place per vehicle in every list.
    pub closed spec fn wf(&self) -> bool {
        &&& self.registry.wf()
        &&& self.fleet.wf()
        &&& self.ctxs@.len() == self.registry.states().len()
        &&& self.registry.vehicles().len() == self.registry.states().len()
        &&& self.fleet@.count == self.registry.states().len()
    }

    fn note(&mut self, kind: EventKind, vehicle: Option<u8>, text: String)
        requires
            old(self).wf(),
        ensures
            final(self).wf(),
            final(self)@ == logging(old(self)@, kind, vehicle, text@),
    {
        self.log.log(kind, vehicle, text);
    }

    fn act(&mut self, a: SupAction)
        requires
            old(self).wf(),
        ensures
            final(self).wf(),
            final(self)@ == acting(old(self)@, a),
    {
        self.actions.push(a);
    }

    fn step(&mut self, i: u8, cause: FsmCause)
        requires
            old(self).wf(),
        ensures
            final(self).wf(),
            final(self)@ == moved(old(self)@, i, cause),
    {
        let _ = self.registry.apply_transition(i, cause, &mut self.log);
    }

    fn take_in_death(&mut self, d: DeadPair)
        requires
            old(self).wf(),
        ensures
            final(self).wf(),
            final(self)@ == died(old(self)@, d),
    {
        if self.registry.fsm(d.index) == Some(FsmState::Fault) {
            return ;
        }
        let mut s = String::from_str("process death (sim_dead=");
        s.append(bool_name(d.sim_dead));
        s.append(", px4_dead=");
        s.append(bool_name(d.px4_dead));
        s.append(")");
        self.note(EventKind::SupervisorAction, Some(d.index), s);
        self.step(d.index, FsmCause::ProcessDeath);
    }

    fn take_in_deaths(&mut self, dead: &Vec<DeadPair>)
        requires
            old(self).wf(),
        ensures
            final(self).wf(),
            final(self)@ == all_died(old(self)@, dead@),
    {
        let mut i: usize = 0;
        assert(dead@.subrange(0, dead@.len() as int) =~= dead@);
        while i < dead.len()
            invariant
                self.wf(),
                i <= dead@.len(),
                all_died(self@, dead@.subrange(i as int, dead@.len() as int)) == all_died(
                    old(self)@,
                    dead@,
                ),
            decreases dead@.len() - i,
        {
            let ghost rest = dead@.subrange(i as int, dead@.len() as int);
            assert(rest[0] == dead@[i as int]);
            assert(rest.drop_first() =~= dead@.subrange(i + 1, dead@.len() as int));
            self.take_in_death(dead[i]);
            i = i + 1;
        }
    }

    fn abort_vehicle(&mut self, i: u8)
        requires
            old(self).wf(),
            i < old(self)@.states.len(),
        ensures
            final(self).wf(),
            final(self)@ == vehicle_aborted(old(self)@, i),
            final(self)@.states.len() == old(self)@.states.len(),
    {
        self.act(SupAction::StopStream(i));
        let fsm: FsmState = match self.registry.fsm(i) {
            Some(s) => s,
            None => FsmState::Init,
        };
        match fsm {
            FsmState::Active | FsmState::Rtl => {
                self.step(i, FsmCause::Estop);
                self.act(SupAction::LandAndDisarm(i));
            },
            FsmState::Ready | FsmState::Booting | FsmState::Spawning => {
                self.step(i, FsmCause::Estop);
            },
            _ => {},
        }
    }

    /// Abort the run: every stream stops, flying vehicles land, the rest are
    /// stopped. A run is aborted once.
    pub fn abort_run(&mut self, now: u64, reason: &str)
        requires
            old(self).wf(),
        ensures
            final(self).wf(),
            final(self)@ == run_aborted(old(self)@, now, reason@),
    {
        if self.abort_grace_until.is_some() {
            return ;
        }
        self.fleet.set_aborted();
        self.fleet.set_phase(Phase::Aborted);
        self.note(EventKind::RunBoundary, None, joined("run ABORTED: ", reason));
        let ghost start = self@;
        let n: usize = self.ctxs.len();
        let mut i: usize = 0;
        while i < n
            invariant
                self.wf(),
                n <= 255,
                i <= n,
                self@.states.len() == n,
                self@ == vehicles_aborted(start, i as nat),
            decreases n - i,
        {
            self.abort_vehicle(i as u8);
            i = i + 1;
        }
        self.abort_grace_until = Some(now.saturating_add(ABORT_GRACE_MS));
    }
}

impl Supervisor {
    fn note_link(&mut self, i: usize, input: &VehicleInput)
        requires
            old(self).wf(),
            i < old(self)@.states.len(),
        ensures
            final(self).wf(),
            final(self)@ == link_noted(old(self)@, i as int, *input),
    {
        self.registry.set_link(i as u8, input.link, input.recv_rate_hz, &input.msg_counts);
        assert(self@ =~= link_noted(old(self)@, i as int, *input));
    }

    fn pass_gate(&mut self, i: usize, now: u64, home_set: bool)
        requires
            old(self).wf(),
            i < old(self)@.states.len(),
            home_set == old(self)@.vehicles[i as int].home_set,
        ensures
            final(self).wf(),
            final(self)@ == gate_passed(old(self)@, i as int, now),
            final(self)@.states.len() == old(self)@.states.len(),
    {
        if home_set {
            self.step(i as u8, FsmCause::TelemetryValid);
        } else {
            let since: u64 = match self.ctxs[i].gate_since_ms {
                Some(t) => t,
                None => now,
            };
            self.ctxs[i].gate_since_ms = Some(since);
            proof {
                let c = CtxModel { gate_since_ms: Some(since), ..old(self)@.ctxs[i as int] };
                assert(ctxs_of(self.ctxs@) =~= ctxs_of(old(self).ctxs@).update(i as int, c));
                assert(self@ =~= at_ctx(old(self)@, i as int, c));
            }
            if now.saturating_sub(since) > HOME_FALLBACK_MS {
                self.note(
                    EventKind::SupervisorAction,
                    Some(i as u8),
                    String::from_str(
                        "HOME_POSITION not observed within 45s; gate opened on heartbeat+local-position (interim sim)",
                    ),
                );
                self.step(i as u8, FsmCause::TelemetryValid);
            }
        }
    }

    fn settle_datalink(&mut self, i: usize)
        requires
            old(self).wf(),
            i < old(self)@.states.len(),
        ensures
            final(self).wf(),
            final(self)@ == datalink_settled(old(self)@, i as int),
    {
        if self.registry.fsm(i as u8) == Some(FsmState::Ready) && !self.ctxs[i].nav_dll_done {
            self.ctxs[i].nav_dll_done = true;
            proof {
                let c = CtxModel { nav_dll_done: true, ..old(self)@.ctxs[i as int] };
                assert(ctxs_of(self.ctxs@) =~= ctxs_of(old(self).ctxs@).update(i as int, c));
                assert(self@ =~= at_ctx(old(self)@, i as int, c));
            }
            self.act(SupAction::DisableDatalinkFailsafe(i as u8));
        }
    }

    fn run_gate(&mut self, i: usize, now: u64)
        requires
            old(self).wf(),
            i < old(self)@.states.len(),
        ensures
            final(self).wf(),
            final(self)@ == gated(old(self)@, i as int, now),
    {
        let (heard, placed_at, home) = match self.registry.snapshot(i as u8) {
            Some(v) => (v.heartbeat_seen, v.local_position_seen, v.home_set),
            None => (false, false, false),
        };
        if self.registry.fsm(i as u8) == Some(FsmState::Booting) && heard && placed_at {
            self.pass_gate(i, now, home);
            self.settle_datalink(i);
        }
    }

    fn note_echoes(&mut self, i: usize, mode_word: u32)
        requires
            old(self).wf(),
            i < old(self)@.states.len(),
            mode_word == old(self)@.vehicles[i as int].mode_word,
        ensures
            final(self).wf(),
            final(self)@ == rtl_echoed(offboard_echoed(old(self)@, i as int), i as int),
    {
        if !self.ctxs[i].saw_offboard_echo && mode_word == MODE_WORD_OFFBOARD {
            self.ctxs[i].saw_offboard_echo = true;
            proof {
                let c = CtxModel { saw_offboard_echo: true, ..old(self)@.ctxs[i as int] };
                assert(ctxs_of(self.ctxs@) =~= ctxs_of(old(self).ctxs@).update(i as int, c));
                assert(self@ =~= at_ctx(old(self)@, i as int, c));
            }
            self.note(
                EventKind::TaskEvent,
                Some(i as u8),
                String::from_str(
                    "heartbeat mode echo: OFFBOARD (custom_mode=0x00060000) — operator go-to engaged",
                ),
            );
        }
        let ghost mid = *self;
        assert(mid@ == offboard_echoed(old(self)@, i as int));
        if !self.ctxs[i].saw_rtl_echo && mode_word == MODE_WORD_AUTO_RTL {
            self.ctxs[i].saw_rtl_echo = true;
            proof {
                let c = CtxModel { saw_rtl_echo: true, ..mid@.ctxs[i as int] };
                assert(ctxs_of(self.ctxs@) =~= ctxs_of(mid.ctxs@).update(i as int, c));
                assert(self@ =~= at_ctx(mid@, i as int, c));
            }
            self.note(
                EventKind::SupervisorAction,
                Some(i as u8),
                String::from_str("heartbeat mode echo: AUTO.RTL — operator-verified mode change"),
            );
        }
    }

    fn note_activity(&mut self, i: usize, armed: bool, mode_word: u32)
        requires
            old(self).wf(),
            i < old(self)@.states.len(),
            mode_word == old(self)@.vehicles[i as int].mode_word,
            armed == old(self)@.vehicles[i as int].armed,
        ensures
            final(self).wf(),
            final(self)@ == activity_noted(old(self)@, i as int),
    {
        let (main, _sub) = decode_mode_word(mode_word);
        let active: bool = armed && (main == MAIN_AUTO || main == MAIN_OFFBOARD);
        self.fleet.set_mission_active(i as u8, active);
        assert(self@ =~= activity_noted(old(self)@, i as int));
    }

    fn note_health(&mut self, i: usize, flags: &Vec<String>)
        requires
            old(self).wf(),
            i < old(self)@.states.len(),
        ensures
            final(self).wf(),
            final(self)@ == health_noted(old(self)@, i as int, texts(flags@)),
    {
        let before = copy_texts(&self.ctxs[i].flags);
        let ghost m = self@;
        let ghost was = m.ctxs[i as int].flags;
        let ghost now_set = texts(flags@);
        assert(texts(before@) == was);
        let mut k: usize = 0;
        while k < flags.len()
            invariant
                self.wf(),
                i < self@.states.len(),
                self@.states == m.states,
                k <= flags@.len(),
                texts(before@) == was,
                now_set == texts(flags@),
                self@ == flags_raised(m, i as int, was, now_set, k as nat),
            decreases flags@.len() - k,
        {
            let known: bool = holds(&before, flags[k].as_str());
            proof {
                let t = now_set[k as int];
                if known {
                    let j = choose|j: int| 0 <= j < before@.len() && #[trigger] before@[j]@ == t;
                    assert(texts(before@)[j] == t);
                }
                if was.contains(t) {
                    let j = choose|j: int| 0 <= j < was.len() && was[j] == t;
                    assert(before@[j]@ == t);
                }
                assert(known == was.contains(t));
            }
            if !known {
                self.note(
                    EventKind::HealthFlag,
                    Some(i as u8),
                    joined("health flag raised: ", flags[k].as_str()),
                );
            }
            k = k + 1;
        }
        let ghost s = *self;
        self.ctxs[i].flags = copy_texts(flags);
        proof {
            let c = CtxModel { flags: now_set, ..s@.ctxs[i as int] };
            assert(ctxs_of(self.ctxs@) =~= ctxs_of(s.ctxs@).update(i as int, c));
        }
        self.fleet.set_flags(i as u8, copy_texts(flags));
        assert(self@ =~= health_noted(m, i as int, now_set));
    }

    fn observe_landing(&mut self, i: usize, now: u64, armed: bool)
        requires
            old(self).wf(),
            i < old(self)@.states.len(),
            armed == old(self)@.vehicles[i as int].armed,
        ensures
            final(self).wf(),
            final(self)@ == landing_observed(old(self)@, i as int, now),
    {
        let fsm: FsmState = match self.registry.fsm(i as u8) {
            Some(s) => s,
            None => FsmState::Init,
        };
        if fsm == FsmState::Rtl {
            let since: u64 = match self.ctxs[i].rtl_since_ms {
                Some(t) => t,
                None => now,
            };
            let overdue: bool = now > since.saturating_add(LAND_TIMEOUT_MS);
            if (!armed && now > since.saturating_add(DISARM_SETTLE_MS)) || overdue {
                let text = if overdue {
                    String::from_str(
                        "disarm not observed within 120s; treating vehicle as LANDED (watchdog — check RTL/land progress and teardown)",
                    )
                } else {
                    String::from_str("disarm observed after RTL — vehicle LANDED")
                };
                self.note(EventKind::SupervisorAction, Some(i as u8), text);
                self.step(i as u8, FsmCause::DisarmObserved);
                let ghost s = *self;
                self.ctxs[i].landed_since_ms = Some(now);
                self.ctxs[i].rtl_since_ms = None;
                proof {
                    let c = CtxModel {
                        landed_since_ms: Some(now),
                        rtl_since_ms: None,
                        ..s@.ctxs[i as int]
                    };
                    assert(ctxs_of(self.ctxs@) =~= ctxs_of(s.ctxs@).update(i as int, c));
                    assert(self@ =~= at_ctx(s@, i as int, c));
                }
            } else {
                self.ctxs[i].rtl_since_ms = Some(since);
                proof {
                    let c = CtxModel { rtl_since_ms: Some(since), ..old(self)@.ctxs[i as int] };
                    assert(ctxs_of(self.ctxs@) =~= ctxs_of(old(self).ctxs@).update(i as int, c));
                    assert(self@ =~= at_ctx(old(self)@, i as int, c));
                }
            }
        } else {
            self.ctxs[i].rtl_since_ms = None;
            if fsm == FsmState::Landed && self.ctxs[i].landed_since_ms.is_none() {
                self.ctxs[i].landed_since_ms = Some(now);
            }
            proof {
                let c = self.ctxs@[i as int]@;
                assert(ctxs_of(self.ctxs@) =~= ctxs_of(old(self).ctxs@).update(i as int, c));
                assert(self@ =~= at_ctx(old(self)@, i as int, c));
            }
        }
    }

    fn show_tasks(&mut self, i: usize)
        requires
            old(self).wf(),
            i < old(self)@.states.len(),
        ensures
            final(self).wf(),
            final(self)@ == tasks_shown(old(self)@, i as int),
    {
        let tasks = self.fleet.tasks_snapshot();
        let ghost model = self@.fleet.tasks;
        let mut queue: Vec<String> = Vec::new();
        let mut k: usize = 0;
        assert(texts(queue@) =~= queued_for(model, i as int, 0));
        while k < tasks.len()
            invariant
                i < 256,
                k <= tasks@.len(),
                model == crate::fleet::tasks_of(tasks@),
                texts(queue@) == queued_for(model, i as int, k as nat),
            decreases tasks@.len() - k,
        {
            let t = &tasks[k];
            assert(model[k as int] == t@);
            let mine: bool = match t.assigned {
                Some(v) => v == i as u8,
                None => false,
            };
            if mine && t.state == TaskState::Queued {
                let ghost before = queue@;
                queue.push(t.id.clone());
                assert(texts(queue@) =~= texts(before).push(t.id@));
            }
            k = k + 1;
        }
        let info = VehicleTaskInfo { current: None, queue };
        self.fleet.set_vehicle_tasks(i as u8, info);
        assert(self@ =~= tasks_shown(old(self)@, i as int));
    }

    fn tick_vehicle(&mut self, i: usize, now: u64, input: &VehicleInput)
        requires
            old(self).wf(),
            i < old(self)@.states.len(),
        ensures
            final(self).wf(),
            final(self)@ == vehicle_ticked(old(self)@, i as int, now, *input),
            final(self)@.states.len() == old(self)@.states.len(),
    {
        proof {
            reveal(vehicle_ticked);
        }
        self.note_link(i, input);
        self.run_gate(i, now);
        let (armed, mode_word) = match self.registry.snapshot(i as u8) {
            Some(v) => (v.armed, v.mode_word),
            None => (false, 0),
        };
        self.note_echoes(i, mode_word);
        self.note_activity(i, armed, mode_word);
        proof {
            flags_keep_vehicles(
                self@,
                i as int,
                self@.ctxs[i as int].flags,
                texts(input.flags@),
                texts(input.flags@).len(),
            );
        }
        self.note_health(i, &input.flags);
        self.observe_landing(i, now, armed);
        self.show_tasks(i);
    }

    /// One tick of the supervisor.
    pub fn tick(
        &mut self,
        now: u64,
        dead: &Vec<DeadPair>,
        inputs: &Vec<VehicleInput>,
    ) -> (r: Outcome)
        requires
            old(self).wf(),
            inputs@.len() == old(self)@.states.len(),
        ensures
            final(self).wf(),
            (final(self)@, r) == ticked(old(self)@, now, dead@, inputs@),
    {
        self.fleet.count_tick();
        self.take_in_deaths(dead);
        if self.fleet.estop_requested() && self.abort_grace_until.is_none() {
            self.abort_run(now, "e-stop (operator requested via API)");
        }
        let ghost s = self@;
        assert(s == tick_begun(old(self)@, now, dead@));
        match self.abort_grace_until {
            Some(g) => {
                return if now > g {
                    Outcome::Stop
                } else {
                    Outcome::Continue
                };
            },
            None => {},
        }
        if now > self.hard_deadline_ms {
            self.fleet.set_phase(Phase::Timeout);
            let mut text = String::from_str("run hit the hard wall-clock cap (");
            push_decimal(&mut text, self.hard_deadline_ms / 1000);
            text.append("s) — phase TIMEOUT");
            self.note(EventKind::RunBoundary, None, text);
            return Outcome::Stop;
        }
        if self.all_faulted() {
            self.abort_run(now, "all vehicles FAULT");
            return Outcome::Continue;
        }
        let n: usize = self.ctxs.len();
        proof {
            begun_keeps_length(old(self)@, now, dead@);
        }
        let mut i: usize = 0;
        while i < n
            invariant
                self.wf(),
                i <= n,
                self@.states.len() == n,
                inputs@.len() == n,
                self@ == vehicles_ticked(s, i as nat, now, inputs@),
            decreases n - i,
        {
            self.tick_vehicle(i, now, &inputs[i]);
            i = i + 1;
        }
        Outcome::Continue
    }

    fn all_faulted(&self) -> (r: bool)
        requires
            self.wf(),
        ensures
            r == every_vehicle_faulted(self@),
    {
        if self.ctxs.len() == 0 {
            return false;
        }
        let mut i: usize = 0;
        while i < self.ctxs.len()
            invariant
                self.wf(),
                i <= self.ctxs@.len(),
                self.ctxs@.len() > 0,
                forall|k: int| 0 <= k < i ==> #[trigger] self@.states[k] is Fault,
            decreases self.ctxs@.len() - i,
        {
            if self.registry.fsm(i as u8) != Some(FsmState::Fault) {
                assert(!(self@.states[i as int] is Fault));
                return false;
            }
            i = i + 1;
        }
        true
    }
}

proof fn flags_keep_vehicles(
    m: SupModel,
    i: int,
    before: Seq<Seq<char>>,
    flags: Seq<Seq<char>>,
    n: nat,
)
    ensures
        flags_raised(m, i, before, flags, n).vehicles == m.vehicles,
        flags_raised(m, i, before, flags, n).states == m.states,
        flags_raised(m, i, before, flags, n).ctxs == m.ctxs,
        flags_raised(m, i, before, flags, n).fleet == m.fleet,
    decreases n,
{
    if n > 0 {
        flags_keep_vehicles(m, i, before, flags, (n - 1) as nat);
    }
}

proof fn deaths_keep_length(m: SupModel, dead: Seq<DeadPair>)
    ensures
        all_died(m, dead).states.len() == m.states.len(),
        all_died(m, dead).ctxs == m.ctxs,
    decreases dead.len(),
{
    if dead.len() > 0 {
        deaths_keep_length(died(m, dead[0]), dead.drop_first());
    }
}

proof fn abort_keeps_length(m: SupModel, n: nat)
    ensures
        vehicles_aborted(m, n).states.len() == m.states.len(),
        vehicles_aborted(m, n).ctxs == m.ctxs,
    decreases n,
{
    if n > 0 {
        abort_keeps_length(m, (n - 1) as nat);
    }
}

proof fn begun_keeps_length(m: SupModel, now: u64, dead: Seq<DeadPair>)
    ensures
        tick_begun(m, now, dead).states.len() == m.states.len(),
        tick_begun(m, now, dead).ctxs.len() == m.ctxs.len(),
{
    let s = SupModel {
        fleet: FleetModel { tick_count: m.fleet.tick_count.wrapping_add(1), ..m.fleet },
        ..m
    };
    deaths_keep_length(s, dead);
    let d = all_died(s, dead);
    let a = logging(
        SupModel { fleet: FleetModel { aborted: true, phase: Phase::Aborted, ..d.fleet }, ..d },
        EventKind::RunBoundary,
        None,
        "run ABORTED: "@ + "e-stop (operator requested via API)"@,
    );
    abort_keeps_length(a, d.ctxs.len());
}

// Bring-up and teardown.

/// A run that has not begun: nothing logged, no deadline yet.
pub open spec fn fresh_run(count: u8) -> SupModel {
    SupModel {
        states: Seq::new(count as nat, |i: int| FsmState::Init),
        vehicles: Seq::new(count as nat, |i: int| unheard(i as u8)),
        log: Seq::empty(),
        fleet: fresh_fleet(count),
        ctxs: Seq::new(count as nat, |i: int| fresh_ctx()),
        grace: None,
        deadline: u64::MAX,
        operator_seq: 0,
        actions: Seq::empty(),
    }
}

pub open spec fn opening_text(
    config: Seq<char>,
    count: u8,
    vertices: nat,
    ceiling: Seq<char>,
) -> Seq<char> {
    "run started: config "@ + config + ", "@ + decimal(count as nat) + " vehicles, geofence "@
        + decimal(vertices) + " vertices / ceiling "@ + ceiling + " m, tick 10 Hz"@
}

/// What the end of a spawn does: the vehicle boots, or faults with a line that
/// tells why.
pub open spec fn spawn_ended(m: SupModel, i: u8, failure: Option<Seq<char>>) -> SupModel {
    match failure {
        None => moved(m, i, FsmCause::Px4Launched),
        Some(e) => logging(
            moved(m, i, FsmCause::SpawnFailure),
            EventKind::SupervisorAction,
            Some(i),
            "spawn failed: "@ + e,
        ),
    }
}

/// The fleet is up: the run's clock starts.
pub open spec fn brought_up(m: SupModel, now: u64, hold: bool) -> SupModel {
    SupModel {
        fleet: FleetModel {
            phase: if hold {
                Phase::SetupHold
            } else {
                Phase::BringUp
            },
            ..m.fleet
        },
        deadline: later(now, HARD_DEADLINE_MS),
        ..m
    }
}

pub open spec fn restart_ended(m: SupModel, i: u8, failure: Option<Seq<char>>) -> SupModel {
    logging(
        m,
        EventKind::SupervisorAction,
        Some(i),
        match failure {
            None => "vehicle restart: pair respawned — booting with persisted params"@,
            Some(e) => "vehicle restart FAILED: "@ + e,
        },
    )
}

/// What the write that disables the datalink failsafe came to: the value that
/// was echoed, as text, or no echo at all.
pub open spec fn failsafe_settled(m: SupModel, i: u8, echoed: Option<Seq<char>>) -> SupModel {
    match echoed {
        Some(v) => logging(
            m,
            EventKind::SupervisorAction,
            Some(i),
            "NAV_DLL_ACT="@ + v
                + " confirmed by PARAM_VALUE echo: PX4 datalink failsafe off (ADR-0009)"@,
        ),
        None => logging(
            m,
            EventKind::LinkEscalation,
            Some(i),
            "NAV_DLL_ACT=0 write unconfirmed (no PARAM_VALUE echo): PX4 GCS-connection arming gate may block flight"@,
        ),
    }
}

/// Streams of the first `n` vehicles are to stop.
pub open spec fn streams_stopped(m: SupModel, n: nat) -> SupModel
    decreases n,
{
    if n == 0 {
        m
    } else {
        acting(streams_stopped(m, (n - 1) as nat), SupAction::StopStream((n - 1) as u8))
    }
}

/// The run ends: a line says in which phase and when, every stream stops and
/// every link is dropped.
pub open spec fn ended(m: SupModel, seconds: Seq<char>) -> SupModel {
    let s = streams_stopped(
        logging(
            m,
            EventKind::RunBoundary,
            None,
            "run end (phase "@ + m.fleet.phase.text() + ") after "@ + seconds + "s"@,
        ),
        m.ctxs.len(),
    );
    SupModel {
        fleet: FleetModel {
            linked: crate::fleet::all_same(s.fleet.count as nat, false),
            ..s.fleet
        },
        ..s
    }
}

pub open spec fn exit_status(m: SupModel) -> i32 {
    if m.fleet.aborted {
        EXIT_ABORTED
    } else {
        0
    }
}

/// Number of looks at the ports before teardown gives up.
pub const PROBE_TRIES: u32 = 20;

/// Whether the ports are looked at once more, after `tries` looks.
pub fn probe_again(tries: u32, free: bool) -> (r: bool)
    ensures
        r == (!free && tries < PROBE_TRIES),
{
    !free && tries < PROBE_TRIES
}

/// The line that ends a run's log: the ports are free, or these are not.
pub open spec fn teardown_text(bound: Seq<Seq<char>>, free: bool) -> Seq<char> {
    if free {
        "teardown verified: no processes, all §17 ports free (F-1 probe)"@
    } else {
        "TEARDOWN WARNING: ports still bound after 10 s: "@ + quoted_list(bound)
    }
}

impl Supervisor {
    /// A run over `count` vehicles.
    pub fn new(count: u8) -> (r: Self)
        ensures
            r.wf(),
            r@ == fresh_run(count),
    {
        let mut ctxs: Vec<VehCtx> = Vec::new();
        let mut i: u8 = 0;
        while i < count
            invariant
                i <= count,
                ctxs@.len() == i,
                forall|k: int| 0 <= k < i ==> (#[trigger] ctxs@[k])@ == fresh_ctx(),
            decreases count - i,
        {
            ctxs.push(VehCtx::new());
            i = i + 1;
        }
        let r = Supervisor {
            registry: Registry::new(count),
            log: EventLog::in_memory(),
            fleet: FleetState::new(count),
            ctxs,
            abort_grace_until: None,
            hard_deadline_ms: u64::MAX,
            operator_seq: 0,
            actions: Vec::new(),
        };
        assert(r@ =~= fresh_run(count));
        r
    }

    /// Log what the run flies.
    pub fn open_run(&mut self, config: &str, vertices: usize, ceiling: &str)
        requires
            old(self).wf(),
        ensures
            final(self).wf(),
            final(self)@ == logging(
                old(self)@,
                EventKind::RunBoundary,
                None,
                opening_text(config@, old(self)@.fleet.count, vertices as nat, ceiling@),
            ),
    {
        let mut s = String::from_str("run started: config ");
        s.append(config);
        s.append(", ");
        push_decimal(&mut s, self.fleet.count() as u64);
        s.append(" vehicles, geofence ");
        push_decimal(&mut s, vertices as u64);
        s.append(" vertices / ceiling ");
        s.append(ceiling);
        s.append(" m, tick 10 Hz");
        self.note(EventKind::RunBoundary, None, s);
    }

    /// Log the interpreter that the simulator will run under.
    pub fn note_interpreter(&mut self, name: &str)
        requires
            old(self).wf(),
        ensures
            final(self).wf(),
            final(self)@ == logging(
                old(self)@,
                EventKind::RunBoundary,
                None,
                "sim interpreter: "@ + name@ + " (pymavlink import verified at startup)"@,
            ),
    {
        let mut s = joined("sim interpreter: ", name);
        s.append(" (pymavlink import verified at startup)");
        self.note(EventKind::RunBoundary, None, s);
    }

    /// A vehicle's processes are about to be started.
    pub fn begin_spawn(&mut self, i: u8)
        requires
            old(self).wf(),
        ensures
            final(self).wf(),
            final(self)@ == moved(old(self)@, i, FsmCause::Spawn),
    {
        self.step(i, FsmCause::Spawn);
    }

    /// A vehicle's processes were started, or could not be.
    pub fn end_spawn(&mut self, i: u8, failure: Option<&str>)
        requires
            old(self).wf(),
        ensures
            final(self).wf(),
            final(self)@ == spawn_ended(old(self)@, i, opt_view(failure)),
    {
        match failure {
            None => {
                self.step(i, FsmCause::Px4Launched);
            },
            Some(e) => {
                self.step(i, FsmCause::SpawnFailure);
                self.note(EventKind::SupervisorAction, Some(i), joined("spawn failed: ", e));
            },
        }
    }

    /// Every vehicle was spawned or given up.
    pub fn bring_up_done(&mut self, now: u64, hold: bool)
        requires
            old(self).wf(),
        ensures
            final(self).wf(),
            final(self)@ == brought_up(old(self)@, now, hold),
    {
        self.fleet.set_phase(
            if hold {
                Phase::SetupHold
            } else {
                Phase::BringUp
            },
        );
        self.hard_deadline_ms = now.saturating_add(HARD_DEADLINE_MS);
    }

    /// Take in a telemetry event of a vehicle.
    pub fn observe(&mut self, i: u8, e: &TelemetryEvent, now: u64)
        requires
            old(self).wf(),
        ensures
            final(self).wf(),
            final(self)@ == (SupModel {
                vehicles: if i < old(self)@.vehicles.len() {
                    old(self)@.vehicles.update(
                        i as int,
                        observed(old(self)@.vehicles[i as int], e@, now),
                    )
                } else {
                    old(self)@.vehicles
                },
                ..old(self)@
            }),
    {
        self.registry.observe(i, e, now);
    }

    /// A requested restart begins.
    pub fn begin_restart(&mut self, i: u8)
        requires
            old(self).wf(),
        ensures
            final(self).wf(),
            final(self)@ == logging(
                old(self)@,
                EventKind::SupervisorAction,
                Some(i),
                "vehicle restart: airframe change (SYS_AUTOSTART) — respawn pair"@,
            ),
    {
        self.note(
            EventKind::SupervisorAction,
            Some(i),
            String::from_str("vehicle restart: airframe change (SYS_AUTOSTART) — respawn pair"),
        );
    }

    /// A requested restart succeeded, or failed.
    pub fn end_restart(&mut self, i: u8, failure: Option<&str>)
        requires
            old(self).wf(),
        ensures
            final(self).wf(),
            final(self)@ == restart_ended(old(self)@, i, opt_view(failure)),
    {
        let text = match failure {
            None => String::from_str(
                "vehicle restart: pair respawned — booting with persisted params",
            ),
            Some(e) => joined("vehicle restart FAILED: ", e),
        };
        self.note(EventKind::SupervisorAction, Some(i), text);
    }

    /// What became of the write that disables the datalink failsafe.
    pub fn note_failsafe(&mut self, i: u8, echoed: Option<&str>)
        requires
            old(self).wf(),
        ensures
            final(self).wf(),
            final(self)@ == failsafe_settled(old(self)@, i, opt_view(echoed)),
    {
        match echoed {
            Some(v) => {
                let mut s = joined("NAV_DLL_ACT=", v);
                s.append(" confirmed by PARAM_VALUE echo: PX4 datalink failsafe off (ADR-0009)");
                self.note(EventKind::SupervisorAction, Some(i), s);
            },
            None => {
                self.note(
                    EventKind::LinkEscalation,
                    Some(i),
                    String::from_str(
                        "NAV_DLL_ACT=0 write unconfirmed (no PARAM_VALUE echo): PX4 GCS-connection arming gate may block flight",
                    ),
                );
            },
        }
    }

    /// The answer to a command, under the command's name.
    pub fn note_ack(&mut self, i: u8, label: &str, ack: CmdAck)
        requires
            old(self).wf(),
        ensures
            final(self).wf(),
            final(self)@ == logging(old(self)@, ack_kind(ack), Some(i), ack_line(label@, ack)),
    {
        let text = ack_text(label, ack);
        let kind = match ack {
            CmdAck::Accepted => EventKind::SupervisorAction,
            _ => EventKind::LinkEscalation,
        };
        self.note(kind, Some(i), text);
    }

    /// Close the run before teardown; `seconds` is the run's length to one
    /// decimal.
    pub fn end_run(&mut self, seconds: &str)
        requires
            old(self).wf(),
        ensures
            final(self).wf(),
            final(self)@ == ended(old(self)@, seconds@),
    {
        let mut s = String::from_str("run end (phase ");
        s.append(self.fleet.phase().name());
        s.append(") after ");
        s.append(seconds);
        s.append("s");
        self.note(EventKind::RunBoundary, None, s);
        let ghost m = self@;
        let n: usize = self.ctxs.len();
        let mut i: usize = 0;
        while i < n
            invariant
                self.wf(),
                i <= n <= 255,
                n == m.ctxs.len(),
                self@ == streams_stopped(m, i as nat),
            decreases n - i,
        {
            self.act(SupAction::StopStream(i as u8));
            i = i + 1;
        }
        self.fleet.drop_links();
    }

    /// Log whether teardown freed every port.
    pub fn note_teardown(&mut self, free: bool, bound: &Vec<String>)
        requires
            old(self).wf(),
        ensures
            final(self).wf(),
            final(self)@ == logging(
                old(self)@,
                EventKind::RunBoundary,
                None,
                teardown_text(texts(bound@), free),
            ),
    {
        let text = if free {
            String::from_str("teardown verified: no processes, all §17 ports free (F-1 probe)")
        } else {
            let mut s = String::from_str("TEARDOWN WARNING: ports still bound after 10 s: ");
            push_quoted_list(&mut s, bound);
            s
        };
        self.note(EventKind::RunBoundary, None, text);
    }

    /// The run's exit code.
    pub fn exit_code(&self) -> (r: i32)
        ensures
            r == (if self@.fleet.aborted {
                EXIT_ABORTED
            } else {
                0
            }),
            r == exit_status(self@),
    {
        if self.fleet.aborted() {
            EXIT_ABORTED
        } else {
            0
        }
    }

    /// The actions that are due, oldest first; they are due no more.
    pub fn take_actions(&mut self) -> (r: Vec<SupAction>)
        requires
            old(self).wf(),
        ensures
            final(self).wf(),
            r@ == old(self)@.actions,
            final(self)@ == (SupModel { actions: Seq::empty(), ..old(self)@ }),
    {
        let mut r: Vec<SupAction> = Vec::new();
        std::mem::swap(&mut r, &mut self.actions);
        assert(self@ =~= (SupModel { actions: Seq::empty(), ..old(self)@ }));
        r
    }

    pub fn registry(&self) -> (r: &Registry)
        requires
            self.wf(),
        ensures
            r.wf(),
            r.states() == self@.states,
            r.vehicles() == self@.vehicles,
            r.states().len() == self@.fleet.count,
            r.vehicles().len() == self@.fleet.count,
    {
        &self.registry
    }

    pub fn log(&self) -> (r: &EventLog)
        ensures
            r@ == self@.log,
    {
        &self.log
    }

    pub fn fleet(&self) -> (r: &FleetState)
        requires
            self.wf(),
        ensures
            r.wf(),
            r@ == self@.fleet,
    {
        &self.fleet
    }

    /// The control plane's part of the state, to be changed in place.
    pub fn control(&mut self) -> (r: &mut FleetState)
        requires
            old(self).wf(),
        ensures
            r.wf(),
            r@ == old(self)@.fleet,
            final(self)@ == (SupModel { fleet: final(r)@, ..old(self)@ }),
            final(r).wf() && final(r)@.count == old(self)@.fleet.count ==> final(self).wf(),
    {
        &mut self.fleet
    }

    /// Apply a cause to a vehicle.
    pub fn apply_cause(&mut self, i: u8, cause: FsmCause)
        requires
            old(self).wf(),
        ensures
            final(self).wf(),
            final(self)@ == moved(old(self)@, i, cause),
    {
        self.step(i, cause);
    }

    /// Add a line to the log.
    pub fn note_action(&mut self, kind: EventKind, vehicle: Option<u8>, text: String)
        requires
            old(self).wf(),
        ensures
            final(self).wf(),
            final(self)@ == logging(old(self)@, kind, vehicle, text@),
    {
        self.note(kind, vehicle, text);
    }

    /// Drop the tasks that wait.
    pub fn clear_queued_operator_tasks(&mut self) -> (r: ClearAck)
        requires
            old(self).wf(),
        ensures
            final(self).wf(),
            final(self)@ == board_cleared(old(self)@),
            r.cleared == waiting(old(self)@.fleet.tasks),
    {
        let n: usize = self.fleet.clear_waiting_tasks();
        if n > 0 {
            let mut s = String::from_str("operator: cleared ");
            push_decimal(&mut s, n as u64);
            s.append(" queued mission task(s)");
            self.note(EventKind::SupervisorAction, None, s);
        }
        ClearAck { cleared: n }
    }

    fn pool(&self) -> (n: usize)
        ensures
            n == pending_count(self@.fleet.tasks),
    {
        let tasks = self.fleet.tasks_snapshot();
        let ghost all = self@.fleet.tasks;
        let mut n: usize = 0;
        let mut i: usize = 0;
        assert(all.subrange(0, 0) =~= Seq::<TaskModel>::empty());
        while i < tasks.len()
            invariant
                i <= tasks@.len(),
                n <= i,
                all == crate::fleet::tasks_of(tasks@),
                n == pending_count(all.subrange(0, i as int)),
            decreases tasks@.len() - i,
        {
            proof {
                let s = all.subrange(0, i + 1);
                assert(s.drop_last() =~= all.subrange(0, i as int));
                assert(s.last() == tasks@[i as int]@);
            }
            if tasks[i].state == TaskState::Pending {
                n = n + 1;
            }
            i = i + 1;
        }
        assert(all.subrange(0, all.len() as int) =~= all);
        n
    }

    /// Take in the operator's waypoints.
    pub fn operator_upload(
        &mut self,
        items: &Vec<OperatorWaypoint>,
        facts: &Vec<PlacementFacts>,
        replace: bool,
    ) -> (r: UploadAck)
        requires
            old(self).wf(),
            items@.len() == facts@.len(),
        ensures
            final(self).wf(),
            ({
                let u = uploaded(old(self)@, items@, facts@, replace);
                &&& final(self)@ == u.run
                &&& texts(r.accepted@) == u.accepted
                &&& pairs_of(r.rejected@) == u.rejected
                &&& r.pool == pending_count(u.run.fleet.tasks)
            }),
    {
        if replace {
            let _ = self.clear_queued_operator_tasks();
        }
        let ghost m = self@;
        let mut accepted: Vec<String> = Vec::new();
        let mut rejected: Vec<(String, String)> = Vec::new();
        let mut k: usize = 0;
        assert(texts(accepted@) =~= Seq::<Seq<char>>::empty());
        assert(pairs_of(rejected@) =~= Seq::<(Seq<char>, Seq<char>)>::empty());
        while k < items.len()
            invariant
                self.wf(),
                k <= items@.len(),
                items@.len() == facts@.len(),
                ({
                    let u = taken_in(m, items@, facts@, k as nat);
                    &&& self@ == u.run
                    &&& texts(accepted@) == u.accepted
                    &&& pairs_of(rejected@) == u.rejected
                }),
            decreases items@.len() - k,
        {
            let ghost before_a = accepted@;
            let ghost before_r = rejected@;
            match refuse(&items[k], &facts[k]) {
                Some(reason) => {
                    rejected.push((label(&items[k], k), reason));
                    assert(pairs_of(rejected@) =~= pairs_of(before_r).push(
                        (label_of(items@[k as int], k as int), reason@),
                    ));
                },
                None => {
                    let ghost s = self@;
                    self.operator_seq = self.operator_seq.wrapping_add(1);
                    let mut id = String::from_str("op");
                    push_decimal(&mut id, self.operator_seq as u64);
                    let task = TaskStatus {
                        id: id.clone(),
                        pos_ned_m: facts[k].position,
                        assigned: None,
                        state: TaskState::Pending,
                        hover_observed: None,
                    };
                    assert(task@ =~= operator_task(self.operator_seq, facts@[k as int].position));
                    self.fleet.add_task(task);
                    accepted.push(id);
                    assert(texts(accepted@) =~= texts(before_a).push(id@));
                    assert(self@ =~= (SupModel {
                        operator_seq: s.operator_seq.wrapping_add(1),
                        fleet: FleetModel { tasks: s.fleet.tasks.push(task@), ..s.fleet },
                        ..s
                    }));
                },
            }
            k = k + 1;
        }
        let pool: usize = self.pool();
        if accepted.len() > 0 {
            let mut s = String::from_str("operator mission upload: ");
            push_decimal(&mut s, accepted.len() as u64);
            s.append(" waypoint(s) accepted (");
            push_quoted_list(&mut s, &accepted);
            s.append("), ");
            push_decimal(&mut s, rejected.len() as u64);
            s.append(" rejected, pool ");
            push_decimal(&mut s, pool as u64);
            self.note(EventKind::SupervisorAction, None, s);
        }
        UploadAck { accepted, rejected, pool }
    }

    /// Start the run the operator prepared.
    pub fn operator_start(&mut self) -> (r: StartAck)
        requires
            old(self).wf(),
        ensures
            final(self).wf(),
            final(self)@ == started(old(self)@).0,
            r.started == (started(old(self)@).1 is None),
            crate::fleet::opt_text(r.reason) == started(old(self)@).1,
    {
        let phase: Phase = self.fleet.phase();
        if phase == Phase::Running {
            return StartAck {
                started: false,
                reason: Some(String::from_str("mission already started")),
            };
        }
        if phase == Phase::Aborted || phase == Phase::Timeout {
            return StartAck { started: false, reason: Some(joined("run is ", phase.name())) };
        }
        self.fleet.set_phase(Phase::Running);
        self.note(
            EventKind::RunBoundary,
            None,
            String::from_str(
                "operator mission start: phase RUNNING — operator in the loop (use POST /api/fleet/start to upload + arm the bound catalog missions, or POST /api/vehicles/{i}/goto for a single waypoint)",
            ),
        );
        StartAck { started: true, reason: None }
    }
}

} // verus!
