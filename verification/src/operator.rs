//! The operator's control plane: which requests are refused and with what
//! answer, what an accepted one sends to the vehicle, and what it leaves in
//! the log.

use vstd::prelude::*;
use crate::events::EventKind;
use crate::fleet::FleetState;
#[allow(unused_imports)]
use crate::fleet::FleetModel;
use crate::float::{f32_is_finite, f32_le, f32_lt, f64_is_finite, f64_lt};
#[allow(unused_imports)]
use crate::float::{f32_at_most, f32_finite, f32_less, f64_finite, f64_less};
use crate::fsm::{FsmCause, FsmState};
use crate::link::CmdAck;
use crate::messages::CmdParams;
use crate::modes::mode_word_by_name;
#[allow(unused_imports)]
use crate::modes::word_named;
use crate::params::ParamVal;
use crate::supervisor::{is_on_globe, OperatorWaypoint, Supervisor};
#[allow(unused_imports)]
use crate::supervisor::{bool_text, logging, moved, on_globe, SupModel};
use crate::text::{joined, longer_than, push_decimal, same, trim_text};
#[allow(unused_imports)]
use crate::text::{byte_len, decimal, trimmed};

verus! {

/// A request that is not carried out: an HTTP status and the reason.
#[derive(Debug, Clone, PartialEq, Eq)]
pub struct Refusal {
    pub status: u16,
    pub message: String,
}

#[verifier::ext_equal]
pub struct RefusalModel {
    pub status: u16,
    pub message: Seq<char>,
}

impl View for Refusal {
    type V = RefusalModel;

    open spec fn view(&self) -> RefusalModel {
        RefusalModel { status: self.status, message: self.message@ }
    }
}

fn refused(status: u16, message: &str) -> (r: Refusal)
    ensures
        r@ == (RefusalModel { status, message: message@ }),
{
    Refusal { status, message: String::from_str(message) }
}

pub open spec fn gate_result(r: Result<(), Refusal>) -> Result<(), RefusalModel> {
    match r {
        Ok(_) => Ok(()),
        Err(e) => Err(e@),
    }
}

pub open spec fn out_of_range(index: u8, count: u8) -> RefusalModel {
    RefusalModel {
        status: 404,
        message: "vehicle index "@ + decimal(index as nat) + " out of range (fleet count "@
            + decimal(count as nat) + ")"@,
    }
}

pub open spec fn no_link() -> RefusalModel {
    RefusalModel { status: 409, message: "vehicle link not registered (spawn failed?)"@ }
}

/// The vehicle exists.
pub open spec fn index_gate(m: FleetModel, index: u8) -> Result<(), RefusalModel> {
    if index >= m.count {
        Err(out_of_range(index, m.count))
    } else {
        Ok(())
    }
}

pub open spec fn has_link(m: FleetModel, index: u8) -> bool {
    index < m.linked.len() && m.linked[index as int]
}

pub open spec fn flies_mission(m: FleetModel, index: u8) -> bool {
    index < m.mission_active.len() && m.mission_active[index as int]
}

/// The vehicle's link is up.
pub open spec fn link_gate(m: FleetModel, index: u8) -> Result<(), RefusalModel> {
    if has_link(m, index) {
        Ok(())
    } else {
        Err(no_link())
    }
}

/// A guided command may go out: the vehicle exists, flies no mission of its
/// own and has a link.
pub open spec fn guided_gate(m: FleetModel, index: u8) -> Result<(), RefusalModel> {
    if index >= m.count {
        Err(out_of_range(index, m.count))
    } else if flies_mission(m, index) {
        Err(
            RefusalModel {
                status: 409,
                message: "vehicle is flying an autonomous mission — guided commands are gated (ADR-0017); use e-stop to abort the fleet"@,
            },
        )
    } else {
        link_gate(m, index)
    }
}

/// Whether a vehicle exists.
pub fn check_index(fleet: &FleetState, index: u8) -> (r: Result<(), Refusal>)
    ensures
        gate_result(r) == index_gate(fleet@, index),
{
    let count: u8 = fleet.count();
    if index < count {
        return Ok(());
    }
    let mut s = String::from_str("vehicle index ");
    push_decimal(&mut s, index as u64);
    s.append(" out of range (fleet count ");
    push_decimal(&mut s, count as u64);
    s.append(")");
    Err(Refusal { status: 404, message: s })
}

/// Whether a vehicle's link is up.
pub fn check_link(fleet: &FleetState, index: u8) -> (r: Result<(), Refusal>)
    ensures
        gate_result(r) == link_gate(fleet@, index),
{
    if fleet.link(index) {
        Ok(())
    } else {
        Err(refused(409, "vehicle link not registered (spawn failed?)"))
    }
}

/// Whether a guided command may go out to a vehicle.
pub fn guided_gates(fleet: &FleetState, index: u8) -> (r: Result<(), Refusal>)
    ensures
        gate_result(r) == guided_gate(fleet@, index),
{
    match check_index(fleet, index) {
        Ok(_) => {},
        Err(e) => return Err(e),
    }
    if fleet.mission_active(index) {
        return Err(
            refused(
                409,
                "vehicle is flying an autonomous mission — guided commands are gated (ADR-0017); use e-stop to abort the fleet",
            ),
        );
    }
    check_link(fleet, index)
}

// Answers to commands.

/// The result number of an answer, 255 where none came.
pub open spec fn ack_number(ack: CmdAck) -> u8 {
    match ack {
        CmdAck::Accepted => 0,
        CmdAck::Rejected { result } => result,
        CmdAck::Timeout { .. } => 255,
    }
}

/// The result number of an answer, and whether it is an acceptance.
pub fn ack_summary(ack: CmdAck) -> (r: (u8, bool))
    ensures
        r.0 == ack_number(ack),
        r.1 == (ack is Accepted),
{
    match ack {
        CmdAck::Accepted => (0, true),
        CmdAck::Rejected { result } => (result, false),
        CmdAck::Timeout { .. } => (255, false),
    }
}

/// An answer as the log shows it.
pub open spec fn ack_word(ack: CmdAck) -> Seq<char> {
    match ack {
        CmdAck::Accepted => "ACCEPTED"@,
        CmdAck::Rejected { result } => "Rejected { result: "@ + decimal(result as nat) + " }"@,
        CmdAck::Timeout { attempts } => "Timeout { attempts: "@ + decimal(attempts as nat)
            + " }"@,
    }
}

fn ack_shown(ack: CmdAck) -> (r: String)
    ensures
        r@ == ack_word(ack),
{
    match ack {
        CmdAck::Accepted => String::from_str("ACCEPTED"),
        CmdAck::Rejected { result } => {
            let mut s = String::from_str("Rejected { result: ");
            push_decimal(&mut s, result as u64);
            s.append(" }");
            s
        },
        CmdAck::Timeout { attempts } => {
            let mut s = String::from_str("Timeout { attempts: ");
            push_decimal(&mut s, attempts as u64);
            s.append(" }");
            s
        },
    }
}

pub open spec fn accepted_word(accepted: bool) -> Seq<char> {
    if accepted {
        "ACCEPTED"@
    } else {
        "not accepted"@
    }
}

fn accepted_name(accepted: bool) -> (r: &'static str)
    ensures
        r@ == accepted_word(accepted),
{
    if accepted {
        "ACCEPTED"
    } else {
        "not accepted"
    }
}

// Numbers, single precision.

pub const F32_1: u32 = 0x3F80_0000;

pub const F32_2: u32 = 0x4000_0000;

pub const F32_4: u32 = 0x4080_0000;

/// The altitude of a take-off that names none: 10 m, single precision.
pub const DEFAULT_TAKEOFF_ALT: u32 = 0x4120_0000;

pub const F32_120: u32 = 0x42F0_0000;

/// 120, double precision.
pub const F64_120: u64 = 0x405E_0000_0000_0000;

pub open spec fn no_params() -> CmdParams {
    CmdParams { p1: 0, p2: 0, p3: 0, p4: 0, p5: 0, p6: 0, p7: 0 }
}

fn zero_params() -> (r: CmdParams)
    ensures
        r == no_params(),
{
    CmdParams { p1: 0, p2: 0, p3: 0, p4: 0, p5: 0, p6: 0, p7: 0 }
}

// Uploads.

/// What is wrong with an uploaded waypoint before geometry is asked.
pub open spec fn waypoint_fault(w: OperatorWaypoint) -> Option<Seq<char>> {
    if !f64_finite(w.lat_deg) || !f64_finite(w.lon_deg) || !f64_finite(w.alt_m) {
        Some("lat/lon/alt must be finite"@)
    } else if !on_globe(w.lat_deg, w.lon_deg) {
        Some("lat/lon out of range"@)
    } else if f64_less(w.alt_m, 0) {
        Some("alt_m (AGL) must be >= 0"@)
    } else {
        None
    }
}

/// What is wrong with the first faulty one of the first `n` waypoints.
pub open spec fn waypoints_fault(items: Seq<OperatorWaypoint>, n: nat) -> Option<Seq<char>>
    decreases n,
{
    if n == 0 {
        None
    } else {
        match waypoints_fault(items, (n - 1) as nat) {
            Some(e) => Some(e),
            None => waypoint_fault(items[n - 1]),
        }
    }
}

/// Most waypoints of one upload.
pub const MAX_UPLOAD: usize = 64;

pub open spec fn upload_gate(items: Seq<OperatorWaypoint>) -> Result<(), RefusalModel> {
    if items.len() == 0 {
        Err(RefusalModel { status: 422, message: "items must not be empty"@ })
    } else if items.len() > MAX_UPLOAD {
        Err(RefusalModel { status: 422, message: "too many items (max 64)"@ })
    } else {
        match waypoints_fault(items, items.len()) {
            Some(e) => Err(RefusalModel { status: 422, message: e }),
            None => Ok(()),
        }
    }
}

proof fn later_waypoints_do_not_matter(items: Seq<OperatorWaypoint>, n: nat, m: nat)
    requires
        n <= m,
        waypoints_fault(items, n) is Some,
    ensures
        waypoints_fault(items, m) == waypoints_fault(items, n),
    decreases m,
{
    if n < m {
        later_waypoints_do_not_matter(items, n, (m - 1) as nat);
    }
}

fn check_waypoint(w: &OperatorWaypoint) -> (r: Option<&'static str>)
    ensures
        (match r {
            Some(t) => Some(t@),
            None => None,
        }) == waypoint_fault(*w),
{
    if !f64_is_finite(w.lat_deg) || !f64_is_finite(w.lon_deg) || !f64_is_finite(w.alt_m) {
        Some("lat/lon/alt must be finite")
    } else if !is_on_globe(w.lat_deg, w.lon_deg) {
        Some("lat/lon out of range")
    } else if f64_lt(w.alt_m, 0) {
        Some("alt_m (AGL) must be >= 0")
    } else {
        None
    }
}

/// Whether an upload is passed on.
pub fn check_upload(items: &Vec<OperatorWaypoint>) -> (r: Result<(), Refusal>)
    ensures
        gate_result(r) == upload_gate(items@),
{
    if items.len() == 0 {
        return Err(refused(422, "items must not be empty"));
    }
    if items.len() > MAX_UPLOAD {
        return Err(refused(422, "too many items (max 64)"));
    }
    let mut i: usize = 0;
    while i < items.len()
        invariant
            i <= items@.len(),
            0 < items@.len() <= MAX_UPLOAD,
            waypoints_fault(items@, i as nat) is None,
        decreases items@.len() - i,
    {
        match check_waypoint(&items[i]) {
            Some(e) => {
                proof {
                    assert(waypoints_fault(items@, i as nat + 1) == Some(e@));
                    later_waypoints_do_not_matter(items@, i as nat + 1, items@.len());
                }
                return Err(refused(422, e));
            },
            None => {},
        }
        i = i + 1;
    }
    Ok(())
}

/// Whether an upload replaces what waits.
pub fn replaces(mode: Option<&str>) -> (r: bool)
    ensures
        r == (mode is Some && mode->0@ == "replace"@),
{
    match mode {
        Some(m) => same(m, "replace"),
        None => false,
    }
}

// Parameters.

/// A parameter write as it goes out.
#[derive(Debug, Clone, PartialEq, Eq)]
pub struct ParamWrite {
    pub id: String,
    pub wire_type: u8,
    pub value: ParamVal,
}

/// The wire's number for 32-bit integers.
pub const INT32_TYPE: u8 = 6;

/// The wire's number for single precision.
pub const REAL32_TYPE: u8 = 9;

/// The type a parameter is written in: as asked, else as cached, else single
/// precision.
pub open spec fn write_type(asked: Option<u8>, cached: Option<u8>) -> u8 {
    match asked {
        Some(t) => t,
        None => match cached {
            Some(t) => t,
            None => REAL32_TYPE,
        },
    }
}

/// What a write sends: `whole` is the value cut to an integer, `single` the
/// value in single precision.
pub open spec fn write_value(wire_type: u8, whole: i64, single: u32) -> Result<
    ParamVal,
    RefusalModel,
> {
    if wire_type == INT32_TYPE {
        if i32::MIN <= whole <= i32::MAX {
            Ok(ParamVal::Int32(whole as i32))
        } else {
            Err(RefusalModel { status: 422, message: "INT32 param value out of range"@ })
        }
    } else if f32_finite(single) {
        Ok(ParamVal::Real32(single))
    } else {
        Err(RefusalModel { status: 422, message: "param value must be finite"@ })
    }
}

pub open spec fn param_write(
    m: FleetModel,
    index: u8,
    id: Seq<char>,
    whole: i64,
    single: u32,
    asked: Option<u8>,
    cached: Option<u8>,
) -> Result<(Seq<char>, u8, ParamVal), RefusalModel> {
    if index >= m.count {
        Err(out_of_range(index, m.count))
    } else if !has_link(m, index) {
        Err(no_link())
    } else if trimmed(id).len() == 0 || byte_len(trimmed(id)) > 16 {
        Err(RefusalModel { status: 422, message: "param id must be 1..=16 chars"@ })
    } else {
        match write_value(write_type(asked, cached), whole, single) {
            Ok(v) => Ok((trimmed(id), write_type(asked, cached), v)),
            Err(e) => Err(e),
        }
    }
}

/// Whether a parameter write goes out, and how; `cached` is the type the
/// vehicle reported for the parameter, looked up under the trimmed id.
pub fn check_param_write(
    fleet: &FleetState,
    index: u8,
    id: &str,
    whole: i64,
    single: u32,
    asked: Option<u8>,
    cached: Option<u8>,
) -> (r: Result<ParamWrite, Refusal>)
    ensures
        (match r {
            Ok(w) => Ok((w.id@, w.wire_type, w.value)),
            Err(e) => Err(e@),
        }) == param_write(fleet@, index, id@, whole, single, asked, cached),
{
    match check_index(fleet, index) {
        Ok(_) => {},
        Err(e) => return Err(e),
    }
    match check_link(fleet, index) {
        Ok(_) => {},
        Err(e) => return Err(e),
    }
    let name = trim_text(id);
    proof {
        reveal_strlit("");
        assert(name@.len() == 0 <==> name@ =~= ""@);
    }
    if same(name.as_str(), "") || longer_than(name.as_str(), 16) {
        return Err(refused(422, "param id must be 1..=16 chars"));
    }
    let wire_type: u8 = match asked {
        Some(t) => t,
        None => match cached {
            Some(t) => t,
            None => REAL32_TYPE,
        },
    };
    let value = if wire_type == INT32_TYPE {
        if whole < i32::MIN as i64 || whole > i32::MAX as i64 {
            return Err(refused(422, "INT32 param value out of range"));
        }
        ParamVal::Int32(whole as i32)
    } else {
        if !f32_is_finite(single) {
            return Err(refused(422, "param value must be finite"));
        }
        ParamVal::Real32(single)
    };
    Ok(ParamWrite { id: name, wire_type, value })
}

pub open spec fn param_line(
    id: Seq<char>,
    value: Seq<char>,
    wire_type: u8,
    confirmed: bool,
) -> Seq<char> {
    "setup: param write "@ + id + "="@ + value + " (type "@ + decimal(wire_type as nat)
        + ") via API — "@ + if confirmed {
        "echo confirmed"@
    } else {
        "UNCONFIRMED (no PARAM_VALUE echo)"@
    }
}

/// Log a parameter write; `value` is the written value as text.
pub fn note_param_write(
    sup: &mut Supervisor,
    index: u8,
    id: &str,
    value: &str,
    wire_type: u8,
    confirmed: bool,
)
    requires
        old(sup).wf(),
    ensures
        final(sup).wf(),
        final(sup)@ == logging(
            old(sup)@,
            EventKind::SupervisorAction,
            Some(index),
            param_line(id@, value@, wire_type, confirmed),
        ),
{
    let mut s = joined("setup: param write ", id);
    s.append("=");
    s.append(value);
    s.append(" (type ");
    push_decimal(&mut s, wire_type as u64);
    s.append(") via API — ");
    s.append(
        if confirmed {
            "echo confirmed"
        } else {
            "UNCONFIRMED (no PARAM_VALUE echo)"
        },
    );
    sup.note_action(EventKind::SupervisorAction, Some(index), s);
}

/// Log a requested parameter download.
pub fn note_param_refresh(sup: &mut Supervisor, index: u8, requested: bool)
    requires
        old(sup).wf(),
    ensures
        final(sup).wf(),
        final(sup)@ == logging(
            old(sup)@,
            EventKind::SupervisorAction,
            Some(index),
            "setup: parameter download requested via API — "@ + bool_text(requested),
        ),
{
    let s = joined(
        "setup: parameter download requested via API — ",
        if requested {
            "true"
        } else {
            "false"
        },
    );
    sup.note_action(EventKind::SupervisorAction, Some(index), s);
}

// Airframes.

pub open spec fn airframe_gate(m: SupModel, index: u8, id: u32, known: bool) -> Result<
    (),
    RefusalModel,
> {
    if index >= m.fleet.count {
        Err(out_of_range(index, m.fleet.count))
    } else if !known {
        Err(
            RefusalModel {
                status: 422,
                message: "SYS_AUTOSTART "@ + decimal(id as nat)
                    + " is not in the airframe catalog"@,
            },
        )
    } else if !has_link(m.fleet, index) {
        Err(no_link())
    } else if index < m.vehicles.len() && m.vehicles[index as int].armed {
        Err(
            RefusalModel {
                status: 409,
                message: "vehicle is ARMED — land before changing the airframe (QGC gate)"@,
            },
        )
    } else {
        Ok(())
    }
}

fn is_armed(sup: &Supervisor, index: u8) -> (r: bool)
    requires
        sup.wf(),
    ensures
        r == (index < sup@.vehicles.len() && sup@.vehicles[index as int].armed),
{
    match sup.registry().snapshot(index) {
        Some(v) => v.armed,
        None => false,
    }
}

/// Whether an airframe may be applied; `known` tells whether the catalog has
/// it.
pub fn check_airframe(sup: &Supervisor, index: u8, id: u32, known: bool) -> (r: Result<(), Refusal>)
    requires
        sup.wf(),
    ensures
        gate_result(r) == airframe_gate(sup@, index, id, known),
{
    match check_index(sup.fleet(), index) {
        Ok(_) => {},
        Err(e) => return Err(e),
    }
    if !known {
        let mut s = String::from_str("SYS_AUTOSTART ");
        push_decimal(&mut s, id as u64);
        s.append(" is not in the airframe catalog");
        return Err(Refusal { status: 422, message: s });
    }
    match check_link(sup.fleet(), index) {
        Ok(_) => {},
        Err(e) => return Err(e),
    }
    if is_armed(sup, index) {
        return Err(
            refused(409, "vehicle is ARMED — land before changing the airframe (QGC gate)"),
        );
    }
    Ok(())
}

/// A confirmed airframe is followed by a restart, an unconfirmed one only by a
/// line in the log.
pub open spec fn airframe_applied(m: SupModel, index: u8, id: u32, confirmed: bool) -> SupModel {
    if confirmed {
        logging(
            SupModel {
                fleet: FleetModel {
                    restart_requests: crate::fleet::placed(
                        m.fleet.restart_requests,
                        index as int,
                        true,
                    ),
                    ..m.fleet
                },
                ..m
            },
            EventKind::SupervisorAction,
            Some(index),
            "setup: airframe apply SYS_AUTOSTART="@ + decimal(id as nat)
                + " — write confirmed, restart queued"@,
        )
    } else {
        logging(
            m,
            EventKind::SupervisorAction,
            Some(index),
            "setup: airframe apply FAILED — SYS_AUTOSTART="@ + decimal(id as nat)
                + " write unconfirmed"@,
        )
    }
}

/// Take in what became of an airframe's write.
pub fn apply_airframe(sup: &mut Supervisor, index: u8, id: u32, confirmed: bool)
    requires
        old(sup).wf(),
    ensures
        final(sup).wf(),
        final(sup)@ == airframe_applied(old(sup)@, index, id, confirmed),
{
    if confirmed {
        sup.control().request_restart(index);
        let mut s = String::from_str("setup: airframe apply SYS_AUTOSTART=");
        push_decimal(&mut s, id as u64);
        s.append(" — write confirmed, restart queued");
        sup.note_action(EventKind::SupervisorAction, Some(index), s);
    } else {
        let mut s = String::from_str("setup: airframe apply FAILED — SYS_AUTOSTART=");
        push_decimal(&mut s, id as u64);
        s.append(" write unconfirmed");
        sup.note_action(EventKind::SupervisorAction, Some(index), s);
    }
}

// Calibration.

/// A sensor that can be calibrated.
#[derive(Debug, Clone, Copy, PartialEq, Eq, Structural)]
pub enum Sensor {
    Gyro,
    Accel,
    AccelQuick,
    Mag,
    Level,
    Baro,
    Airspeed,
}

impl Sensor {
    pub open spec fn name(self) -> Seq<char> {
        match self {
            Sensor::Gyro => "gyro"@,
            Sensor::Accel => "accel"@,
            Sensor::AccelQuick => "accel_quick"@,
            Sensor::Mag => "mag"@,
            Sensor::Level => "level"@,
            Sensor::Baro => "baro"@,
            Sensor::Airspeed => "airspeed"@,
        }
    }

    pub open spec fn label(self) -> Seq<char> {
        match self {
            Sensor::Gyro => "gyroscope"@,
            Sensor::Accel => "accelerometer"@,
            Sensor::AccelQuick => "accelerometer (quick)"@,
            Sensor::Mag => "magnetometer"@,
            Sensor::Level => "level horizon"@,
            Sensor::Baro => "barometer (ground pressure)"@,
            Sensor::Airspeed => "airspeed"@,
        }
    }

    /// The calibration command's parameters.
    pub open spec fn matrix(self) -> CmdParams {
        match self {
            Sensor::Gyro => CmdParams { p1: F32_1, ..no_params() },
            Sensor::Accel => CmdParams { p5: F32_1, ..no_params() },
            Sensor::AccelQuick => CmdParams { p5: F32_4, ..no_params() },
            Sensor::Mag => CmdParams { p2: F32_1, ..no_params() },
            Sensor::Level => CmdParams { p5: F32_2, ..no_params() },
            Sensor::Baro => CmdParams { p3: F32_1, ..no_params() },
            Sensor::Airspeed => CmdParams { p6: F32_2, ..no_params() },
        }
    }

    pub fn key(&self) -> (r: &'static str)
        ensures
            r@ == self.name(),
    {
        match self {
            Sensor::Gyro => "gyro",
            Sensor::Accel => "accel",
            Sensor::AccelQuick => "accel_quick",
            Sensor::Mag => "mag",
            Sensor::Level => "level",
            Sensor::Baro => "baro",
            Sensor::Airspeed => "airspeed",
        }
    }

    pub fn description(&self) -> (r: &'static str)
        ensures
            r@ == self.label(),
    {
        match self {
            Sensor::Gyro => "gyroscope",
            Sensor::Accel => "accelerometer",
            Sensor::AccelQuick => "accelerometer (quick)",
            Sensor::Mag => "magnetometer",
            Sensor::Level => "level horizon",
            Sensor::Baro => "barometer (ground pressure)",
            Sensor::Airspeed => "airspeed",
        }
    }

    /// The calibration command's parameters.
    pub fn params(&self) -> (r: CmdParams)
        ensures
            r == self.matrix(),
    {
        let z = zero_params();
        match self {
            Sensor::Gyro => CmdParams { p1: F32_1, ..z },
            Sensor::Accel => CmdParams { p5: F32_1, ..z },
            Sensor::AccelQuick => CmdParams { p5: F32_4, ..z },
            Sensor::Mag => CmdParams { p2: F32_1, ..z },
            Sensor::Level => CmdParams { p5: F32_2, ..z },
            Sensor::Baro => CmdParams { p3: F32_1, ..z },
            Sensor::Airspeed => CmdParams { p6: F32_2, ..z },
        }
    }
}

/// Every sensor, in the order they are named.
pub const SENSORS: [Sensor; 7] = [
    Sensor::Gyro,
    Sensor::Accel,
    Sensor::AccelQuick,
    Sensor::Mag,
    Sensor::Level,
    Sensor::Baro,
    Sensor::Airspeed,
];

/// The first sensor from `i` on under a name.
pub open spec fn sensor_from(name: Seq<char>, i: int) -> Option<Sensor>
    decreases 7 - i,
{
    if i >= 7 {
        None
    } else if SENSORS@[i].name() == name {
        Some(SENSORS@[i])
    } else {
        sensor_from(name, i + 1)
    }
}

fn sensor_by_name(name: &str) -> (r: Option<Sensor>)
    ensures
        r == sensor_from(name@, 0),
{
    let all = SENSORS;
    let mut i: usize = 0;
    while i < 7
        invariant
            i <= 7,
            all@ == SENSORS@,
            all@.len() == 7,
            sensor_from(name@, 0) == sensor_from(name@, i as int),
        decreases 7 - i,
    {
        if same(all[i].key(), name) {
            return Some(all[i]);
        }
        i = i + 1;
    }
    None
}

pub open spec fn calibration_gate(m: SupModel, index: u8, sensor: Seq<char>) -> Result<
    Sensor,
    RefusalModel,
> {
    if index >= m.fleet.count {
        Err(out_of_range(index, m.fleet.count))
    } else {
        match sensor_from(sensor, 0) {
            None => Err(
                RefusalModel {
                    status: 422,
                    message: "unknown sensor '"@ + sensor
                        + "' — one of [\"gyro\", \"accel\", \"accel_quick\", \"mag\", \"level\", \"baro\", \"airspeed\"]"@,
                },
            ),
            Some(s) => if !has_link(m.fleet, index) {
                Err(no_link())
            } else if index < m.vehicles.len() && m.vehicles[index as int].armed {
                Err(
                    RefusalModel {
                        status: 409,
                        message: "vehicle is ARMED — calibrations are rejected while armed (QGC gate)"@,
                    },
                )
            } else {
                Ok(s)
            },
        }
    }
}

/// Whether a sensor may be calibrated.
pub fn check_calibration(sup: &Supervisor, index: u8, sensor: &str) -> (r: Result<Sensor, Refusal>)
    requires
        sup.wf(),
    ensures
        (match r {
            Ok(s) => Ok(s),
            Err(e) => Err(e@),
        }) == calibration_gate(sup@, index, sensor@),
{
    match check_index(sup.fleet(), index) {
        Ok(_) => {},
        Err(e) => return Err(e),
    }
    let found = match sensor_by_name(sensor) {
        Some(s) => s,
        None => {
            let mut s = joined("unknown sensor '", sensor);
            s.append(
                "' — one of [\"gyro\", \"accel\", \"accel_quick\", \"mag\", \"level\", \"baro\", \"airspeed\"]",
            );
            return Err(Refusal { status: 422, message: s });
        },
    };
    match check_link(sup.fleet(), index) {
        Ok(_) => {},
        Err(e) => return Err(e),
    }
    if is_armed(sup, index) {
        return Err(
            refused(
                409,
                "vehicle is ARMED — calibrations are rejected while armed (QGC gate)",
            ),
        );
    }
    Ok(found)
}

/// Log a calibration's answer.
pub fn note_calibration(sup: &mut Supervisor, index: u8, sensor: Sensor, ack: CmdAck)
    requires
        old(sup).wf(),
    ensures
        final(sup).wf(),
        final(sup)@ == logging(
            old(sup)@,
            EventKind::SupervisorAction,
            Some(index),
            "setup: calibration '"@ + sensor.name() + "' ("@ + sensor.label() + ") — command 241 "@
                + accepted_word(ack is Accepted),
        ),
{
    let (_, accepted) = ack_summary(ack);
    let mut s = joined("setup: calibration '", sensor.key());
    s.append("' (");
    s.append(sensor.description());
    s.append(") — command 241 ");
    s.append(accepted_name(accepted));
    sup.note_action(EventKind::SupervisorAction, Some(index), s);
}

// Modes.

pub open spec fn mode_gate(m: FleetModel, index: u8, mode: Seq<char>) -> Result<u32, RefusalModel> {
    if index >= m.count {
        Err(out_of_range(index, m.count))
    } else {
        match word_named(mode) {
            None => Err(
                RefusalModel {
                    status: 422,
                    message: "unknown mode '"@ + mode
                        + "' — one of [\"MANUAL\", \"ALTCTL\", \"POSCTL\", \"STABILIZED\", \"ACRO\", \"AUTO.LOITER\", \"AUTO.RTL\", \"AUTO.LAND\", \"AUTO.MISSION\", \"OFFBOARD\"]"@,
                },
            ),
            Some(w) => if has_link(m, index) {
                Ok(w)
            } else {
                Err(no_link())
            },
        }
    }
}

/// Whether a vehicle may be switched to a mode; its mode word if so.
pub fn check_mode(fleet: &FleetState, index: u8, mode: &str) -> (r: Result<u32, Refusal>)
    ensures
        (match r {
            Ok(w) => Ok(w),
            Err(e) => Err(e@),
        }) == mode_gate(fleet@, index, mode@),
{
    match check_index(fleet, index) {
        Ok(_) => {},
        Err(e) => return Err(e),
    }
    let word: u32 = match mode_word_by_name(mode) {
        Some(w) => w,
        None => {
            let mut s = joined("unknown mode '", mode);
            s.append(
                "' — one of [\"MANUAL\", \"ALTCTL\", \"POSCTL\", \"STABILIZED\", \"ACRO\", \"AUTO.LOITER\", \"AUTO.RTL\", \"AUTO.LAND\", \"AUTO.MISSION\", \"OFFBOARD\"]",
            );
            return Err(Refusal { status: 422, message: s });
        },
    };
    match check_link(fleet, index) {
        Ok(_) => Ok(word),
        Err(e) => Err(e),
    }
}

/// An upper-case hexadecimal digit.
pub open spec fn upper_digit(d: int) -> char {
    if d < 10 {
        (48 + d) as char
    } else {
        (55 + d) as char
    }
}

/// The last `n` upper-case hexadecimal digits of a number.
pub open spec fn upper_hex(v: nat, n: nat) -> Seq<char>
    decreases n,
{
    if n == 0 {
        Seq::empty()
    } else {
        upper_hex(v / 16, (n - 1) as nat).push(upper_digit((v % 16) as int))
    }
}

fn push_upper_hex(s: &mut String, v: u32, n: u32)
    ensures
        final(s)@ == old(s)@ + upper_hex(v as nat, n as nat),
    decreases n,
{
    if n > 0 {
        push_upper_hex(s, v / 16, n - 1);
        let d: u8 = (v % 16) as u8;
        if d < 10 {
            s.push((48 + d) as char);
        } else {
            s.push((55 + d) as char);
        }
        assert(s@ =~= old(s)@ + upper_hex(v as nat, n as nat));
    } else {
        assert(s@ =~= old(s)@ + upper_hex(v as nat, 0));
    }
}

/// Log a mode change's answer.
pub fn note_mode(sup: &mut Supervisor, index: u8, mode: &str, word: u32, ack: CmdAck)
    requires
        old(sup).wf(),
    ensures
        final(sup).wf(),
        final(sup)@ == logging(
            old(sup)@,
            EventKind::SupervisorAction,
            Some(index),
            "setup: mode change "@ + mode@ + " (0x"@ + upper_hex(word as nat, 8)
                + ") via API — "@ + accepted_word(ack is Accepted),
        ),
{
    let (_, accepted) = ack_summary(ack);
    let mut s = joined("setup: mode change ", mode);
    s.append(" (0x");
    push_upper_hex(&mut s, word, 8);
    s.append(") via API — ");
    s.append(accepted_name(accepted));
    sup.note_action(EventKind::SupervisorAction, Some(index), s);
}

// Guided commands.

pub open spec fn arming(arm: bool) -> CmdParams {
    if arm {
        CmdParams { p1: F32_1, ..no_params() }
    } else {
        no_params()
    }
}

/// The arming command's parameters.
pub fn arm_params(arm: bool) -> (r: CmdParams)
    ensures
        r == (if arm {
            CmdParams { p1: F32_1, ..no_params() }
        } else {
            no_params()
        }),
        r == arming(arm),
{
    let z = zero_params();
    if arm {
        CmdParams { p1: F32_1, ..z }
    } else {
        z
    }
}

/// Log an arming's answer.
pub fn note_arm(sup: &mut Supervisor, index: u8, arm: bool, ack: CmdAck)
    requires
        old(sup).wf(),
    ensures
        final(sup).wf(),
        final(sup)@ == logging(
            old(sup)@,
            EventKind::SupervisorAction,
            Some(index),
            "operator: "@ + (if arm {
                "ARM"@
            } else {
                "DISARM"@
            }) + " via API — "@ + ack_word(ack),
        ),
{
    let mut s = joined(
        "operator: ",
        if arm {
            "ARM"
        } else {
            "DISARM"
        },
    );
    s.append(" via API — ");
    let shown = ack_shown(ack);
    s.append(shown.as_str());
    sup.note_action(EventKind::SupervisorAction, Some(index), s);
}

/// A take-off's altitude: above the ground, at most 120 m, inside the fence's
/// box; then the vehicle must be free for it. `floor` and `ceiling` bound the
/// box.
pub open spec fn takeoff_gate(
    m: FleetModel,
    index: u8,
    alt: u32,
    floor: u32,
    ceiling: u32,
    floor_text: Seq<char>,
    ceiling_text: Seq<char>,
) -> Result<(), RefusalModel> {
    if !f32_finite(alt) || f32_at_most(alt, 0) || f32_less(F32_120, alt) {
        Err(RefusalModel { status: 422, message: "alt_m must be in (0, 120] m AGL"@ })
    } else if f32_less(alt, floor) || f32_less(ceiling, alt) {
        Err(
            RefusalModel {
                status: 422,
                message: "alt_m outside the geofence altitude box ("@ + floor_text + ".."@
                    + ceiling_text + " m AGL)"@,
            },
        )
    } else {
        guided_gate(m, index)
    }
}

/// Whether a vehicle may take off.
pub fn check_takeoff(
    fleet: &FleetState,
    index: u8,
    alt: u32,
    floor: u32,
    ceiling: u32,
    floor_text: &str,
    ceiling_text: &str,
) -> (r: Result<(), Refusal>)
    ensures
        gate_result(r) == takeoff_gate(
            fleet@,
            index,
            alt,
            floor,
            ceiling,
            floor_text@,
            ceiling_text@,
        ),
{
    if !f32_is_finite(alt) || f32_le(alt, 0) || f32_lt(F32_120, alt) {
        return Err(refused(422, "alt_m must be in (0, 120] m AGL"));
    }
    if f32_lt(alt, floor) || f32_lt(ceiling, alt) {
        let mut s = joined("alt_m outside the geofence altitude box (", floor_text);
        s.append("..");
        s.append(ceiling_text);
        s.append(" m AGL)");
        return Err(Refusal { status: 422, message: s });
    }
    guided_gates(fleet, index)
}

pub open spec fn taking_off(alt: u32) -> CmdParams {
    CmdParams { p7: alt, ..no_params() }
}

/// The take-off command's parameters.
pub fn takeoff_params(alt: u32) -> (r: CmdParams)
    ensures
        r == (CmdParams { p7: alt, ..no_params() }),
        r == taking_off(alt),
{
    let z = zero_params();
    CmdParams { p7: alt, ..z }
}

/// Log a take-off's answer; `alt` is the altitude to one decimal.
pub fn note_takeoff(sup: &mut Supervisor, index: u8, alt: &str, ack: CmdAck)
    requires
        old(sup).wf(),
    ensures
        final(sup).wf(),
        final(sup)@ == logging(
            old(sup)@,
            EventKind::SupervisorAction,
            Some(index),
            "operator: TAKEOFF to "@ + alt@ + " m AGL via API — "@ + ack_word(ack),
        ),
{
    let mut s = joined("operator: TAKEOFF to ", alt);
    s.append(" m AGL via API — ");
    let shown = ack_shown(ack);
    s.append(shown.as_str());
    sup.note_action(EventKind::SupervisorAction, Some(index), s);
}

/// A guided command that ends a flight.
#[derive(Debug, Clone, Copy, PartialEq, Eq, Structural)]
pub enum Ending {
    Land,
    ReturnHome,
    Hold,
}

impl Ending {
    pub open spec fn cause(self) -> Option<FsmCause> {
        match self {
            Ending::Land => Some(FsmCause::LandCommand),
            Ending::ReturnHome => Some(FsmCause::SupervisorRtl),
            Ending::Hold => None,
        }
    }

    pub open spec fn line(self) -> Seq<char> {
        match self {
            Ending::Land => "operator: LAND via API — stream stopped, DO_SET_MODE(AUTO.LAND)"@,
            Ending::ReturnHome => "operator: RTL via API — stream stopped, DO_SET_MODE(AUTO.RTL)"@,
            Ending::Hold => "operator: HOLD via API — stream stopped, DO_SET_MODE(AUTO.LOITER)"@,
        }
    }

    pub open spec fn mode(self) -> u32 {
        match self {
            Ending::Land => crate::modes::MODE_WORD_AUTO_LAND,
            Ending::ReturnHome => crate::modes::MODE_WORD_AUTO_RTL,
            Ending::Hold => crate::modes::MODE_WORD_AUTO_LOITER,
        }
    }

    /// The mode the vehicle is switched to.
    pub fn mode_word(&self) -> (r: u32)
        ensures
            r == (match self {
                Ending::Land => crate::modes::MODE_WORD_AUTO_LAND,
                Ending::ReturnHome => crate::modes::MODE_WORD_AUTO_RTL,
                Ending::Hold => crate::modes::MODE_WORD_AUTO_LOITER,
            }),
            r == self.mode(),
    {
        match self {
            Ending::Land => crate::modes::MODE_WORD_AUTO_LAND,
            Ending::ReturnHome => crate::modes::MODE_WORD_AUTO_RTL,
            Ending::Hold => crate::modes::MODE_WORD_AUTO_LOITER,
        }
    }
}

/// An active vehicle changes its state with the command, whatever the answer;
/// the command is logged.
pub open spec fn flight_ended(m: SupModel, index: u8, e: Ending) -> SupModel {
    let active = index < m.states.len() && m.states[index as int] is Active;
    let s = match e.cause() {
        Some(c) => if active {
            moved(m, index, c)
        } else {
            m
        },
        None => m,
    };
    logging(s, EventKind::SupervisorAction, Some(index), e.line())
}

/// Take in that a flight was ended.
pub fn end_flight(sup: &mut Supervisor, index: u8, e: Ending)
    requires
        old(sup).wf(),
    ensures
        final(sup).wf(),
        final(sup)@ == flight_ended(old(sup)@, index, e),
{
    let active: bool = sup.registry().fsm(index) == Some(FsmState::Active);
    match e {
        Ending::Land => {
            if active {
                sup.apply_cause(index, FsmCause::LandCommand);
            }
            sup.note_action(
                EventKind::SupervisorAction,
                Some(index),
                String::from_str("operator: LAND via API — stream stopped, DO_SET_MODE(AUTO.LAND)"),
            );
        },
        Ending::ReturnHome => {
            if active {
                sup.apply_cause(index, FsmCause::SupervisorRtl);
            }
            sup.note_action(
                EventKind::SupervisorAction,
                Some(index),
                String::from_str("operator: RTL via API — stream stopped, DO_SET_MODE(AUTO.RTL)"),
            );
        },
        Ending::Hold => {
            sup.note_action(
                EventKind::SupervisorAction,
                Some(index),
                String::from_str(
                    "operator: HOLD via API — stream stopped, DO_SET_MODE(AUTO.LOITER)",
                ),
            );
        },
    }
}

/// A place to fly to is a place on the globe, and the vehicle must be free.
pub open spec fn goto_gate(m: FleetModel, index: u8, lat: u64, lon: u64) -> Result<
    (),
    RefusalModel,
> {
    if !f64_finite(lat) || !f64_finite(lon) {
        Err(RefusalModel { status: 422, message: "lat/lon must be finite"@ })
    } else if !on_globe(lat, lon) {
        Err(RefusalModel { status: 422, message: "lat/lon out of range"@ })
    } else {
        guided_gate(m, index)
    }
}

/// Whether a vehicle may be sent to a place.
pub fn check_goto(fleet: &FleetState, index: u8, lat: u64, lon: u64) -> (r: Result<(), Refusal>)
    ensures
        gate_result(r) == goto_gate(fleet@, index, lat, lon),
{
    if !f64_is_finite(lat) || !f64_is_finite(lon) {
        return Err(refused(422, "lat/lon must be finite"));
    }
    if !is_on_globe(lat, lon) {
        return Err(refused(422, "lat/lon out of range"));
    }
    guided_gates(fleet, index)
}

pub open spec fn altitude_gate(alt: u64) -> Result<(), RefusalModel> {
    if !f64_finite(alt) || f64_less(alt, 0) || f64_less(F64_120, alt) {
        Err(RefusalModel { status: 422, message: "alt_m must be in [0, 120] m AGL"@ })
    } else {
        Ok(())
    }
}

/// Whether an altitude may be flown at.
pub fn check_goto_altitude(alt: u64) -> (r: Result<(), Refusal>)
    ensures
        gate_result(r) == altitude_gate(alt),
        gate_result(r) == (if !f64_finite(alt) || f64_less(alt, 0) || f64_less(F64_120, alt) {
            Err(RefusalModel { status: 422, message: "alt_m must be in [0, 120] m AGL"@ })
        } else {
            Ok(())
        }),
{
    if !f64_is_finite(alt) || f64_lt(alt, 0) || f64_lt(F64_120, alt) {
        return Err(refused(422, "alt_m must be in [0, 120] m AGL"));
    }
    Ok(())
}

/// A ready vehicle that is sent somewhere becomes active; the flight is
/// logged. The texts are the place, the altitude and the target.
pub open spec fn goto_begun(
    m: SupModel,
    index: u8,
    lat: Seq<char>,
    lon: Seq<char>,
    alt: Seq<char>,
    target: Seq<char>,
    clamped: bool,
) -> SupModel {
    let s = if index < m.states.len() && m.states[index as int] is Ready {
        moved(m, index, FsmCause::TaskAccepted)
    } else {
        m
    };
    logging(
        s,
        EventKind::SupervisorAction,
        Some(index),
        "operator: GO TO ("@ + lat + ", "@ + lon + ") "@ + alt + " m AGL via API -> NED "@ + target
            + (if clamped {
            " (clamped into the fence)"@
        } else {
            ""@
        }) + " — engage sequence started"@,
    )
}

/// Take in that a vehicle was sent to a place.
pub fn begin_goto(
    sup: &mut Supervisor,
    index: u8,
    lat: &str,
    lon: &str,
    alt: &str,
    target: &str,
    clamped: bool,
)
    requires
        old(sup).wf(),
    ensures
        final(sup).wf(),
        final(sup)@ == goto_begun(old(sup)@, index, lat@, lon@, alt@, target@, clamped),
{
    if sup.registry().fsm(index) == Some(FsmState::Ready) {
        sup.apply_cause(index, FsmCause::TaskAccepted);
    }
    let mut s = joined("operator: GO TO (", lat);
    s.append(", ");
    s.append(lon);
    s.append(") ");
    s.append(alt);
    s.append(" m AGL via API -> NED ");
    s.append(target);
    s.append(
        if clamped {
            " (clamped into the fence)"
        } else {
            ""
        },
    );
    s.append(" — engage sequence started");
    sup.note_action(EventKind::SupervisorAction, Some(index), s);
}

// The fleet as a whole.

/// Request an emergency stop.
pub fn request_estop(sup: &mut Supervisor)
    requires
        old(sup).wf(),
    ensures
        final(sup).wf(),
        final(sup)@ == logging(
            SupModel {
                fleet: FleetModel { estop: true, ..old(sup)@.fleet },
                ..old(sup)@
            },
            EventKind::SupervisorAction,
            None,
            "operator e-stop requested via API (policy 1)"@,
        ),
{
    sup.control().request_estop();
    sup.note_action(
        EventKind::SupervisorAction,
        None,
        String::from_str("operator e-stop requested via API (policy 1)"),
    );
}

/// Log what became of an upload.
pub fn note_upload(sup: &mut Supervisor, accepted: usize, rejected: usize)
    requires
        old(sup).wf(),
    ensures
        final(sup).wf(),
        final(sup)@ == logging(
            old(sup)@,
            EventKind::SupervisorAction,
            None,
            "operator: mission upload via API — "@ + decimal(accepted as nat) + " accepted, "@
                + decimal(rejected as nat) + " rejected"@,
        ),
{
    let mut s = String::from_str("operator: mission upload via API — ");
    push_decimal(&mut s, accepted as u64);
    s.append(" accepted, ");
    push_decimal(&mut s, rejected as u64);
    s.append(" rejected");
    sup.note_action(EventKind::SupervisorAction, None, s);
}

/// Log what became of a start.
pub fn note_start(sup: &mut Supervisor, started: bool)
    requires
        old(sup).wf(),
    ensures
        final(sup).wf(),
        final(sup)@ == logging(
            old(sup)@,
            EventKind::SupervisorAction,
            None,
            "operator: mission start via API — "@ + if started {
                "started"@
            } else {
                "not started"@
            },
        ),
{
    let s = joined(
        "operator: mission start via API — ",
        if started {
            "started"
        } else {
            "not started"
        },
    );
    sup.note_action(EventKind::SupervisorAction, None, s);
}

/// Log what became of a clearing.
pub fn note_clear(sup: &mut Supervisor, cleared: usize)
    requires
        old(sup).wf(),
    ensures
        final(sup).wf(),
        final(sup)@ == logging(
            old(sup)@,
            EventKind::SupervisorAction,
            None,
            "operator: mission clear via API — "@ + decimal(cleared as nat)
                + " task(s) dropped"@,
        ),
{
    let mut s = String::from_str("operator: mission clear via API — ");
    push_decimal(&mut s, cleared as u64);
    s.append(" task(s) dropped");
    sup.note_action(EventKind::SupervisorAction, None, s);
}

pub open spec fn lines_given(asked: Option<usize>) -> usize {
    match asked {
        Some(n) => if n > 10_000 {
            10_000
        } else {
            n
        },
        None => 200,
    }
}

/// How many lines of the log a client gets: as asked, 200 where nothing is,
/// and at most ten thousand.
pub fn tail_length(asked: Option<usize>) -> (r: usize)
    ensures
        r == lines_given(asked),
        r == ({
            let n = match asked {
                Some(n) => n,
                None => 200,
            };
            if n > 10_000 {
                10_000usize
            } else {
                n
            }
        }),
{
    let n: usize = match asked {
        Some(n) => n,
        None => 200,
    };
    if n > 10_000 {
        10_000
    } else {
        n
    }
}

// Laws.

/// A guided command passes only to a vehicle that exists, has a link and
/// flies no mission of its own.
pub proof fn guided_commands_do_not_interfere(m: FleetModel, index: u8)
    ensures
        guided_gate(m, index) is Ok <==> index < m.count && has_link(m, index) && !flies_mission(
            m,
            index,
        ),
{
}

/// A take-off that passes stays within 120 m and the fence's box.
pub proof fn takeoffs_stay_in_the_box(
    m: FleetModel,
    index: u8,
    alt: u32,
    floor: u32,
    ceiling: u32,
    floor_text: Seq<char>,
    ceiling_text: Seq<char>,
)
    requires
        takeoff_gate(m, index, alt, floor, ceiling, floor_text, ceiling_text) is Ok,
    ensures
        f32_less(0, alt),
        f32_at_most(alt, F32_120),
        !f32_less(alt, floor),
        !f32_less(ceiling, alt),
        guided_gate(m, index) is Ok,
{
}

/// No airframe is applied to an armed vehicle, and no sensor of one is
/// calibrated.
pub proof fn armed_vehicles_are_left_alone(
    m: SupModel,
    index: u8,
    id: u32,
    known: bool,
    sensor: Seq<char>,
)
    requires
        index < m.vehicles.len(),
        m.vehicles[index as int].armed,
    ensures
        airframe_gate(m, index, id, known) is Err,
        calibration_gate(m, index, sensor) is Err,
{
}

} // verus!
