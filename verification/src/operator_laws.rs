//! What an operator may ask for, and what is sent on their behalf.

use vstd::prelude::*;
#[allow(unused_imports)]
use crate::engage::{engage_begun, engaged, pause_before, EngageStep};
#[allow(unused_imports)]
use crate::fleet::FleetModel;
#[allow(unused_imports)]
use crate::float::{
    f32_order_is_by_rank, f32_rank, f32_ranked, f64_finite, f64_order_is_by_rank, f64_rank,
};
#[allow(unused_imports)]
use crate::fsm::FsmCause;
#[allow(unused_imports)]
use crate::link::CmdAck;
#[allow(unused_imports)]
use crate::messages::CmdParams;
#[allow(unused_imports)]
use crate::modes::{
    main_number, mode_names_are_distinct, mode_words_are_distinct, sub_number, word_name,
    word_named, word_of, SwitchableMode,
};
#[allow(unused_imports)]
use crate::operator::{
    ack_number, airframe_gate, altitude_gate, arming, calibration_gate, goto_gate, guided_gate,
    lines_given, mode_gate, param_write, sensor_from, takeoff_gate, taking_off, upload_gate,
    waypoint_fault, waypoints_fault, write_type, write_value, Ending, Sensor,
};
#[allow(unused_imports)]
use crate::params::ParamVal;
#[allow(unused_imports)]
use crate::supervisor::{on_globe, OperatorWaypoint, SupModel};

verus! {

// Modes.

/// A packed word is the main mode times two to the sixteenth and the sub mode
/// times two to the twenty-fourth.
pub proof fn word_adds_its_parts(main: u8, sub: u8)
    ensures
        word_of(main, sub) == 0x1_0000 * main + 0x100_0000 * sub,
{
    assert(((main as u32) << 16) | ((sub as u32) << 24) == 0x1_0000 * (main as u32) + 0x100_0000
        * (sub as u32)) by (bit_vector);
}

/// Ten modes can be switched to, each by its own name and with its own word;
/// the names lead to the words and the words back to the names.
pub proof fn mode_table(m: SwitchableMode)
    ensures
        word_named(m.text()) == Some(m.packed()),
        word_name(m.packed()) == m.text(),
        ({
            let (text, main, sub) = match m {
                SwitchableMode::Manual => ("MANUAL"@, 1int, 0int),
                SwitchableMode::Altctl => ("ALTCTL"@, 2int, 0int),
                SwitchableMode::Posctl => ("POSCTL"@, 3int, 0int),
                SwitchableMode::AutoLoiter => ("AUTO.LOITER"@, 4int, 3int),
                SwitchableMode::AutoMission => ("AUTO.MISSION"@, 4int, 4int),
                SwitchableMode::AutoRtl => ("AUTO.RTL"@, 4int, 5int),
                SwitchableMode::AutoLand => ("AUTO.LAND"@, 4int, 6int),
                SwitchableMode::Acro => ("ACRO"@, 5int, 0int),
                SwitchableMode::Offboard => ("OFFBOARD"@, 6int, 0int),
                SwitchableMode::Stabilized => ("STABILIZED"@, 7int, 0int),
            };
            m.text() == text && m.packed() == 0x1_0000 * main + 0x100_0000 * sub
        }),
{
    word_adds_its_parts(main_number(m.modes().0), sub_number(m.modes().1));
    assert(m.text() == m.text());
    let c = choose|c: SwitchableMode| #[trigger] c.text() == m.text();
    mode_names_are_distinct(m, c);
    let d = choose|d: SwitchableMode| #[trigger] d.packed() == m.packed();
    mode_words_are_distinct(m, d);
}

/// Each way to end a flight switches to the mode of its own: landing, return
/// or loiter.
pub proof fn endings_switch_modes()
    ensures
        Ending::Land.mode() == SwitchableMode::AutoLand.packed(),
        Ending::ReturnHome.mode() == SwitchableMode::AutoRtl.packed(),
        Ending::Hold.mode() == SwitchableMode::AutoLoiter.packed(),
        Ending::Land.cause() == Some(FsmCause::LandCommand),
        Ending::ReturnHome.cause() == Some(FsmCause::SupervisorRtl),
        Ending::Hold.cause() is None,
{
    mode_table(SwitchableMode::AutoLand);
    mode_table(SwitchableMode::AutoRtl);
    mode_table(SwitchableMode::AutoLoiter);
}

// Commands.

/// Arming puts a one in the first parameter, disarming nothing; a take-off
/// puts its altitude in the last. All other parameters are zero.
pub proof fn arming_and_takeoff_parameters(alt: u32)
    ensures
        arming(true) == (CmdParams { p1: 0x3F80_0000, p2: 0, p3: 0, p4: 0, p5: 0, p6: 0, p7: 0 }),
        arming(false) == (CmdParams { p1: 0, p2: 0, p3: 0, p4: 0, p5: 0, p6: 0, p7: 0 }),
        taking_off(alt) == (CmdParams { p1: 0, p2: 0, p3: 0, p4: 0, p5: 0, p6: 0, p7: alt }),
{
}

/// A calibration sets one parameter of seven, and no two sensors set the same
/// one to the same value: gyroscope, magnetometer and barometer set the first,
/// second and third to one; accelerometer, level and quick accelerometer set
/// the fifth to one, two and four; airspeed sets the sixth to two.
pub proof fn calibration_parameters(s: Sensor)
    ensures
        ({
            let c = s.matrix();
            &&& c.p1 == (if s is Gyro {
                0x3F80_0000u32
            } else {
                0
            })
            &&& c.p2 == (if s is Mag {
                0x3F80_0000u32
            } else {
                0
            })
            &&& c.p3 == (if s is Baro {
                0x3F80_0000u32
            } else {
                0
            })
            &&& c.p4 == 0
            &&& c.p5 == (if s is Accel {
                0x3F80_0000u32
            } else if s is Level {
                0x4000_0000
            } else if s is AccelQuick {
                0x4080_0000
            } else {
                0
            })
            &&& c.p6 == (if s is Airspeed {
                0x4000_0000u32
            } else {
                0
            })
            &&& c.p7 == 0
        }),
        sensor_from(s.name(), 0) == Some(s),
        s.name() == (match s {
            Sensor::Gyro => "gyro"@,
            Sensor::Accel => "accel"@,
            Sensor::AccelQuick => "accel_quick"@,
            Sensor::Mag => "mag"@,
            Sensor::Level => "level"@,
            Sensor::Baro => "baro"@,
            Sensor::Airspeed => "airspeed"@,
        }),
{
    reveal_with_fuel(sensor_from, 8);
    reveal_strlit("gyro");
    reveal_strlit("accel");
    reveal_strlit("accel_quick");
    reveal_strlit("mag");
    reveal_strlit("level");
    reveal_strlit("baro");
    reveal_strlit("airspeed");
    assert("gyro"@[0] == 'g' && "baro"@[0] == 'b' && "accel"@[0] == 'a' && "level"@[0] == 'l');
    assert("gyro"@.len() == 4 && "baro"@.len() == 4 && "accel"@.len() == 5 && "level"@.len() == 5
        && "accel_quick"@.len() == 11 && "mag"@.len() == 3 && "airspeed"@.len() == 8);
}

/// An answer's number is zero for an acceptance, the vehicle's own result for
/// a refusal and 255 where no answer came.
pub proof fn answers_have_numbers(result: u8, attempts: u32)
    ensures
        ack_number(CmdAck::Accepted) == 0,
        ack_number(CmdAck::Rejected { result }) == result,
        ack_number(CmdAck::Timeout { attempts }) == 255,
{
}

// Gates.

/// The vehicle is one of the fleet.
pub open spec fn in_fleet(m: FleetModel, index: u8) -> bool {
    index < m.count
}

/// The vehicle has a link.
pub open spec fn linked(m: FleetModel, index: u8) -> bool {
    index < m.linked.len() && m.linked[index as int]
}

/// The vehicle is on a mission of its own.
pub open spec fn on_mission(m: FleetModel, index: u8) -> bool {
    index < m.mission_active.len() && m.mission_active[index as int]
}

/// A guided command is refused with 404 for a vehicle that is not in the
/// fleet, with 409 for one on a mission or without a link, and else let
/// through.
pub proof fn guided_commands_are_gated(m: FleetModel, index: u8)
    ensures
        match guided_gate(m, index) {
            Ok(_) => in_fleet(m, index) && !on_mission(m, index) && linked(m, index),
            Err(e) => if !in_fleet(m, index) {
                e.status == 404
            } else {
                e.status == 409 && (on_mission(m, index) || !linked(m, index))
            },
        },
{
}

/// A take-off is let through to an altitude that is a number above zero, at
/// most 120 metres and inside the fence's floor and ceiling, where a guided
/// command is; an altitude that will not do is refused with 422.
pub proof fn takeoffs_are_gated(
    m: FleetModel,
    index: u8,
    alt: u32,
    floor: u32,
    ceiling: u32,
    floor_text: Seq<char>,
    ceiling_text: Seq<char>,
)
    ensures
        ({
            let r = takeoff_gate(m, index, alt, floor, ceiling, floor_text, ceiling_text);
            let fit = 0 < f32_rank(alt) <= 0x42F0_0000 && (f32_ranked(floor) ==> f32_rank(floor)
                <= f32_rank(alt)) && (f32_ranked(ceiling) ==> f32_rank(alt) <= f32_rank(ceiling));
            &&& r is Ok <==> fit && guided_gate(m, index) is Ok
            &&& !fit ==> r is Err && r->Err_0.status == 422
            &&& fit ==> r == guided_gate(m, index)
        }),
{
    f32_order_is_by_rank(alt, 0);
    f32_order_is_by_rank(0x42F0_0000, alt);
    f32_order_is_by_rank(alt, floor);
    f32_order_is_by_rank(ceiling, alt);
}

/// A place on the globe: a latitude from -90 to 90 and a longitude from -180
/// to 180 degrees, by the patterns of those numbers.
pub open spec fn is_place(lat: u64, lon: u64) -> bool {
    -0x4056_8000_0000_0000 <= f64_rank(lat) <= 0x4056_8000_0000_0000 && -0x4066_8000_0000_0000
        <= f64_rank(lon) <= 0x4066_8000_0000_0000
}

/// A place is on the globe, and only a place is; both its numbers are finite.
pub proof fn places_are_on_the_globe(lat: u64, lon: u64)
    ensures
        is_place(lat, lon) == on_globe(lat, lon),
        is_place(lat, lon) ==> f64_finite(lat) && f64_finite(lon),
{
    f64_order_is_by_rank(0xC056_8000_0000_0000, lat);
    f64_order_is_by_rank(lat, 0x4056_8000_0000_0000);
    f64_order_is_by_rank(0xC066_8000_0000_0000, lon);
    f64_order_is_by_rank(lon, 0x4066_8000_0000_0000);
    f64_order_is_by_rank(lon, lat);
}

/// A vehicle is sent only to a place on the globe, and only where a guided
/// command is let through; any other place is refused with 422. Altitudes go
/// from zero to 120 metres.
pub proof fn flights_are_gated(m: FleetModel, index: u8, lat: u64, lon: u64, alt: u64)
    ensures
        is_place(lat, lon) ==> goto_gate(m, index, lat, lon) == guided_gate(m, index),
        !is_place(lat, lon) ==> goto_gate(m, index, lat, lon) is Err && goto_gate(
            m,
            index,
            lat,
            lon,
        )->Err_0.status == 422,
        altitude_gate(alt) is Ok <==> 0 <= f64_rank(alt) <= 0x405E_0000_0000_0000,
        altitude_gate(alt) is Err ==> altitude_gate(alt)->Err_0.status == 422,
{
    places_are_on_the_globe(lat, lon);
    f64_order_is_by_rank(alt, 0);
    f64_order_is_by_rank(0x405E_0000_0000_0000, alt);
}

/// A waypoint that can be uploaded: a place on the globe and a finite altitude
/// not below zero.
pub open spec fn fit_waypoint(w: OperatorWaypoint) -> bool {
    is_place(w.lat_deg, w.lon_deg) && 0 <= f64_rank(w.alt_m) < 0x7FF0_0000_0000_0000
}

proof fn fit_means_no_fault(w: OperatorWaypoint)
    ensures
        fit_waypoint(w) == (waypoint_fault(w) is None),
{
    places_are_on_the_globe(w.lat_deg, w.lon_deg);
    f64_order_is_by_rank(w.alt_m, 0);
}

proof fn all_fit_means_no_fault(items: Seq<OperatorWaypoint>, n: nat)
    requires
        n <= items.len(),
    ensures
        waypoints_fault(items, n) is None <==> forall|i: int|
            0 <= i < n ==> fit_waypoint(#[trigger] items[i]),
    decreases n,
{
    if n > 0 {
        all_fit_means_no_fault(items, (n - 1) as nat);
        fit_means_no_fault(items[n - 1]);
    }
}

/// An upload is let through with one to 64 waypoints, each of them fit; any
/// other is refused with 422.
pub proof fn uploads_are_gated(items: Seq<OperatorWaypoint>)
    ensures
        upload_gate(items) is Ok <==> 1 <= items.len() <= 64 && forall|i: int|
            0 <= i < items.len() ==> fit_waypoint(#[trigger] items[i]),
        upload_gate(items) is Err ==> upload_gate(items)->Err_0.status == 422,
{
    all_fit_means_no_fault(items, items.len());
}

/// A parameter is written in the type the client asks for, else in the type
/// the cache knows, else as a floating-point number. An integer must fit in 32
/// bits and a floating-point number must be finite.
pub proof fn writes_are_typed(asked: Option<u8>, cached: Option<u8>, whole: i64, single: u32)
    ensures
        asked matches Some(t) ==> write_type(asked, cached) == t,
        asked is None && cached is Some ==> write_type(asked, cached) == cached->0,
        asked is None && cached is None ==> write_type(asked, cached) == 9,
        -0x8000_0000 <= whole < 0x8000_0000 ==> write_value(6, whole, single) == Ok::<ParamVal, crate::operator::RefusalModel>(
            ParamVal::Int32(whole as i32),
        ),
        !(-0x8000_0000 <= whole < 0x8000_0000) ==> write_value(6, whole, single) is Err,
        forall|t: u8|
            t != 6 ==> (match #[trigger] write_value(t, whole, single) {
                Ok(v) => v == ParamVal::Real32(single) && -0x7F80_0000 < f32_rank(single)
                    < 0x7F80_0000,
                Err(e) => e.status == 422 && !(-0x7F80_0000 < f32_rank(single) < 0x7F80_0000),
            }),
{
    f32_order_is_by_rank(single, 0);
}

/// A parameter is written only to a linked vehicle of the fleet, under a name
/// of one to sixteen bytes without the blanks around it.
pub proof fn parameter_writes_are_gated(
    m: FleetModel,
    index: u8,
    id: Seq<char>,
    whole: i64,
    single: u32,
    asked: Option<u8>,
    cached: Option<u8>,
)
    ensures
        match param_write(m, index, id, whole, single, asked, cached) {
            Ok((name, t, v)) => {
                &&& in_fleet(m, index)
                &&& linked(m, index)
                &&& name == crate::text::trimmed(id)
                &&& name.len() >= 1
                &&& crate::text::byte_len(name) <= 16
                &&& t == write_type(asked, cached)
                &&& write_value(t, whole, single) == Ok::<ParamVal, crate::operator::RefusalModel>(
                    v,
                )
            },
            Err(e) => if !in_fleet(m, index) {
                e.status == 404
            } else if !linked(m, index) {
                e.status == 409
            } else {
                e.status == 422
            },
        },
{
}

/// Airframes and calibrations are only for a linked, disarmed vehicle of the
/// fleet; an airframe must be known and a sensor must have its name.
pub proof fn setups_are_gated(m: SupModel, index: u8, id: u32, known: bool, sensor: Seq<char>)
    ensures
        ({
            let free = in_fleet(m.fleet, index) && linked(m.fleet, index) && !(index
                < m.vehicles.len() && m.vehicles[index as int].armed);
            &&& airframe_gate(m, index, id, known) is Ok <==> free && known
            &&& calibration_gate(m, index, sensor) is Ok <==> free && sensor_from(sensor, 0) is Some
            &&& calibration_gate(m, index, sensor) matches Ok(s) ==> sensor_from(sensor, 0) == Some(
                s,
            )
        }),
{
}

/// A mode is switched by its name, for a linked vehicle of the fleet: the word
/// that goes out is that of the named mode.
pub proof fn mode_switches_are_gated(m: FleetModel, index: u8, mode: SwitchableMode)
    ensures
        mode_gate(m, index, mode.text()) == (if !in_fleet(m, index) {
            Err(crate::operator::out_of_range(index, m.count))
        } else if !linked(m, index) {
            Err(crate::operator::no_link())
        } else {
            Ok(mode.packed())
        }),
        crate::operator::out_of_range(index, m.count).status == 404,
        crate::operator::no_link().status == 409,
{
    mode_table(mode);
}

/// A client that asks for no number of lines gets 200, and nobody more than
/// ten thousand.
pub proof fn log_lines_are_capped(n: usize)
    ensures
        lines_given(None) == 200,
        n <= 10_000 ==> lines_given(Some(n)) == n,
        n > 10_000 ==> lines_given(Some(n)) == 10_000,
{
}

// Engaging.

/// An arming that the vehicle puts off, with result one or five, is tried
/// again after a second and a half, four times in all; any other answer, and
/// the fourth of these, moves on to the mode switch after a fifth of a second.
/// The mode switch is tried once.
pub proof fn arming_is_retried(attempt: u8, ack: CmdAck)
    requires
        1 <= attempt <= 4,
    ensures
        ({
            let put_off = ack matches CmdAck::Rejected { result } && (result == 1 || result == 5);
            let next = engaged(EngageStep::Arm { attempt }, ack);
            &&& put_off && attempt < 4 ==> next == EngageStep::Arm { attempt: (attempt + 1) as u8 }
                && pause_before(next) == 1500
            &&& !put_off || attempt == 4 ==> next is SetMode && pause_before(next) == 200
            &&& engaged(EngageStep::SetMode, ack) is Finished
            &&& engage_begun(true) == EngageStep::Arm { attempt: 1 }
            &&& engage_begun(false) is SetMode
            &&& pause_before(engage_begun(true)) == 0
        }),
{
}

} // verus!
