use std::collections::BTreeMap;

use mavfleet::engage::{ack_text, EngageStep};
use mavfleet::events::EventKind;
use mavfleet::fleet::{Phase, TaskState, TaskStatus, VehicleTaskInfo};
use mavfleet::fsm::{FsmCause, FsmState};
use mavfleet::link::{CmdAck, LinkCounts};
use mavfleet::messages::{message_name, TelemetryEvent, Vec3};
use mavfleet::modes::{
    mode_name, mode_word_by_name, switchable_modes, MODE_WORD_AUTO_LAND, MODE_WORD_AUTO_LOITER,
    MODE_WORD_AUTO_RTL, MODE_WORD_OFFBOARD, MODE_WORD_POSCTL,
};
use mavfleet::operator::{
    ack_summary, apply_airframe, arm_params, begin_goto, check_airframe, check_calibration,
    check_goto, check_goto_altitude, check_index, check_link, check_mode, check_param_write,
    check_takeoff, check_upload, end_flight, guided_gates, note_arm, note_calibration, note_clear,
    note_mode, note_param_refresh, note_param_write, note_start, note_takeoff, note_upload,
    replaces, request_estop, tail_length, takeoff_params, Ending, Sensor, DEFAULT_TAKEOFF_ALT,
};
use mavfleet::params::{ParamStore, ParamVal};
use mavfleet::setup::{
    airframe_groups, build_setup_summary, is_known_airframe, param_rows, resolve_airframe,
    Airframe, AirframeCategory,
};
use mavfleet::supervisor::{
    probe_again, DeadPair, OperatorWaypoint, Outcome, PlacementFacts, SupAction, Supervisor,
    VehicleInput,
};

use mavfleet::vehicle::VehicleState;

fn bits(v: f32) -> u32 {
    v.to_bits()
}

fn wide(v: f64) -> u64 {
    v.to_bits()
}

fn at(x: f32, y: f32, z: f32) -> Vec3 {
    Vec3 { x: bits(x), y: bits(y), z: bits(z) }
}

fn heartbeat(vehicle: u8, armed: bool, word: u32) -> TelemetryEvent {
    TelemetryEvent::Heartbeat {
        sysid: vehicle + 1,
        compid: 1,
        base_mode: if armed { 0x80 } else { 0 },
        custom_mode: word,
    }
}

/// Two vehicles, one heard of in POSCTL, the other in OFFBOARD.
fn test_fleet() -> Supervisor {
    let mut sup = Supervisor::new(2);
    sup.observe(0, &heartbeat(0, false, MODE_WORD_POSCTL), 100);
    sup.observe(
        0,
        &TelemetryEvent::LocalPositionNed { position: at(1.0, 2.0, -3.0), velocity: at(0.0, 0.0, 0.0) },
        100,
    );
    sup.observe(0, &TelemetryEvent::HomePosition { position: at(0.0, 0.0, 0.0) }, 100);
    sup.observe(1, &heartbeat(1, false, MODE_WORD_OFFBOARD), 100);
    sup.note_action(EventKind::RunBoundary, None, "test run started".into());
    sup.note_action(EventKind::FsmTransition, Some(0), "INIT->SPAWNING cause=spawn".into());
    sup.control().add_task(TaskStatus {
        id: "wp_n".into(),
        pos_ned_m: at(0.0, 0.0, -10.0),
        assigned: Some(0),
        state: TaskState::Queued,
        hover_observed: None,
    });
    sup.control().set_vehicle_tasks(
        0,
        VehicleTaskInfo { current: Some("wp_n".into()), queue: vec![] },
    );
    sup.control().set_phase(Phase::Running);
    sup
}

fn last_line(sup: &Supervisor) -> String {
    sup.log().tail(1)[0].text.clone()
}

fn quiet() -> VehicleInput {
    VehicleInput {
        link: LinkCounts {
            sent: 0,
            recv: 0,
            dropped_link_loss: 0,
            crc_or_unknown_dropped: 0,
            retries: 0,
            cmd_failures: 0,
            commands_sent: 0,
            setpoints_sent: 0,
            heartbeats_sent: 0,
            subscribe_requests_sent: 0,
            param_list_requests_sent: 0,
            param_values_recv: 0,
        },
        recv_rate_hz: 0,
        msg_counts: BTreeMap::new(),
        flags: vec![],
    }
}

fn inputs() -> Vec<VehicleInput> {
    vec![quiet(), quiet()]
}

fn walk(sup: &mut Supervisor, i: u8, causes: &[FsmCause]) {
    for c in causes {
        sup.apply_cause(i, *c);
    }
}

fn spot(lat: f64, lon: f64, alt: f64) -> OperatorWaypoint {
    OperatorWaypoint {
        label: None,
        lat_deg: wide(lat),
        lon_deg: wide(lon),
        alt_m: wide(alt),
        hover_s: bits(2.0),
    }
}

fn placed(in_fence: bool, altitude_ok: bool) -> PlacementFacts {
    PlacementFacts {
        position: at(5.0, 6.0, -12.0),
        in_fence,
        altitude_ok,
        lat_text: "47.397800".into(),
        lon_text: "8.545700".into(),
        breach_text: "31".into(),
        agl_text: "12.0".into(),
        floor_text: "0".into(),
        ceiling_text: "60".into(),
    }
}

// The fleet as clients see it.

#[test]
fn fleet_get_envelope_and_fields() {
    let mut sup = test_fleet();
    let mut heard = quiet();
    heard.link.recv = 42;
    heard.recv_rate_hz = bits(50.0);
    heard.msg_counts = BTreeMap::from([(0, 5), (30, 120)]);
    sup.tick(100, &vec![], &vec![heard, quiet()]);
    sup.control().set_vehicle_tasks(
        0,
        VehicleTaskInfo { current: Some("wp_n".into()), queue: vec![] },
    );
    assert_eq!(sup.fleet().phase().name(), "RUNNING");
    assert_eq!(sup.fleet().count(), 2);
    let v0 = sup.registry().snapshot(0).unwrap();
    assert_eq!(v0.sysid, 1);
    assert_eq!(mode_name(v0.mode_word), "POSCTL");
    assert_eq!(sup.registry().fsm(0).unwrap().name(), "INIT");
    let counts: BTreeMap<String, u64> =
        v0.msg_counts.iter().map(|(id, n)| (message_name(*id), *n)).collect();
    assert_eq!(counts["HEARTBEAT"], 5);
    assert_eq!(counts["ATTITUDE"], 120);
    assert_eq!(v0.link.recv, 42);
    let info = sup.fleet().vehicle_tasks(0).unwrap();
    assert!(info.queue.is_empty());
    assert_eq!(info.current.as_deref(), Some("wp_n"));
}

#[test]
fn vehicle_detail_and_404() {
    let sup = test_fleet();
    let v1 = sup.registry().snapshot(1).unwrap();
    assert_eq!(v1.sysid, 2);
    assert_eq!(mode_name(v1.mode_word), "OFFBOARD");
    assert_eq!(v1.heartbeat_age_ms(350), Some(250));
    assert_eq!(v1.telemetry_age_ms(50), 0);
    assert_eq!(Supervisor::new(1).registry().snapshot(0).unwrap().heartbeat_age_ms(9), None);
    let e = check_index(sup.fleet(), 5).unwrap_err();
    assert_eq!(e.status, 404);
    assert_eq!(e.message, "vehicle index 5 out of range (fleet count 2)");
}

#[test]
fn events_tail_endpoint() {
    let sup = test_fleet();
    let events = sup.log().tail(tail_length(Some(1)));
    assert_eq!(events.len(), 1);
    assert_eq!(events[0].kind.name(), "fsm_transition");
    assert_eq!(sup.log().total(), 2);
    assert_eq!(tail_length(None), 200);
    assert_eq!(tail_length(Some(1_000_000)), 10_000);
}

#[test]
fn estop_latches_and_logs() {
    let mut sup = test_fleet();
    request_estop(&mut sup);
    request_estop(&mut sup);
    assert!(sup.fleet().estop_requested());
    assert!(sup.log().total() >= 4, "estop events logged");
}

#[test]
fn tasks_endpoint_lists_table() {
    let sup = test_fleet();
    let tasks = sup.fleet().tasks_snapshot();
    assert_eq!(tasks[0].id, "wp_n");
    assert_eq!(tasks[0].assigned, Some(0));
    assert_eq!(tasks[0].state.name(), "queued");
}

// The operator's requests.

#[test]
fn mission_upload_validation_errors() {
    let e = check_upload(&vec![]).unwrap_err();
    assert_eq!(e.status, 422);
    assert!(e.message.contains("empty"));
    let e = check_upload(&vec![spot(91.0, 0.0, 10.0)]).unwrap_err();
    assert_eq!(e.status, 422);
    assert!(e.message.contains("range"));
    let e = check_upload(&vec![spot(47.4, 8.5, -1.0)]).unwrap_err();
    assert_eq!(e.status, 422);
    assert!(e.message.contains("AGL"));
    let e = check_upload(&vec![spot(f64::NAN, 8.5, 1.0)]).unwrap_err();
    assert!(e.message.contains("finite"));
    let many: Vec<OperatorWaypoint> = (0..65).map(|_| spot(47.4, 8.5, 1.0)).collect();
    assert_eq!(check_upload(&many).unwrap_err().message, "too many items (max 64)");
    assert!(check_upload(&vec![spot(47.4, 8.5, 12.0)]).is_ok());
}

#[test]
fn mission_upload_queues_and_acks() {
    let mut sup = test_fleet();
    assert!(!replaces(None), "default mode is append");
    assert!(!replaces(Some("append")));
    assert!(replaces(Some("replace")));
    let mut far = spot(47.4978, 8.5457, 12.0);
    far.label = Some("far".into());
    let ack = sup.operator_upload(
        &vec![spot(47.3978, 8.5457, 12.0), far],
        &vec![placed(true, true), placed(false, true)],
        false,
    );
    note_upload(&mut sup, ack.accepted.len(), ack.rejected.len());
    assert_eq!(ack.accepted, vec!["op1"]);
    assert_eq!(ack.rejected[0].0, "far");
    assert!(ack.rejected[0].1.contains("geofence"));
    assert_eq!(ack.pool, 1);
    assert_eq!(last_line(&sup), "operator: mission upload via API — 1 accepted, 1 rejected");
    let ack = sup.operator_upload(&vec![spot(47.3978, 8.5457, 12.0)], &vec![placed(true, true)], true);
    assert_eq!(ack.accepted, vec!["op2"]);
    assert_eq!(ack.pool, 1);
    let gone = sup.clear_queued_operator_tasks();
    assert_eq!(gone.cleared, 1);
    note_clear(&mut sup, gone.cleared);
    assert_eq!(last_line(&sup), "operator: mission clear via API — 1 task(s) dropped");
}

#[test]
fn a_mission_is_started_once() {
    let mut sup = Supervisor::new(1);
    sup.bring_up_done(0, true);
    assert_eq!(sup.fleet().phase(), Phase::SetupHold);
    let ack = sup.operator_start();
    assert!(ack.started);
    note_start(&mut sup, ack.started);
    assert_eq!(last_line(&sup), "operator: mission start via API — started");
    let ack = sup.operator_start();
    assert!(!ack.started);
    assert_eq!(ack.reason.as_deref(), Some("mission already started"));
}

#[test]
fn guided_command_gates() {
    let mut sup = test_fleet();
    let e = guided_gates(sup.fleet(), 5).unwrap_err();
    assert_eq!(e.status, 404);
    assert!(e.message.contains("out of range"));
    let e = check_takeoff(sup.fleet(), 0, bits(10.0), bits(0.0), bits(60.0), "0", "60").unwrap_err();
    assert_eq!(e.status, 409);
    assert!(e.message.contains("link"));
    let e = check_takeoff(sup.fleet(), 0, bits(80.0), bits(0.0), bits(60.0), "0", "60").unwrap_err();
    assert_eq!(e.status, 422);
    assert!(e.message.contains("geofence altitude box"));
    assert_eq!(e.message, "alt_m outside the geofence altitude box (0..60 m AGL)");
    let e = check_takeoff(sup.fleet(), 0, bits(0.0), bits(0.0), bits(60.0), "0", "60").unwrap_err();
    assert_eq!(e.message, "alt_m must be in (0, 120] m AGL");
    let e = check_goto(sup.fleet(), 0, wide(-200.0), wide(0.0)).unwrap_err();
    assert_eq!(e.status, 422);
    let e = check_goto(sup.fleet(), 0, wide(f64::INFINITY), wide(0.0)).unwrap_err();
    assert_eq!(e.message, "lat/lon must be finite");
    sup.control().set_mission_active(0, true);
    let e = guided_gates(sup.fleet(), 0).unwrap_err();
    assert_eq!(e.status, 409);
    assert!(e.message.contains("autonomous mission"));
    sup.control().set_mission_active(0, false);
    sup.control().set_link(0);
    assert!(guided_gates(sup.fleet(), 0).is_ok());
    assert!(check_link(sup.fleet(), 0).is_ok());
    assert!(check_goto(sup.fleet(), 0, wide(47.4), wide(8.5)).is_ok());
    assert!(check_goto_altitude(wide(0.0)).is_ok());
    assert!(check_goto_altitude(wide(120.5)).is_err());
}

#[test]
fn guided_commands_are_logged() {
    let mut sup = test_fleet();
    note_arm(&mut sup, 0, true, CmdAck::Accepted);
    assert_eq!(last_line(&sup), "operator: ARM via API — ACCEPTED");
    note_arm(&mut sup, 0, false, CmdAck::Rejected { result: 4 });
    assert_eq!(last_line(&sup), "operator: DISARM via API — Rejected { result: 4 }");
    note_takeoff(&mut sup, 1, "10.0", CmdAck::Timeout { attempts: 3 });
    assert_eq!(last_line(&sup), "operator: TAKEOFF to 10.0 m AGL via API — Timeout { attempts: 3 }");
    assert_eq!(f32::from_bits(arm_params(true).p1), 1.0);
    assert_eq!(f32::from_bits(arm_params(false).p1), 0.0);
    assert_eq!(f32::from_bits(takeoff_params(DEFAULT_TAKEOFF_ALT).p7), 10.0);
    assert_eq!(ack_summary(CmdAck::Accepted), (0, true));
    assert_eq!(ack_summary(CmdAck::Rejected { result: 2 }), (2, false));
    assert_eq!(ack_summary(CmdAck::Timeout { attempts: 3 }), (255, false));
}

#[test]
fn flights_are_begun_and_ended() {
    let mut sup = test_fleet();
    walk(&mut sup, 0, &[FsmCause::Spawn, FsmCause::Px4Launched, FsmCause::TelemetryValid]);
    begin_goto(&mut sup, 0, "47.397800", "8.545700", "12.0", "[5.0, 6.0, -12.0]", true);
    assert_eq!(sup.registry().fsm(0), Some(FsmState::Active));
    assert_eq!(
        last_line(&sup),
        "operator: GO TO (47.397800, 8.545700) 12.0 m AGL via API -> NED [5.0, 6.0, -12.0] (clamped into the fence) — engage sequence started"
    );
    end_flight(&mut sup, 0, Ending::Hold);
    assert_eq!(sup.registry().fsm(0), Some(FsmState::Active));
    end_flight(&mut sup, 0, Ending::ReturnHome);
    assert_eq!(sup.registry().fsm(0), Some(FsmState::Rtl));
    assert_eq!(last_line(&sup), "operator: RTL via API — stream stopped, DO_SET_MODE(AUTO.RTL)");
    end_flight(&mut sup, 1, Ending::Land);
    assert_eq!(sup.registry().fsm(1), Some(FsmState::Init));
    assert_eq!(Ending::Land.mode_word(), MODE_WORD_AUTO_LAND);
    assert_eq!(Ending::ReturnHome.mode_word(), MODE_WORD_AUTO_RTL);
    assert_eq!(Ending::Hold.mode_word(), MODE_WORD_AUTO_LOITER);
}

// Setup.

fn frame(id: u32, name: &str, category: AirframeCategory, label: &str) -> Airframe {
    Airframe {
        id,
        name: name.into(),
        frame_type: "type".into(),
        category,
        category_label: label.into(),
        sim_model: None,
    }
}

fn catalog() -> Vec<Airframe> {
    vec![
        frame(1070, "Boat", AirframeCategory::Boat, "Boat (USV)"),
        frame(4001, "Generic Quadcopter", AirframeCategory::Copter, "Multirotor (UAV)"),
        frame(
            10015,
            "3DR Iris Quadrotor SITL",
            AirframeCategory::Simulator,
            "Simulator (SITL models)",
        ),
        frame(60000, "UUV", AirframeCategory::Underwater, "Underwater (UUV)"),
        frame(4002, "Other Quadcopter", AirframeCategory::Copter, "Multirotor (UAV)"),
    ]
}

fn px4_store(sys_autostart: i32) -> ParamStore {
    let mut st = ParamStore::default();
    st.ingest("SYS_AUTOSTART", sys_autostart as u32, 6, 1, 0, 1);
    st
}

#[test]
fn resolve_airframe_known_and_unknown() {
    let st = px4_store(10015);
    let a = resolve_airframe(Some(&st), &catalog());
    assert_eq!(a.sys_autostart, Some(10015));
    assert_eq!(a.name, "3DR Iris Quadrotor SITL");
    assert_eq!(a.category, "Simulator (SITL models)");
    assert!(a.dynamics_compatible);
    let boat = resolve_airframe(Some(&px4_store(1070)), &catalog());
    assert_eq!(boat.name, "Boat");
    assert_eq!(boat.category, "Boat (USV)");
    assert!(!boat.dynamics_compatible);
    let unknown = resolve_airframe(Some(&px4_store(99999)), &catalog());
    assert_eq!(unknown.name, "Unknown airframe");
    let none = resolve_airframe(None, &catalog());
    assert_eq!(none.sys_autostart, None);
}

#[test]
fn typed_int_params_decode_from_wire_bits() {
    let mut st = px4_store(4001);
    st.ingest("BAT_N_CELLS", 4, 6, 2, 1, 2);
    st.ingest("BAT_V_EMPTY", bits(3.1), 9, 3, 2, 3);
    assert_eq!(st.get_i32("BAT_N_CELLS"), Some(4));
    assert_eq!(st.get("BAT_V_EMPTY"), Some(bits(3.1)));
    let rows = param_rows(&st);
    let cells = rows.iter().find(|p| p.id == "BAT_N_CELLS").unwrap();
    assert_eq!(cells.value, ParamVal::Int32(4));
    assert_eq!(cells.kind, "int32");
    assert_eq!(rows.iter().find(|p| p.id == "BAT_V_EMPTY").unwrap().kind, "real32");
    let pv = ParamVal::Int32(1070);
    assert_eq!(pv.to_wire(), 1070);
    assert_eq!(pv.wire_type(), 6);
    assert_eq!(ParamVal::Real32(bits(3.1)).wire_type(), 9);
    assert_eq!(ParamVal::Real32(bits(3.1)).to_wire(), bits(3.1));
}

#[test]
fn mode_words_match_fleet_modes_constants() {
    assert_eq!(mode_word_by_name("POSCTL").unwrap(), MODE_WORD_POSCTL);
    assert_eq!(mode_word_by_name("AUTO.RTL").unwrap(), MODE_WORD_AUTO_RTL);
    assert_eq!(mode_word_by_name("AUTO.LAND").unwrap(), MODE_WORD_AUTO_LAND);
    assert_eq!(mode_word_by_name("OFFBOARD").unwrap(), MODE_WORD_OFFBOARD);
    assert!(mode_word_by_name("NOT_A_MODE").is_none());
}

#[test]
fn modes_endpoint_lists_switchable_set() {
    let modes = switchable_modes();
    let names: Vec<&str> = modes.iter().map(|m| m.0.as_str()).collect();
    assert!(names.contains(&"MANUAL"));
    assert!(names.contains(&"POSCTL"));
    assert!(names.contains(&"AUTO.RTL"));
    assert!(names.contains(&"OFFBOARD"));
    let posctl = modes.iter().find(|m| m.0 == "POSCTL").unwrap();
    assert_eq!(posctl.1, MODE_WORD_POSCTL);
}

#[test]
fn airframes_json_has_boat_and_quad() {
    let groups = airframe_groups(&catalog());
    let names: Vec<String> = groups.iter().map(|g| g.label.clone()).collect();
    assert!(names.contains(&"Boat (USV)".to_string()));
    assert_eq!(names[0], "Multirotor (UAV)");
}

#[test]
fn airframes_catalog_groups_and_counts() {
    let all = catalog();
    let groups = airframe_groups(&all);
    let cats: Vec<String> = groups.iter().map(|g| g.label.clone()).collect();
    assert!(cats.contains(&"Multirotor (UAV)".to_string()), "UAV group");
    assert!(cats.contains(&"Boat (USV)".to_string()), "USV group");
    assert!(cats.contains(&"Underwater (UUV)".to_string()), "UUV group");
    assert_eq!(cats[0], "Multirotor (UAV)", "QGC browser order");
    let total: usize = groups.iter().map(|g| g.members.len()).sum();
    assert_eq!(total, all.len());
    assert_eq!(groups[0].members, vec![1, 4]);
}

#[test]
fn vehicle_setup_get_shape_and_404() {
    let sup = test_fleet();
    let d = build_setup_summary(&sup, 0, None, &catalog()).unwrap();
    assert_eq!(d.index, 0);
    assert_eq!(d.sysid, 1);
    assert_eq!(d.mode, "POSCTL");
    assert_eq!(d.airframe.sys_autostart, None);
    assert!(d.params.is_none());
    assert!(build_setup_summary(&sup, 9, None, &catalog()).is_none());
}

#[test]
fn the_setup_reads_the_parameters() {
    let sup = test_fleet();
    let mut st = px4_store(4001);
    st.ingest("CAL_GYRO0_ID", 1310988, 6, 5, 1, 2);
    st.ingest("CAL_ACC0_ID", 0, 6, 5, 2, 2);
    st.ingest("BAT1_N_CELLS", 4, 6, 5, 3, 2);
    st.ingest("NAV_RCL_ACT", 2, 6, 5, 4, 2);
    let d = build_setup_summary(&sup, 0, Some(&st), &catalog()).unwrap();
    assert!(d.airframe.dynamics_compatible);
    let p = d.params.unwrap();
    assert_eq!(p.total, 5);
    assert_eq!(p.received, 5);
    assert_eq!(p.calibration.gyro, Some(true));
    assert_eq!(p.calibration.accel, Some(false));
    assert_eq!(p.calibration.mag0, None);
    assert_eq!(p.power.len(), 7);
    assert_eq!(p.power[0].id, "BAT1_N_CELLS");
    assert_eq!(p.power[0].value, Some(ParamVal::Int32(4)));
    assert_eq!(p.safety.len(), 8);
    assert_eq!(p.safety[0].value, Some(ParamVal::Int32(2)));
    assert_eq!(p.safety[1].value, None);
}

#[test]
fn setup_write_endpoints_reject_without_link_and_bad_bodies() {
    let sup = test_fleet();
    let e = check_param_write(sup.fleet(), 0, "BAT_N_CELLS", 4, bits(4.0), None, None).unwrap_err();
    assert_eq!(e.status, 409);
    let known = |id| is_known_airframe(&catalog(), id);
    assert_eq!(check_airframe(&sup, 0, 999999, known(999999)).unwrap_err().status, 422);
    assert_eq!(check_airframe(&sup, 0, 1070, known(1070)).unwrap_err().status, 409);
    let e = check_calibration(&sup, 0, "warp_drive").unwrap_err();
    assert_eq!(e.status, 422);
    assert!(e.message.contains("gyro"));
    let e = check_mode(sup.fleet(), 0, "TURBO").unwrap_err();
    assert_eq!(e.status, 422);
    let names: Vec<String> = switchable_modes().into_iter().map(|m| m.0).collect();
    assert_eq!(e.message, format!("unknown mode 'TURBO' — one of {names:?}"));
    assert_eq!(check_index(sup.fleet(), 5).unwrap_err().status, 404);
    assert_eq!(check_mode(sup.fleet(), 5, "MANUAL").unwrap_err().status, 404);
    assert_eq!(check_calibration(&sup, 5, "gyro").unwrap_err().status, 404);
}

#[test]
fn setup_write_endpoints_reject_out_of_range_index() {
    let sup = test_fleet();
    let e = check_param_write(sup.fleet(), 5, "BAT_N_CELLS", 4, bits(4.0), None, None).unwrap_err();
    assert_eq!(e.status, 404);
    let known = is_known_airframe(&catalog(), 4001);
    assert_eq!(check_airframe(&sup, 5, 4001, known).unwrap_err().status, 404);
}

#[test]
fn parameter_writes_are_typed() {
    let mut sup = test_fleet();
    sup.control().set_link(0);
    let w = check_param_write(sup.fleet(), 0, " BAT_N_CELLS ", 4, bits(4.0), None, Some(6)).unwrap();
    assert_eq!((w.id.as_str(), w.wire_type, w.value), ("BAT_N_CELLS", 6, ParamVal::Int32(4)));
    let w = check_param_write(sup.fleet(), 0, "P", 4, bits(4.5), Some(9), Some(6)).unwrap();
    assert_eq!(w.value, ParamVal::Real32(bits(4.5)));
    let w = check_param_write(sup.fleet(), 0, "P", 4, bits(4.5), None, None).unwrap();
    assert_eq!(w.wire_type, 9);
    let e = check_param_write(sup.fleet(), 0, "P", 1 << 40, bits(1.0), Some(6), None).unwrap_err();
    assert_eq!(e.message, "INT32 param value out of range");
    let e = check_param_write(sup.fleet(), 0, "P", 0, bits(f32::INFINITY), None, None).unwrap_err();
    assert_eq!(e.message, "param value must be finite");
    let e = check_param_write(sup.fleet(), 0, "  ", 0, 0, None, None).unwrap_err();
    assert_eq!(e.message, "param id must be 1..=16 chars");
    assert!(check_param_write(sup.fleet(), 0, "SEVENTEEN_LETTERS", 0, 0, None, None).is_err());
    note_param_write(&mut sup, 0, "P", "4.5", 9, true);
    assert_eq!(last_line(&sup), "setup: param write P=4.5 (type 9) via API — echo confirmed");
    note_param_refresh(&mut sup, 0, true);
    assert_eq!(last_line(&sup), "setup: parameter download requested via API — true");
}

#[test]
fn armed_vehicles_are_not_set_up() {
    let mut sup = test_fleet();
    sup.control().set_link(0);
    assert_eq!(check_calibration(&sup, 0, "level"), Ok(Sensor::Level));
    assert_eq!(f32::from_bits(Sensor::Level.params().p5), 2.0);
    assert_eq!(f32::from_bits(Sensor::Airspeed.params().p6), 2.0);
    note_calibration(&mut sup, 0, Sensor::Baro, CmdAck::Accepted);
    assert_eq!(
        last_line(&sup),
        "setup: calibration 'baro' (barometer (ground pressure)) — command 241 ACCEPTED"
    );
    assert!(check_airframe(&sup, 0, 4001, true).is_ok());
    sup.observe(0, &heartbeat(0, true, MODE_WORD_POSCTL), 200);
    assert_eq!(check_calibration(&sup, 0, "gyro").unwrap_err().status, 409);
    assert_eq!(check_airframe(&sup, 0, 4001, true).unwrap_err().status, 409);
}

#[test]
fn airframes_are_applied_with_a_restart() {
    let mut sup = test_fleet();
    apply_airframe(&mut sup, 1, 4001, false);
    assert!(!sup.fleet().restart_pending(1));
    assert_eq!(last_line(&sup), "setup: airframe apply FAILED — SYS_AUTOSTART=4001 write unconfirmed");
    apply_airframe(&mut sup, 1, 4001, true);
    assert!(sup.fleet().restart_pending(1));
    assert_eq!(sup.control().take_restart_requests(), vec![1]);
    assert!(!sup.fleet().restart_pending(1));
}

#[test]
fn modes_are_switched_by_name() {
    let mut sup = test_fleet();
    assert_eq!(check_mode(sup.fleet(), 0, "AUTO.RTL").unwrap_err().status, 409);
    sup.control().set_link(0);
    assert_eq!(check_mode(sup.fleet(), 0, "AUTO.RTL"), Ok(MODE_WORD_AUTO_RTL));
    note_mode(&mut sup, 0, "AUTO.RTL", MODE_WORD_AUTO_RTL, CmdAck::Rejected { result: 1 });
    assert_eq!(last_line(&sup), "setup: mode change AUTO.RTL (0x05040000) via API — not accepted");
    assert_eq!(mode_name(7), "UNKNOWN");
}

// The run.

#[test]
fn a_vehicle_gets_ready_and_comes_home() {
    let mut sup = test_fleet();
    sup.bring_up_done(0, false);
    sup.begin_spawn(0);
    sup.end_spawn(0, None);
    assert_eq!(sup.tick(200, &vec![], &inputs()), Outcome::Continue);
    assert_eq!(sup.registry().fsm(0), Some(FsmState::Ready));
    assert_eq!(sup.take_actions(), vec![SupAction::DisableDatalinkFailsafe(0)]);
    walk(&mut sup, 0, &[FsmCause::TaskAccepted, FsmCause::SupervisorRtl]);
    sup.observe(0, &heartbeat(0, true, MODE_WORD_AUTO_RTL), 300);
    sup.tick(300, &vec![], &inputs());
    sup.tick(2_400, &vec![], &inputs());
    assert_eq!(sup.registry().fsm(0), Some(FsmState::Rtl));
    assert!(sup.fleet().mission_active(0));
    sup.observe(0, &heartbeat(0, false, MODE_WORD_AUTO_RTL), 2_500);
    sup.tick(2_500, &vec![], &inputs());
    assert_eq!(sup.registry().fsm(0), Some(FsmState::Landed));
    assert!(sup.log().all().iter().any(|e| e.text == "disarm observed after RTL — vehicle LANDED"));
}

#[test]
fn an_armed_return_is_bounded() {
    let mut sup = test_fleet();
    sup.bring_up_done(0, false);
    walk(
        &mut sup,
        1,
        &[
            FsmCause::Spawn,
            FsmCause::Px4Launched,
            FsmCause::TelemetryValid,
            FsmCause::TaskAccepted,
            FsmCause::BatteryLow,
        ],
    );
    sup.observe(1, &heartbeat(1, true, MODE_WORD_AUTO_RTL), 100);
    sup.tick(1_000, &vec![], &inputs());
    sup.tick(121_000, &vec![], &inputs());
    assert_eq!(sup.registry().fsm(1), Some(FsmState::Rtl));
    sup.tick(121_001, &vec![], &inputs());
    assert_eq!(sup.registry().fsm(1), Some(FsmState::Landed));
}

#[test]
fn an_emergency_stop_ends_the_run() {
    let mut sup = test_fleet();
    sup.bring_up_done(0, false);
    walk(
        &mut sup,
        0,
        &[FsmCause::Spawn, FsmCause::Px4Launched, FsmCause::TelemetryValid, FsmCause::TaskAccepted],
    );
    request_estop(&mut sup);
    assert_eq!(sup.tick(1_000, &vec![], &inputs()), Outcome::Continue);
    assert_eq!(sup.registry().fsm(0), Some(FsmState::Landed));
    assert_eq!(sup.fleet().phase(), Phase::Aborted);
    let actions = sup.take_actions();
    assert!(actions.contains(&SupAction::LandAndDisarm(0)));
    assert!(actions.contains(&SupAction::StopStream(1)));
    assert_eq!(sup.tick(5_000, &vec![], &inputs()), Outcome::Continue);
    assert_eq!(sup.tick(5_001, &vec![], &inputs()), Outcome::Stop);
    assert_eq!(sup.exit_code(), 2);
    assert!(!sup.operator_start().started);
}

#[test]
fn dead_processes_and_the_clock_end_runs() {
    let mut sup = test_fleet();
    sup.bring_up_done(0, false);
    walk(&mut sup, 0, &[FsmCause::Spawn]);
    walk(&mut sup, 1, &[FsmCause::Spawn]);
    let dead = vec![
        DeadPair { index: 0, sim_dead: true, px4_dead: false },
        DeadPair { index: 1, sim_dead: false, px4_dead: true },
    ];
    sup.tick(100, &dead, &inputs());
    assert_eq!(sup.registry().fsm(0), Some(FsmState::Fault));
    assert_eq!(sup.fleet().phase(), Phase::Aborted);
    let mut sup = test_fleet();
    sup.bring_up_done(0, false);
    assert_eq!(sup.tick(300_000, &vec![], &inputs()), Outcome::Continue);
    assert_eq!(sup.tick(300_001, &vec![], &inputs()), Outcome::Stop);
    assert_eq!(sup.fleet().phase(), Phase::Timeout);
    assert!(probe_again(19, false));
    assert!(!probe_again(20, false));
    assert!(!probe_again(0, true));
}

#[test]
fn arming_is_tried_four_times() {
    let busy = CmdAck::Rejected { result: 1 };
    let mut step = EngageStep::first(true);
    let mut arms = 0;
    while let EngageStep::Arm { .. } = step {
        arms += 1;
        step = step.next(busy);
    }
    assert_eq!(arms, 4);
    assert_eq!(step, EngageStep::SetMode);
    assert_eq!(step.pause_ms(), 200);
    assert_eq!(step.next(CmdAck::Accepted), EngageStep::Finished);
    assert_eq!(EngageStep::first(true).next(CmdAck::Accepted), EngageStep::SetMode);
    assert_eq!(EngageStep::first(false), EngageStep::SetMode);
    assert_eq!(
        ack_text("arm", CmdAck::Timeout { attempts: 3 }),
        "arm: no COMMAND_ACK after 3 attempts (500 ms retry ladder, §3.2)"
    );
}

#[test]
fn missions_are_bound_to_vehicles() {
    let mut sup = test_fleet();
    sup.control().set_mission_binding(1, "01ARZ3NDEKTSV4RRFFQ69G5FAV".into());
    sup.control().set_mission_binding(9, "x".into());
    assert_eq!(sup.fleet().mission_binding(0), None);
    assert_eq!(sup.fleet().mission_binding(1).as_deref(), Some("01ARZ3NDEKTSV4RRFFQ69G5FAV"));
    assert_eq!(sup.fleet().mission_bindings_snapshot().len(), 2);
    assert!(sup.control().clear_mission_binding(1));
    assert!(!sup.control().clear_mission_binding(1));
    assert!(!sup.control().clear_mission_binding(9));
}

#[test]
fn only_finite_local_positions_are_seen() {
    let mut v = VehicleState::new(0);
    let report = |x: f32, vz: f32| TelemetryEvent::LocalPositionNed {
        position: at(x, 0.0, 0.0),
        velocity: at(0.0, 0.0, vz),
    };
    v.observe(&report(f32::NAN, 0.0), 1);
    assert!(!v.local_position_seen);
    v.observe(&report(1.0, f32::INFINITY), 2);
    assert!(!v.local_position_seen);
    v.observe(&report(1.0, 0.0), 3);
    assert!(v.local_position_seen);
    v.observe(&report(f32::NAN, 0.0), 4);
    assert!(v.local_position_seen);
}

#[test]
fn messages_have_names() {
    assert_eq!(message_name(0), "HEARTBEAT");
    assert_eq!(message_name(253), "STATUSTEXT");
    assert_eq!(message_name(9_999), "MSG_9999");
}

#[test]
fn the_teardown_is_noted() {
    let mut sup = test_fleet();
    sup.note_teardown(true, &vec![]);
    assert_eq!(last_line(&sup), "teardown verified: no processes, all §17 ports free (F-1 probe)");
    sup.note_teardown(false, &vec!["tcp 4560 still accepting".into()]);
    assert_eq!(
        last_line(&sup),
        "TEARDOWN WARNING: ports still bound after 10 s: [\"tcp 4560 still accepting\"]"
    );
}
