use mavfleet::simctl::{
    hil_tcp, onboard_udp, ports_free, render_template, resolve_sim_command, sim_api,
    telemetry_udp, PairExit, PortProbe, SimCommand, SimCtl, SimCtlConfig, SpawnError,
    DEFAULT_PX4_DIR,
};
use mavfleet::simproxy::{
    parse_response, request_text, take_chunk, ProxyError, SimBody, MAX_ANSWER,
};
use mavfleet::sitl::{
    check_binary, check_scenario, fleet_arguments, list_scenarios, px4_dir, resolve_fleet_dir,
    run_dir, sim_cfg_dir, Ancestor, PollReply, Sitl, SitlError, StartWait, StopStep,
};

#[test]
fn port_map_per_spec_17() {
    assert_eq!(hil_tcp(0), 4560);
    assert_eq!(hil_tcp(1), 4561);
    assert_eq!(telemetry_udp(0), 14540);
    assert_eq!(telemetry_udp(1), 14541);
    assert_eq!(onboard_udp(2), 14582);
    assert_eq!(sim_api(3), 8203);
}

#[test]
fn template_renders_placeholders() {
    let argv = render_template(
        "python3 {sim_script} {hil_port} {duration_s}",
        1,
        "240",
        None,
        "/repo/scripts/sim_stream.py",
    );
    assert_eq!(argv[0], "python3");
    assert!(argv[1].ends_with("sim_stream.py") || argv[1].contains("sim_stream"));
    assert_eq!(argv[2], "4561");
    assert_eq!(argv[3], "240");
    let argv = render_template(
        "{sitsim} run --port {hil_port} --sysid {sysid}",
        2,
        "10",
        None,
        "/repo/scripts/sim_stream.py",
    );
    assert_eq!(argv[3], "4562");
    assert!(argv.contains(&"--sysid".to_string()));
    assert!(argv.contains(&"3".to_string()));
}

#[test]
fn ports_free_on_quiet_machine() {
    let quiet = PortProbe { hil_accepts: false, telemetry_free: true, onboard_free: true };
    let (ok, failures) = ports_free(&vec![7], &vec![quiet]);
    assert!(ok, "unexpectedly busy ports: {failures:?}");
    let busy = PortProbe { hil_accepts: true, telemetry_free: false, onboard_free: true };
    let (ok, failures) = ports_free(&vec![7, 1], &vec![quiet, busy]);
    assert!(!ok);
    assert_eq!(failures.len(), 2);
    assert_eq!(failures[1], "udp telemetry 14541 still bound");
}

#[test]
fn spawn_errors_are_clean() {
    let cfg = SimCtlConfig::from_env(None, "10".into(), Some("/nonexistent/px4"), None);
    let e = SpawnError::MissingPx4(cfg.px4_binary());
    assert!(e.text().starts_with("px4 binary not found at /nonexistent/px4/"));
    assert!(e.text().ends_with("(set FLEET_PX4_DIR)"));
    let cfg = SimCtlConfig::from_env(None, "10".into(), None, None);
    assert_eq!(cfg.px4_dir, DEFAULT_PX4_DIR);
    let plain = SimCtlConfig::from_env(None, "10".into(), Some("/px4"), None);
    let slashed = SimCtlConfig::from_env(None, "10".into(), Some("/px4/"), None);
    assert_eq!(slashed.px4_binary(), plain.px4_binary());
    assert_eq!(slashed.px4_etc(), plain.px4_etc());
    assert_eq!(SpawnError::Io("denied".into()).text(), "spawn io error: denied");
}

#[test]
fn pairs_are_tracked() {
    let mut ctl = SimCtl::new();
    ctl.add_vehicle(0);
    ctl.add_vehicle(1);
    let dead = ctl.dead_vehicles(&vec![
        PairExit { sim: false, px4: false },
        PairExit { sim: true, px4: false },
    ]);
    assert_eq!(dead.len(), 1);
    assert_eq!(dead[0].index, 1);
    assert!(dead[0].sim_dead);
    ctl.drop_vehicle(1);
    assert_eq!(ctl.len(), 1);
    assert_eq!(ctl.take_vehicle(1), None);
    assert!(ctl.take_vehicle(0).is_some());
    ctl.clear();
    assert!(ctl.is_empty());
}

#[test]
fn the_sim_command_is_chosen() {
    match resolve_sim_command(Some("sim {hil_port}".into()), true, None) {
        SimCommand::Template(t) => assert_eq!(t, "sim {hil_port}"),
        other => panic!("{other:?}"),
    }
    assert!(matches!(resolve_sim_command(None, true, None), SimCommand::Environment));
    match resolve_sim_command(None, false, Some("/opt/python")) {
        SimCommand::Probe(c) => assert_eq!(c, vec!["/opt/python", "python3.13", "python3"]),
        other => panic!("{other:?}"),
    }
}

#[test]
fn parses_status_and_json_body() {
    let raw = b"HTTP/1.1 200 OK\r\nContent-Type: application/json\r\n\r\n{\"ok\":true,\"data\":{\"id\":\"runtime-1\"}}";
    let (code, body) = parse_response(raw).unwrap();
    assert_eq!(code, 200);
    let SimBody::Json(bytes) = body else { panic!("the body is JSON") };
    let v: serde_json::Value = serde_json::from_slice(&bytes).unwrap();
    assert_eq!(v["data"]["id"], "runtime-1");
}

#[test]
fn parses_error_status() {
    let raw = b"HTTP/1.1 400 Bad Request\r\n\r\n{\"ok\":false,\"error\":\"unknown fault type\"}";
    let (code, body) = parse_response(raw).unwrap();
    assert_eq!(code, 400);
    let SimBody::Json(bytes) = body else { panic!("the body is JSON") };
    let v: serde_json::Value = serde_json::from_slice(&bytes).unwrap();
    assert!(v["error"].as_str().unwrap().contains("fault"));
}

#[test]
fn wraps_non_json_body() {
    let raw = b"HTTP/1.1 502 Bad Gateway\r\n\r\n<html>boom</html>";
    let (code, body) = parse_response(raw).unwrap();
    assert_eq!(code, 502);
    assert_eq!(body, SimBody::Raw("<html>boom</html>".into()));
}

#[test]
fn rejects_headerless_garbage() {
    assert!(parse_response(b"not http at all").is_err());
    assert!(parse_response(b"HTTP/1.1\r\n").is_err());
}

#[test]
fn malformed_answers_are_told_apart() {
    assert_eq!(parse_response(b"").unwrap_err(), ProxyError::NoHeaderEnd);
    assert_eq!(parse_response(b"\xff\r\n\r\n").unwrap_err(), ProxyError::HeaderNotText);
    let e = parse_response(b"HTTP/1.1 \"OK\"\r\nX: 1\r\n\r\n").unwrap_err();
    assert_eq!(e, ProxyError::StatusLine("HTTP/1.1 \"OK\"".into()));
    assert_eq!(e.text(8200), "malformed status line: \"HTTP/1.1 \\\"OK\\\"\"");
    assert!(parse_response(b"HTTP/1.1 65536 X\r\n\r\n").is_err());
    let (code, body) = parse_response(b"HTTP/1.1 204\r\n\r\n").unwrap();
    assert_eq!(code, 204);
    assert_eq!(body, SimBody::Null);
    let (_, body) = parse_response(b"HTTP/1.1 200\r\n\r\na\xffb").unwrap();
    assert_eq!(body, SimBody::Raw("a\u{fffd}b".into()));
}

#[test]
fn the_request_is_framed() {
    let seen = request_text(8201, "/api/faults", "{\"type\":\"motor_cut\"}");
    assert!(seen.starts_with("POST /api/faults HTTP/1.1\r\n"));
    assert!(seen.contains("Host: 127.0.0.1:8201\r\n"));
    assert!(seen.contains("Content-Type: application/json\r\n"));
    assert!(seen.contains("Content-Length: 20\r\n"));
    assert!(seen.contains("Connection: close\r\n"));
    assert!(seen.ends_with("{\"type\":\"motor_cut\"}"));
    assert!(request_text(1, "/", "\"\u{e4}\"").contains("Content-Length: 4\r\n"));
}

#[test]
fn long_answers_are_refused() {
    let mut answer = Vec::new();
    assert!(take_chunk(&mut answer, &vec![0u8; MAX_ANSWER]).is_ok());
    let e = take_chunk(&mut answer, &vec![0u8; 1]).unwrap_err();
    assert_eq!(e.text(8200), "response from :8200 exceeds 1 MiB");
    assert_eq!(
        ProxyError::Unreachable("refused".into()).text(8203),
        "sim control plane :8203 unreachable: refused"
    );
    assert_eq!(ProxyError::NoAnswer.text(8203), "sim control plane :8203 did not answer within 2 s");
    assert_eq!(ProxyError::Encode("x".into()).text(1), "body encode: x");
    assert_eq!(ProxyError::Write("x".into()).text(1), "write to :1: x");
    assert_eq!(ProxyError::Read("x".into()).text(1), "read from :1: x");
}

#[test]
fn the_fleet_is_started_once() {
    let mut sitl = Sitl::new("/repo/fleet".into(), "operator_session.toml".into());
    assert_eq!(sitl.stop(false).unwrap_err(), SitlError::NotRunning);
    let plan = sitl.begin_start(false, None).unwrap();
    assert_eq!(plan.scenario_path, "/repo/fleet/tests/operator_session.toml");
    assert!(check_scenario(&plan, true).is_ok());
    let e = check_scenario(&plan, false).unwrap_err();
    assert_eq!(e.http_status(), 404);
    assert_eq!(
        e.message(),
        "scenario 'operator_session.toml' not found at /repo/fleet/tests/operator_session.toml"
    );
    sitl.note_started(Some(77), 1000, "/repo/scratch/fleet-run-5".into(), plan.scenario);
    let e = sitl.begin_start(true, Some("other.toml".into())).unwrap_err();
    assert_eq!(e.code(), "SITL_RUNNING");
    assert_eq!(e.http_status(), 409);
    let s = sitl.status(true, Some(b"{\"data\": {\"vehicles\": [{}, {}, {}]}}"));
    assert!(s.running);
    assert_eq!(s.vehicle_count, 3);
    assert_eq!(s.pid, Some(77));
    assert_eq!(s.started_at_ms, Some(1000));
    assert_eq!(sitl.status(true, Some(b"[]")).vehicle_count, 0);
    assert_eq!(sitl.status(true, Some(b"{\"data\": {\"vehicles\": [\"\xff\"]}}")).vehicle_count, 0);
    assert_eq!(sitl.stop(false).unwrap(), StopStep::Kill);
    assert_eq!(sitl.stop(false).unwrap_err().code(), "SITL_NOT_RUNNING");
}

#[test]
fn a_fleet_that_exited_is_noticed() {
    let mut sitl = Sitl::new("fleet".into(), "d.toml".into());
    sitl.note_started(None, 1, "r".into(), "s.toml".into());
    assert_eq!(sitl.stop(true).unwrap(), StopStep::AlreadyExited);
    sitl.note_started(None, 1, "r".into(), "s.toml".into());
    let s = sitl.status(false, None);
    assert!(!s.running);
    assert_eq!(s.scenario, None);
    assert!(sitl.stop(true).is_err());
    assert!(sitl.begin_start(false, Some("/abs/x.toml".into())).unwrap().scenario_path == "/abs/x.toml");
}

#[test]
fn a_start_that_hangs_is_given_up() {
    let mut wait = StartWait::new();
    assert!(wait.goes_on(119_999));
    assert!(!wait.goes_on(120_000));
    assert!(!wait.observe(PollReply::Failed { error: "refused".into() }));
    assert!(!wait.observe(PollReply::Answered { success: false }));
    let e = wait.give_up(Some(5));
    assert_eq!(e.http_status(), 408);
    assert_eq!(e.code(), "FLEET_START_TIMEOUT");
    assert_eq!(
        e.message(),
        "mavfleet spawned (pid Some(5)) but did not answer on :8400 within 120s; last error: refused"
    );
    assert!(wait.observe(PollReply::Answered { success: true }));
}

#[test]
fn start_failures_have_codes() {
    let e = check_binary("/x/mavfleet", false).unwrap_err();
    assert_eq!(e.code(), "MAVFLEET_BINARY_MISSING");
    assert_eq!(e.message(), "mavfleet binary not found at /x/mavfleet");
    let e = SitlError::LogCreate { path: "l".into(), error: "e".into() };
    assert_eq!((e.code(), e.message().as_str()), ("LOG_CREATE_FAILED", "could not create log file l: e"));
    let e = SitlError::LogOpen { path: "l".into(), error: "e".into() };
    assert_eq!((e.code(), e.message().as_str()), ("LOG_OPEN_FAILED", "could not open log file l: e"));
    let e = SitlError::Spawn { error: "e".into() };
    assert_eq!((e.code(), e.http_status()), ("SPAWN_FAILED", 500));
}

#[test]
fn paths_of_a_start() {
    assert_eq!(run_dir("/repo/fleet", Some("/repo"), 12), "/repo/scratch/fleet-run-12");
    assert_eq!(run_dir("/", None, 12), "/scratch/fleet-run-12");
    assert_eq!(px4_dir(Some("/px4"), "f", None), "/px4");
    assert_eq!(px4_dir(None, "/a/b/fleet", Some("/a")), "/a/PX4-Autopilot");
    assert_eq!(sim_cfg_dir(None, "fleet"), "fleet/scratch/vsims");
    assert_eq!(
        fleet_arguments("s.toml", "r"),
        vec!["run", "--fleet", "s.toml", "--api-port", "8400", "--run-dir", "r"]
    );
    let dir = |path: &str, root: bool| Ancestor {
        path: path.into(),
        has_manifest: root,
        has_crates: root,
        has_tests: true,
    };
    let above = vec![
        dir("/y/fleet/target/debug", false),
        dir("/y/fleet/target", false),
        dir("/y/fleet", true),
        dir("/y", true),
    ];
    assert_eq!(resolve_fleet_dir(Some("x"), &above), "x");
    assert_eq!(resolve_fleet_dir(None, &above), "/y/fleet");
    assert_eq!(resolve_fleet_dir(None, &vec![dir("/y", false)]), ".");
    assert_eq!(resolve_fleet_dir(None, &vec![]), ".");
}

#[test]
fn scenarios_are_listed_by_name() {
    let names = vec!["b.toml".into(), "a.txt".into(), "a.toml".into(), ".toml".into()];
    assert_eq!(list_scenarios(&names), vec!["a.toml", "b.toml"]);
}

#[test]
fn every_port_serves_one_vehicle_and_one_purpose() {
    let mut ports: Vec<u16> = (0..8)
        .flat_map(|i| [hil_tcp(i), telemetry_udp(i), onboard_udp(i), sim_api(i)])
        .collect();
    ports.sort();
    ports.dedup();
    assert_eq!(ports.len(), 32);
}
