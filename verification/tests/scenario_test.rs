use mavfleet::allocation::{
    best_bid, nearest, order_tasks, reallocate, static_argmin, Assignment, Auction, Rng, Task,
};
use mavfleet::compile::{transit_altitude_m, MissionPlan, TaskFacts};
use mavfleet::config::{EnvSection, FleetConfig, FleetSection, RunArgs, SimSection};
use mavfleet::messages::Vec3;
use mavfleet::scenario::{
    EventSpec, FsmTraceSpec, OriginSpec, Scenario, ScenarioFacts, TaskSpec, VehicleOverride,
};

fn single(v: f32) -> u32 {
    v.to_bits()
}

fn no_faults() -> ScenarioFacts {
    ScenarioFacts { fence_error: None, lat_text: String::new(), lon_text: String::new() }
}

fn check(s: &Scenario) -> Result<(), String> {
    s.validate(&no_faults()).map_err(|e| e.message)
}

fn task(id: &str, pos: [f32; 3]) -> TaskSpec {
    TaskSpec {
        id: id.into(),
        pos_ned_m: Vec3 { x: single(pos[0]), y: single(pos[1]), z: single(pos[2]) },
        hover_s: single(0.0),
        reward: single(1.0),
        deadline_s: None,
    }
}

fn event(kind: &str) -> EventSpec {
    EventSpec { kind: kind.into(), vehicle: None, start_s: None, duration_s: None, fault: None }
}

fn trace(from: &str, to: &str, cause: &str) -> FsmTraceSpec {
    FsmTraceSpec { vehicle: 0, from: from.into(), to: to.into(), cause: cause.into() }
}

#[test]
fn geo_origin_parses_and_defaults() {
    let mut s = Scenario::default();
    s.fleet.count = Some(1);
    assert_eq!(s.geo_origin(), OriginSpec::default());
    let o = OriginSpec {
        lat_deg: 47.123f64.to_bits(),
        lon_deg: 8.456f64.to_bits(),
        alt_m: OriginSpec::default().alt_m,
    };
    s.env.origin = Some(o);
    assert!(check(&s).is_ok());
    let o = s.geo_origin();
    assert!((f64::from_bits(o.lat_deg) - 47.123).abs() < 1e-9);
    assert!((f64::from_bits(o.lon_deg) - 8.456).abs() < 1e-9);
    assert!((f64::from_bits(o.alt_m) - 500.0).abs() < 1e-9);
    s.env.origin = Some(OriginSpec { lat_deg: 91.0f64.to_bits(), lon_deg: 0, alt_m: o.alt_m });
    assert!(check(&s).is_err());
}

#[test]
fn defaults_match_spec_9_1() {
    let mut s = Scenario::default();
    s.fleet.count = Some(3);
    assert!(check(&s).is_ok());
    assert_eq!(s.count(), 3);
    assert!(s.fleet.battery_sim);
    assert!(!s.fleet.restart_on_fault);
    assert!(!s.fleet.hold_for_setup);
    assert_eq!(s.fleet.tick_hz, 10);
    assert!(s.tasks.is_empty());
    assert!(s.env.geofence.is_none());
    assert_eq!(s.max_time_s(), None);
    assert_eq!(f64::from_bits(s.sim_duration_s()), 300.0);
}

#[test]
fn count_out_of_range_rejected() {
    let mut s = Scenario::default();
    s.fleet.count = Some(9);
    assert!(check(&s).unwrap_err().contains("1-8"));
    s.fleet.count = Some(0);
    assert!(check(&s).unwrap_err().contains("1-8"));
    assert_eq!(Scenario::default().count(), 2);
}

#[test]
fn duplicate_task_ids_rejected() {
    let mut s = Scenario::default();
    s.tasks = vec![task("a", [0.0, 0.0, -10.0]), task("a", [10.0, 0.0, -10.0])];
    assert!(check(&s).unwrap_err().contains("duplicate"));
    s.tasks[1].id = "b".into();
    assert!(check(&s).is_ok());
    s.tasks[1].hover_s = single(-1.0);
    assert_eq!(check(&s).unwrap_err(), "task 'b' hover_s must be >= 0");
}

#[test]
fn bad_geofence_rejected() {
    let s = Scenario::default();
    let facts = ScenarioFacts { fence_error: Some("polygon has no area".into()), ..no_faults() };
    let e = s.validate(&facts).unwrap_err();
    assert!(e.message.contains("geofence"));
}

#[test]
fn event_validation() {
    let mut s = Scenario::default();
    let mut loss = event("link_loss");
    loss.start_s = Some(10.0f64.to_bits());
    s.events = vec![loss.clone()];
    assert!(check(&s).unwrap_err().contains("link_loss"));
    s.events = vec![event("meteor")];
    assert!(check(&s).unwrap_err().contains("meteor"));
    s.fleet.count = Some(2);
    loss.vehicle = Some(5);
    loss.duration_s = Some(5.0f64.to_bits());
    s.events = vec![loss.clone()];
    assert!(check(&s).unwrap_err().contains("out of range"));
    loss.vehicle = Some(1);
    s.events = vec![loss];
    assert!(check(&s).is_ok());
    let mut stop = event("estop");
    stop.vehicle = Some(0);
    s.events = vec![stop];
    assert!(check(&s).unwrap_err().contains("fleet-wide"));
}

#[test]
fn fsm_trace_spec_names_validated() {
    let mut s = Scenario::default();
    s.success.fsm_trace = vec![trace("ACTVE", "RTL", "heartbeat_loss")];
    assert!(check(&s).unwrap_err().contains("ACTVE"));
    s.success.fsm_trace = vec![trace("ACTIVE", "RTL", "sunspot")];
    assert!(check(&s).unwrap_err().contains("sunspot"));
    s.success.fsm_trace = vec![trace("ACTIVE", "RTL", "heartbeat_loss")];
    assert!(check(&s).is_ok());
    s.success.fsm_trace[0].vehicle = 2;
    assert!(check(&s).unwrap_err().contains("out of range"));
}

#[test]
fn sim_section_parsed() {
    let mut s = Scenario::default();
    s.sim.command = Some("python3 /tmp/s.py {hil_port} {duration_s}".into());
    s.sim.duration_s = Some(120.0f64.to_bits());
    assert_eq!(s.sim_command().unwrap(), "python3 /tmp/s.py {hil_port} {duration_s}");
    assert_eq!(f64::from_bits(s.sim_duration_s()), 120.0);
    s.sim.duration_s = Some(5.0f64.to_bits());
    assert_eq!(f64::from_bits(s.sim_duration_s()), 30.0);
}

#[test]
fn other_faults_are_named() {
    let mut s = Scenario::default();
    s.fleet.tick_hz = 20;
    assert_eq!(check(&s).unwrap_err(), "[fleet] tick_hz is fixed at 10 in v0.1, got 20");
    let mut s = Scenario::default();
    s.vehicle_overrides = vec![VehicleOverride { index: 2 }];
    assert_eq!(check(&s).unwrap_err(), "[[vehicle_override]] index 2 out of range (count 2)");
    let mut s = Scenario::default();
    s.success.max_time_s = Some(0.0f64.to_bits());
    assert_eq!(check(&s).unwrap_err(), "[success] max_time_s must be positive");
}

// Compiling. The fence is the default square: 100 m around home, 60 m high.

fn square_facts(s: &Scenario) -> Vec<TaskFacts> {
    s.tasks
        .iter()
        .map(|t| {
            let p = [f32::from_bits(t.pos_ned_m.x), f32::from_bits(t.pos_ned_m.y)];
            let z = f32::from_bits(t.pos_ned_m.z);
            let d = p[0].hypot(p[1]);
            TaskFacts {
                in_fence: p[0].abs() <= 100.0 && p[1].abs() <= 100.0,
                altitude_ok: (-60.0..=0.0).contains(&z),
                in_reach: d <= 400.0,
                position_text: format!("{:?}", [p[0], p[1], z]),
                breach_text: format!("{:.1}", (p[0].abs() - 100.0).max(0.0)),
                z_text: format!("{z:.1}"),
                ceiling_text: "60".into(),
                floor_text: "0".into(),
                distance_text: format!("{d:.0}"),
                reach_text: "400".into(),
            }
        })
        .collect()
}

#[test]
fn altitude_layers_per_6_1() {
    assert_eq!(f32::from_bits(transit_altitude_m(0)), 10.0);
    assert_eq!(f32::from_bits(transit_altitude_m(1)), 15.0);
    assert_eq!(f32::from_bits(transit_altitude_m(3)), 25.0);
}

#[test]
fn tasks_outside_fence_rejected_at_compile() {
    let mut s = Scenario::default();
    s.tasks = vec![
        task("in", [0.0, 0.0, -12.0]),
        task("out", [150.0, 0.0, -12.0]),
        task("high", [0.0, 0.0, -90.0]),
    ];
    let plan = MissionPlan::compile(&s, &square_facts(&s));
    assert_eq!(plan.tasks.len(), 1);
    assert_eq!(plan.tasks[0].id, "in");
    let rejected: Vec<&str> = plan.rejections.iter().map(|(id, _)| id.as_str()).collect();
    assert_eq!(rejected, vec!["out", "high"]);
    assert!(plan.rejections[1].1.contains("altitude"));
    assert_eq!(plan.rejections[1].1, "task outside altitude box (z -90.0 m NED; box -60..-0)");
    assert_eq!(plan.task_index("in"), Some(0));
    assert_eq!(plan.task_index("out"), None);
    let layers: Vec<f32> = plan.transit_altitude_m.iter().map(|b| f32::from_bits(*b)).collect();
    assert_eq!(layers, vec![10.0, 15.0]);
}

// The lean configuration.

#[test]
fn configurations_have_defaults() {
    let c = FleetConfig {
        fleet: FleetSection { count: None, hold_for_setup: true },
        env: EnvSection {
            geofence: None,
            wind_steady_ms: Vec3 { x: 0, y: 0, z: 0 },
            turbulence: "light".into(),
            origin: None,
        },
        sim: SimSection { command: None, duration_s: 600.0f64.to_bits() },
    };
    assert_eq!(c.count(), 1);
    assert!(c.hold_for_setup());
    assert_eq!(c.turbulence(), "light");
    assert_eq!(f64::from_bits(c.sim_duration_s()), 600.0);
    assert_eq!(c.sim_command(), None);
    assert!((f64::from_bits(c.geo_origin().lat_deg) - 47.397770).abs() < 1e-9);
    let args = RunArgs { fleet: "f.toml".into(), api_port: 8400, run_dir: None };
    assert_eq!(args.run_directory(77), "fleet-runs/fleet-run-77");
}

// Allocation.

fn unit(id: &str, reward: f32, deadline: f32) -> Task {
    Task {
        id: id.into(),
        north_m: 0,
        east_m: 0,
        hover_s: 0,
        reward: single(reward),
        deadline_s: single(deadline),
    }
}

fn bids(b: &[f32]) -> Vec<u32> {
    b.iter().map(|x| x.to_bits()).collect()
}

#[test]
fn tasks_are_offered_by_deadline_then_reward() {
    let tasks = vec![
        unit("late", 1.0, f32::INFINITY),
        unit("poor", 1.0, 10.0),
        unit("rich", 2.0, 10.0),
        unit("first", 0.0, 5.0),
    ];
    assert_eq!(order_tasks(&tasks), vec![3, 2, 1, 0]);
    let ties = vec![
        unit("a", 1.0, 10.0),
        unit("b", 2.0, 10.0),
        unit("c", 1.0, 10.0),
        unit("d", 2.0, 10.0),
        unit("e", 1.0, 10.0),
    ];
    assert_eq!(order_tasks(&ties), vec![1, 3, 0, 2, 4]);
}

#[test]
fn the_lowest_bid_wins_and_the_first_among_equals() {
    assert_eq!(best_bid(&bids(&[3.0, 1.0, 1.0])), Some(1));
    assert_eq!(best_bid(&bids(&[f32::INFINITY, f32::NAN])), None);
    assert_eq!(best_bid(&bids(&[])), None);
    assert_eq!(nearest(&bids(&[f32::INFINITY])), 0);
}

#[test]
fn an_auction_gives_every_task_once() {
    let tasks = vec![unit("a", 1.0, 2.0), unit("b", 1.0, 1.0), unit("c", 1.0, 3.0)];
    let mut auction = Auction::new(&tasks, 2);
    assert_eq!(auction.on_offer(), Some(1));
    assert_eq!(auction.award(&bids(&[2.0, 1.0])), Some(1));
    assert_eq!(auction.on_offer(), Some(0));
    assert_eq!(auction.award(&bids(&[2.0, 3.0])), Some(0));
    assert_eq!(auction.award_nearest(&bids(&[9.0, 3.0])), 1);
    assert_eq!(auction.on_offer(), None);
    let a = auction.assignment();
    assert_eq!(a.per_vehicle, vec![vec![0], vec![1, 2]]);
    assert_eq!(a.assigned_count(), 3);
    assert_eq!(a.task_owner(2), Some(1));
    assert_eq!(a.task_owner(7), None);
    let pooled = reallocate(&vec![10, 20, 30], &a);
    assert_eq!(pooled.per_vehicle, vec![vec![10], vec![20, 30]]);
}

#[test]
fn static_costs_decide_task_by_task() {
    let a = static_argmin(&vec![bids(&[2.0, 1.0]), bids(&[1.0, 1.0])], 2);
    assert_eq!(a.per_vehicle, vec![vec![1], vec![0]]);
    assert_eq!(static_argmin(&vec![vec![], vec![]], 0), Assignment::empty(0));
}

#[test]
fn seeded_numbers_repeat() {
    let mut r = Rng::new(42);
    let mut s = Rng::new(43);
    assert_eq!(r.next_u64(), s.next_u64());
    assert_eq!(Rng::new(1).next_u64(), 0x47E4_CE4B_896C_DD1D);
    for _ in 0..100 {
        let n = r.uniform_int(3, 9);
        assert!((3..=9).contains(&n));
    }
}
