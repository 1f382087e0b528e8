use mavfleet::catalog::{
    check_mission, check_version, create_mission as create, default_catalog_url, delete_mission,
    delete_param_preset, get_mission, get_mission_version, is_json_body, load_param_preset,
    rollback_mission, save_param_preset, update_mission, upload_mission, validation_status,
};
use mavfleet::mission::{Geofence, LatLon, MissionFile, MissionMeta, RallyPoint, Waypoint};
use mavfleet::stamp::{encode_crockford, looks_like_ulid, rfc3339, ulid_string};
use mavfleet::store::{
    MetaFile, MetaState, PresetParam, Store, StoreError, StoredMission, StoredVersion,
    VersionState,
};
use mavfleet::validation::{
    altitude_bounds, segments_intersect, validate, EdgeFact, MissionFacts, PointFacts,
    ValidationResult,
};
use mavfleet::version_check::check_reported;

const T0: &str = "2026-09-09T10:00:00Z";
const T1: &str = "2026-09-09T10:00:01Z";
const T2: &str = "2026-09-09T10:00:02Z";

// Geometry, in floating point.

fn haversine_m(lat1: f64, lon1: f64, lat2: f64, lon2: f64) -> f64 {
    let to_rad = |d: f64| d * std::f64::consts::PI / 180.0;
    let dla = to_rad(lat2 - lat1);
    let dlo = to_rad(lon2 - lon1);
    let a = (dla / 2.0).sin().powi(2)
        + to_rad(lat1).cos() * to_rad(lat2).cos() * (dlo / 2.0).sin().powi(2);
    6371000.0 * 2.0 * a.sqrt().asin()
}

fn segment_distance(p: [f64; 2], a: [f64; 2], b: [f64; 2]) -> f32 {
    let (dx, dy) = (b[0] - a[0], b[1] - a[1]);
    let len_sq = dx * dx + dy * dy;
    let t = if len_sq > 1e-20 {
        (((p[0] - a[0]) * dx + (p[1] - a[1]) * dy) / len_sq).clamp(0.0, 1.0)
    } else {
        0.0
    };
    haversine_m(p[0], p[1], a[0] + t * dx, a[1] + t * dy) as f32
}

fn degrees(p: &LatLon) -> [f64; 2] {
    [f64::from_bits(p.lat), f64::from_bits(p.lon)]
}

fn edge_facts(p: [f64; 2], polygon: &[LatLon]) -> Vec<EdgeFact> {
    let n = polygon.len();
    (0..n)
        .map(|i| {
            let a = degrees(&polygon[i]);
            let b = degrees(&polygon[(i + 1) % n]);
            let d = segment_distance(p, a, b);
            let crossed = (b[1] > p[1]) != (a[1] > p[1])
                && p[0] < (a[0] - b[0]) * (p[1] - b[1]) / (a[1] - b[1] + 1e-30) + b[0];
            EdgeFact { distance: d.to_bits(), distance_text: format!("{d:.1}"), crossed }
        })
        .collect()
}

fn point_facts(p: [f64; 2], alt: u32, fence: &Geofence) -> PointFacts {
    PointFacts {
        inclusion: edge_facts(p, &fence.inclusion),
        exclusions: fence.exclusion.iter().map(|e| edge_facts(p, e)).collect(),
        altitude_text: format!("{:.1}", f32::from_bits(alt)),
    }
}

fn turn(p: [f64; 2], q: [f64; 2], r: [f64; 2]) -> i32 {
    let val = (q[1] - p[1]) * (r[0] - q[0]) - (q[0] - p[0]) * (r[1] - q[1]);
    if val.abs() < 1e-12 {
        0
    } else if val > 0.0 {
        1
    } else {
        -1
    }
}

fn facts(m: &MissionFile) -> MissionFacts {
    let poly: Vec<[f64; 2]> = m.geofence.inclusion.iter().map(degrees).collect();
    let n = poly.len();
    let crossings = (0..n)
        .map(|i| {
            (0..n)
                .map(|k| {
                    let (a, b) = (poly[i], poly[(i + 1) % n]);
                    let (c, d) = (poly[k], poly[(k + 1) % n]);
                    segments_intersect(turn(c, d, a), turn(c, d, b), turn(a, b, c), turn(a, b, d))
                })
                .collect()
        })
        .collect();
    let (ceiling, floor) = (f32::from_bits(m.geofence.ceiling_m), f32::from_bits(m.geofence.floor_m));
    MissionFacts {
        crossings,
        waypoints: m
            .waypoints
            .iter()
            .map(|w| point_facts([f64::from_bits(w.x), f64::from_bits(w.y)], w.z, &m.geofence))
            .collect(),
        rally: m
            .rally
            .iter()
            .map(|r| point_facts([f64::from_bits(r.lat), f64::from_bits(r.lon)], r.alt_m, &m.geofence))
            .collect(),
        ceiling_short: format!("{ceiling:.1}"),
        floor_short: format!("{floor:.1}"),
        ceiling_text: format!("{ceiling}"),
        floor_text: format!("{floor}"),
    }
}

fn checked(m: &MissionFile) -> ValidationResult {
    validate(m, &facts(m))
}

// Fixtures.

fn meta() -> MissionMeta {
    MissionMeta {
        id: "test".into(),
        name: "test".into(),
        version: 1,
        created_at: T0.into(),
        updated_at: T0.into(),
        vehicle_type: "quad".into(),
        px4_version: "v1.16.2".into(),
    }
}

fn wp(seq: u16, lat: f64, lon: f64, alt: f32) -> Waypoint {
    Waypoint {
        seq,
        frame: 3,
        command: 16,
        x: lat.to_bits(),
        y: lon.to_bits(),
        z: alt.to_bits(),
        param1: 0,
        param2: 2.0f32.to_bits(),
        param3: 0,
        param4: 0,
    }
}

fn at(points: &[[f64; 2]]) -> Vec<LatLon> {
    points.iter().map(|p| LatLon { lat: p[0].to_bits(), lon: p[1].to_bits() }).collect()
}

fn fence(points: &[[f64; 2]], ceiling: f32) -> Geofence {
    Geofence { ceiling_m: ceiling.to_bits(), floor_m: 0, inclusion: at(points), exclusion: vec![] }
}

const SQUARE: [[f64; 2]; 4] =
    [[47.3970, 8.5450], [47.3980, 8.5450], [47.3980, 8.5460], [47.3970, 8.5460]];

fn square_fence() -> Geofence {
    fence(&SQUARE, 60.0)
}

fn rally(seq: u16, lat: f64, lon: f64) -> RallyPoint {
    RallyPoint { seq, lat: lat.to_bits(), lon: lon.to_bits(), alt_m: 0 }
}

fn mission(waypoints: Vec<Waypoint>, geofence: Geofence, rally: Vec<RallyPoint>) -> MissionFile {
    MissionFile { mission: meta(), waypoints, geofence, rally }
}

fn has(r: &ValidationResult, rule: &str) -> bool {
    r.errors.iter().any(|e| e.rule == rule)
}

// Validation.

#[test]
fn v1_empty_mission_rejected() {
    let r = checked(&mission(vec![], square_fence(), vec![]));
    assert!(!r.valid);
    assert!(r.errors.iter().any(|e| e.rule == "V-1"));
}

#[test]
fn v2_too_many_waypoints_rejected() {
    let wps: Vec<Waypoint> = (0..101).map(|i| wp(i, 47.3975, 8.5455, 12.0)).collect();
    let r = checked(&mission(wps, square_fence(), vec![]));
    assert!(r.errors.iter().any(|e| e.rule == "V-2"));
}

#[test]
fn v3_waypoint_outside_fence_rejected() {
    let r = checked(&mission(vec![wp(0, 47.5000, 8.5000, 12.0)], square_fence(), vec![]));
    assert!(r.errors.iter().any(|e| e.rule == "V-3" && e.seq == Some(0)));
}

#[test]
fn v3_waypoint_inside_fence_accepted() {
    let r = checked(&mission(vec![wp(0, 47.3975, 8.5455, 12.0)], square_fence(), vec![]));
    assert!(r.errors.iter().all(|e| e.rule != "V-3"));
}

#[test]
fn v4_waypoint_in_exclusion_rejected() {
    let mut g = square_fence();
    g.exclusion.push(at(&[
        [47.3974, 8.5454],
        [47.3976, 8.5454],
        [47.3976, 8.5456],
        [47.3974, 8.5456],
    ]));
    let r = checked(&mission(vec![wp(0, 47.3975, 8.5455, 12.0)], g, vec![]));
    assert!(r.errors.iter().any(|e| e.rule == "V-4"));
}

#[test]
fn v5_altitude_too_high_rejected() {
    let r = checked(&mission(vec![wp(0, 47.3975, 8.5455, 200.0)], square_fence(), vec![]));
    assert!(r.errors.iter().any(|e| e.rule == "V-5"));
}

#[test]
fn v5_altitude_for_fixed_wing_higher() {
    let mut m = mission(vec![wp(0, 47.3975, 8.5455, 140.0)], fence(&SQUARE, 150.0), vec![]);
    m.mission.vehicle_type = "fixed".into();
    let r = checked(&m);
    assert!(r.errors.iter().all(|e| e.rule != "V-5"));
}

#[test]
fn v6_waypoint_above_ceiling_rejected() {
    let r = checked(&mission(vec![wp(0, 47.3975, 8.5455, 70.0)], square_fence(), vec![]));
    assert!(r.errors.iter().any(|e| e.rule == "V-6"));
}

#[test]
fn v7_self_intersecting_fence_rejected() {
    let g = fence(
        &[[47.3970, 8.5450], [47.3980, 8.5460], [47.3980, 8.5450], [47.3970, 8.5460]],
        60.0,
    );
    let r = checked(&mission(vec![wp(0, 47.3975, 8.5455, 12.0)], g, vec![]));
    assert!(r.errors.iter().any(|e| e.rule == "V-7"));
}

#[test]
fn v8_two_vertex_fence_rejected() {
    let g = fence(&[[47.3970, 8.5450], [47.3980, 8.5460]], 60.0);
    let r = checked(&mission(vec![wp(0, 47.3975, 8.5455, 12.0)], g, vec![]));
    assert!(r.errors.iter().any(|e| e.rule == "V-8"));
}

#[test]
fn v9_six_rally_points_rejected() {
    let points: Vec<RallyPoint> = (0..6).map(|i| rally(i, 47.3975, 8.5455)).collect();
    let r = checked(&mission(vec![wp(0, 47.3975, 8.5455, 12.0)], square_fence(), points));
    assert!(r.errors.iter().any(|e| e.rule == "V-9"));
}

#[test]
fn v10_rally_outside_fence_rejected() {
    let r = checked(&mission(
        vec![wp(0, 47.3975, 8.5455, 12.0)],
        square_fence(),
        vec![rally(0, 47.5000, 8.5000)],
    ));
    assert!(r.errors.iter().any(|e| e.rule == "V-10"));
}

#[test]
fn v12_unsupported_command_rejected() {
    let mut w = wp(0, 47.3975, 8.5455, 12.0);
    w.command = 999;
    let r = checked(&mission(vec![w], square_fence(), vec![]));
    assert!(r.errors.iter().any(|e| e.rule == "V-12"));
}

#[test]
fn v13_unsupported_frame_rejected() {
    let mut w = wp(0, 47.3975, 8.5455, 12.0);
    w.frame = 99;
    let r = checked(&mission(vec![w], square_fence(), vec![]));
    assert!(r.errors.iter().any(|e| e.rule == "V-13"));
}

#[test]
fn valid_4_waypoint_mission_accepted() {
    let r = checked(&mission(
        vec![
            wp(0, 47.3975, 8.5455, 12.0),
            wp(1, 47.3976, 8.5455, 12.0),
            wp(2, 47.3976, 8.5456, 12.0),
            wp(3, 47.3975, 8.5456, 12.0),
        ],
        square_fence(),
        vec![rally(0, 47.3975, 8.5455)],
    ));
    assert!(r.valid, "expected valid, got errors: {:?}", r.errors);
}

#[test]
fn no_fence_skips_fence_checks() {
    let r = checked(&mission(vec![wp(0, 47.3975, 8.5455, 200.0)], fence(&[], 0.0), vec![]));
    assert!(r.errors.iter().all(|e| e.rule != "V-3" && e.rule != "V-6"));
}

#[test]
fn rally_points_outside_the_altitude_box_are_rejected() {
    let mut p = rally(4, 47.3975, 8.5455);
    p.alt_m = 61.0f32.to_bits();
    let r = checked(&mission(vec![wp(0, 47.3975, 8.5455, 12.0)], square_fence(), vec![p]));
    assert!(!r.valid);
    assert_eq!(r.errors.len(), 1);
    assert_eq!(r.errors[0].rule, "V-11");
    assert_eq!(r.errors[0].message, "rally point 4 altitude 61.0 m outside [0, 60]");
}

#[test]
fn messages_say_what_is_wrong() {
    let r = checked(&mission(vec![wp(7, 47.3975, 8.5455, 200.0)], square_fence(), vec![]));
    assert_eq!(r.errors.len(), 2);
    assert_eq!(
        r.errors[0].message,
        "waypoint 7 altitude 200.0 m outside [0, 120] for vehicle_type quad"
    );
    assert_eq!(r.errors[1].message, "waypoint 7 altitude 200.0 m above geofence ceiling 60.0 m");
    let mut m = mission(vec![wp(0, 47.3975, 8.5455, 12.0)], square_fence(), vec![]);
    m.mission.vehicle_type = "boat".into();
    let r = checked(&m);
    assert_eq!(
        r.errors[0].message,
        "unknown vehicle_type 'boat'; supported: quad, fixed, vtol, rover"
    );
    assert!(has(&r, "V-5"));
    assert_eq!(altitude_bounds("rover"), Some((0, 0)));
    assert_eq!(altitude_bounds("boat"), None);
}

// The store.

fn sample_mission(name: &str) -> MissionFile {
    let mut m = mission(vec![wp(0, 47.397770, 8.545580, 12.0)], square_fence(), vec![]);
    m.mission.id = String::new();
    m.mission.name = name.into();
    m.mission.version = 0;
    m
}

fn new_id(n: u64) -> String {
    ulid_string(1_780_000_000_000 + n, 5, 7)
}

#[test]
fn create_get_roundtrip() {
    let mut store = Store::new("/catalog".into());
    let created = store.create(&sample_mission("test-create"), &new_id(0), T0);
    assert!(!created.mission.id.is_empty());
    assert_eq!(created.mission.version, 1);
    let fetched = store.get(&created.mission.id).unwrap();
    assert_eq!(fetched.mission.name, "test-create");
    assert_eq!(fetched.waypoints.len(), 1);
}

#[test]
fn list_excludes_deleted() {
    let mut store = Store::new("/catalog".into());
    let m1 = store.create(&sample_mission("m1"), &new_id(1), T0);
    let _m2 = store.create(&sample_mission("m2"), &new_id(2), T1);
    assert_eq!(store.list().len(), 2);
    store.delete(&m1.mission.id).unwrap();
    let live = store.list();
    assert_eq!(live.len(), 1);
    assert_eq!(live[0].name, "m2");
    let all = store.list_all();
    assert_eq!(all.len(), 2);
    let deleted = all.iter().find(|s| s.name == "m1").unwrap();
    assert!(deleted.deleted);
}

#[test]
fn store_update_creates_new_version() {
    let mut store = Store::new("/catalog".into());
    let created = store.create(&sample_mission("v1"), &new_id(0), T0);
    let id = created.mission.id.clone();
    let mut m2 = store.get(&id).unwrap();
    m2.mission.name = "v2".into();
    m2.waypoints.push(wp(1, 47.3978, 8.5456, 15.0));
    let updated = store.update(&id, &m2, T1).unwrap();
    assert_eq!(updated.mission.version, 2);
    assert_eq!(updated.waypoints.len(), 2);
    let v1 = store.get_version(&id, 1).unwrap();
    assert_eq!(v1.waypoints.len(), 1);
    assert_eq!(v1.mission.name, "v1");
    let latest = store.get(&id).unwrap();
    assert_eq!(latest.mission.version, 2);
    assert_eq!(latest.waypoints.len(), 2);
}

#[test]
fn rollback_creates_new_version_with_old_content() {
    let mut store = Store::new("/catalog".into());
    let created = store.create(&sample_mission("v1"), &new_id(0), T0);
    let id = created.mission.id.clone();
    let mut m2 = store.get(&id).unwrap();
    m2.mission.name = "v2".into();
    store.update(&id, &m2, T1).unwrap();
    let rolled = store.rollback(&id, 1, T2).unwrap();
    assert_eq!(rolled.mission.version, 3);
    assert_eq!(rolled.mission.name, "v1");
}

#[test]
fn get_nonexistent_returns_not_found() {
    let store = Store::new("/catalog".into());
    let err = store.get("nonexistent-id").unwrap_err();
    assert!(matches!(err, StoreError::NotFound(_)));
}

#[test]
fn files_lie_where_they_should() {
    let store = Store::new("/catalog".into());
    assert_eq!(store.missions_dir(), "/catalog/missions");
    assert_eq!(store.mission_dir("A"), "/catalog/missions/A");
    assert_eq!(store.version_path("A", 1), "/catalog/missions/A/v1.toml");
    assert_eq!(store.meta_path("A"), "/catalog/missions/A/meta.json");
    assert_eq!(store.tombstone_path("A"), "/catalog/missions/A/.tombstone");
    assert_eq!(store.preset_path(0, "x"), "/catalog/presets/vehicle_0/x.toml");
    assert_eq!(store.ulogs_dir(), "/catalog/ulogs");
}

#[test]
fn presets_dir_returns_spec_path() {
    let store = Store::new("/catalog".into());
    assert_eq!(store.presets_dir(0), "/catalog/presets/vehicle_0");
    assert_eq!(store.presets_dir(7), "/catalog/presets/vehicle_7");
}

#[test]
fn ulid_is_26_chars_and_sortable() {
    let id1 = ulid_string(1_780_000_000_000, 999_999_999, 4_000_000_000);
    let id2 = ulid_string(1_780_000_000_002, 0, 1);
    assert_eq!(id1.len(), 26, "ULID must be 26 chars, got {}: {id1}", id1.len());
    assert_eq!(id2.len(), 26);
    assert!(id2 > id1, "ULID not sortable: {id1} vs {id2}");
}

#[test]
fn identifiers_are_recognised() {
    assert!(looks_like_ulid(&ulid_string(1_780_000_000_000, 3, 9)));
    assert!(looks_like_ulid(&encode_crockford(u128::MAX)));
    assert!(!looks_like_ulid("short"));
    assert!(!looks_like_ulid("01ARZ3NDEKTSV4RRFFQ69G5FAI"));
    assert!(!looks_like_ulid("01arz3ndektsv4rrffq69g5fav"));
    assert!(looks_like_ulid("01ARZ3NDEKTSV4RRFFQ69G5FAV"));
}

#[test]
fn now_rfc3339_is_valid_format() {
    let ts = rfc3339(1_788_948_000);
    assert_eq!(ts.len(), 20);
    assert_eq!(ts.as_bytes()[4], b'-');
    assert_eq!(ts.as_bytes()[10], b'T');
    assert_eq!(ts.as_bytes()[19], b'Z');
    assert_eq!(ts, "2026-09-09T10:00:00Z");
    assert_eq!(rfc3339(951_782_400), "2000-02-29T00:00:00Z");
    assert_eq!(rfc3339(0), "1970-01-01T00:00:00Z");
}

#[test]
fn broken_files_are_told_apart() {
    let note = MetaFile {
        name: "m".into(),
        created_at: T0.into(),
        updated_at: T0.into(),
        current_version: 2,
        deleted: false,
    };
    let versions = vec![
        StoredVersion { number: 1, content: VersionState::Parsed(sample_mission("m")) },
        StoredVersion { number: 2, content: VersionState::Broken("expected key".into()) },
    ];
    let store = Store::load(
        "/catalog".into(),
        vec![
            StoredMission {
                id: "A".into(),
                listed: true,
                meta: MetaState::Read(note),
                tombstoned: false,
                versions,
            },
            StoredMission {
                id: "B".into(),
                listed: true,
                meta: MetaState::Missing,
                tombstoned: false,
                versions: vec![],
            },
        ],
        vec![],
    );
    let e = store.get("A").unwrap_err();
    assert_eq!(e.text(), "toml deserialize: expected key");
    assert!(store.get_version("A", 1).is_ok());
    assert_eq!(store.get_version("A", 3).unwrap_err().text(), "mission A v3 not found");
    assert!(matches!(store.get("B").unwrap_err(), StoreError::NotFound(_)));
    assert_eq!(StoreError::AlreadyExists("x".into()).text(), "mission x already exists");
    assert_eq!(StoreError::InvalidId("x".into()).text(), "invalid mission id 'x'");
    assert_eq!(StoreError::Io("x".into()).text(), "io: x");
    assert_eq!(StoreError::TomlSerialize("x".into()).text(), "toml serialize: x");
}

fn param(id: &str, value: f64, param_type: u8) -> PresetParam {
    PresetParam { id: id.into(), value: value.to_bits(), param_type }
}

fn sample_preset_params() -> Vec<PresetParam> {
    vec![
        param("MPC_XY_VEL_MAX", 8.0, 9),
        param("MC_ROLLRATE_P", 7.5, 9),
        param("BAT_N_CELLS", 6.0, 6),
    ]
}

#[test]
fn preset_save_load_roundtrip() {
    let mut store = Store::new("/catalog".into());
    let saved = store.save_preset(0, "aggressive-corners", &sample_preset_params(), T0).unwrap();
    assert_eq!(saved.name, "aggressive-corners");
    assert_eq!(saved.vehicle_id, 0);
    assert_eq!(saved.params.len(), 3);
    assert!(!saved.created_at.is_empty());
    let list = store.list_presets(0);
    assert_eq!(list.len(), 1);
    assert_eq!(list[0].name, "aggressive-corners");
    assert_eq!(list[0].param_count, 3);
    assert_eq!(list[0].created_at, saved.created_at);
    let loaded = store.load_preset(0, "aggressive-corners").unwrap();
    assert_eq!(loaded.name, "aggressive-corners");
    assert_eq!(loaded.vehicle_id, 0);
    assert_eq!(loaded.params.len(), 3);
    assert_eq!(loaded.params[0].id, "MPC_XY_VEL_MAX");
    assert_eq!(f64::from_bits(loaded.params[0].value), 8.0);
    assert_eq!(loaded.params[0].param_type, 9);
    assert_eq!(loaded.params[1].id, "MC_ROLLRATE_P");
    assert_eq!(f64::from_bits(loaded.params[1].value), 7.5);
    assert_eq!(loaded.params[2].id, "BAT_N_CELLS");
    assert_eq!(f64::from_bits(loaded.params[2].value), 6.0);
    assert_eq!(loaded.params[2].param_type, 6);
    assert_eq!(
        store.preset_path(0, "aggressive-corners"),
        "/catalog/presets/vehicle_0/aggressive-corners.toml"
    );
}

#[test]
fn preset_delete_removes_file() {
    let mut store = Store::new("/catalog".into());
    store.save_preset(0, "to-delete", &sample_preset_params(), T0).unwrap();
    assert_eq!(store.list_presets(0).len(), 1);
    store.delete_preset(0, "to-delete").unwrap();
    assert_eq!(store.list_presets(0).len(), 0);
    let err = store.delete_preset(0, "to-delete").unwrap_err();
    assert!(matches!(err, StoreError::NotFound(_)));
}

#[test]
fn preset_list_isolated_per_vehicle() {
    let mut store = Store::new("/catalog".into());
    store.save_preset(0, "v0-preset", &sample_preset_params(), T0).unwrap();
    store.save_preset(1, "v1-preset", &sample_preset_params(), T0).unwrap();
    assert_eq!(store.list_presets(0).len(), 1);
    assert_eq!(store.list_presets(1).len(), 1);
    assert_eq!(store.list_presets(0)[0].name, "v0-preset");
    assert_eq!(store.list_presets(1)[0].name, "v1-preset");
    assert_eq!(store.list_presets(2).len(), 0);
}

#[test]
fn preset_save_overwrites_existing() {
    let mut store = Store::new("/catalog".into());
    store.save_preset(0, "evolving", &vec![param("MPC_XY_VEL_MAX", 8.0, 9)], T0).unwrap();
    assert_eq!(store.list_presets(0)[0].param_count, 1);
    store
        .save_preset(
            0,
            "evolving",
            &vec![param("MPC_XY_VEL_MAX", 10.0, 9), param("MC_ROLLRATE_P", 7.5, 9)],
            T1,
        )
        .unwrap();
    let list = store.list_presets(0);
    assert_eq!(list.len(), 1);
    assert_eq!(list[0].param_count, 2);
    let loaded = store.load_preset(0, "evolving").unwrap();
    assert_eq!(f64::from_bits(loaded.params[0].value), 10.0);
}

#[test]
fn preset_name_validation_rejects_path_traversal() {
    let mut store = Store::new("/catalog".into());
    for name in ["../escape", ".hidden", "has space", ""] {
        let err = store.save_preset(0, name, &sample_preset_params(), T0).unwrap_err();
        assert!(matches!(err, StoreError::InvalidId(_)));
    }
    store.save_preset(0, "aggressive-corners", &sample_preset_params(), T0).unwrap();
    store.save_preset(0, "high_wind_2026", &sample_preset_params(), T0).unwrap();
    store.save_preset(0, "Preset1", &sample_preset_params(), T0).unwrap();
    assert_eq!(store.list_presets(0).len(), 3);
}

#[test]
fn preset_load_nonexistent_returns_not_found() {
    let store = Store::new("/catalog".into());
    let err = store.load_preset(0, "never-saved").unwrap_err();
    assert!(matches!(err, StoreError::NotFound(_)));
}

// The catalog's answers.

#[test]
fn create_and_get_mission() {
    let mut store = Store::new("/catalog".into());
    let created = create(&mut store, Ok(sample_mission("test1")), &new_id(0), T0).unwrap();
    let id = created.mission.id;
    assert!(!id.is_empty());
    assert_eq!(get_mission(&store, &id).unwrap().mission.name, "test1");
}

#[test]
fn unreadable_bodies_make_no_mission() {
    let mut store = Store::new("/catalog".into());
    let e = create(&mut store, Err("expected `]`".into()), &new_id(0), T0).unwrap_err();
    assert_eq!((e.status, e.code.as_str(), e.message.as_str()), (400, "PARSE_ERROR", "expected `]`"));
    assert_eq!(store.list().len(), 0);
    let e = update_mission(&mut store, "x", Err("bad".into()), T0).unwrap_err();
    assert_eq!(e.status, 400);
    assert!(is_json_body(" \n{\"mission\": {}}"));
    assert!(!is_json_body("[mission]"));
    assert!(!is_json_body(""));
}

#[test]
fn list_missions() {
    let mut store = Store::new("/catalog".into());
    create(&mut store, Ok(sample_mission("m1")), &new_id(1), T0).unwrap();
    create(&mut store, Ok(sample_mission("m2")), &new_id(2), T1).unwrap();
    assert_eq!(store.list().len(), 2);
    assert_eq!(store.list()[0].name, "m2");
}

#[test]
fn validate_valid_mission() {
    let mut store = Store::new("/catalog".into());
    let m = mission(vec![wp(0, 47.3975, 8.5455, 12.0)], square_fence(), vec![]);
    let created = create(&mut store, Ok(m), &new_id(1), T0).unwrap();
    let got = get_mission(&store, &created.mission.id).unwrap();
    let r = checked(&got);
    assert_eq!(validation_status(&r), 200);
    assert!(r.valid);
}

#[test]
fn server_update_creates_new_version() {
    let mut store = Store::new("/catalog".into());
    let id = create(&mut store, Ok(sample_mission("v1")), &new_id(1), T0).unwrap().mission.id;
    let updated = update_mission(&mut store, &id, Ok(sample_mission("v2")), T1).unwrap();
    assert_eq!(updated.mission.version, 2);
    let v1 = get_mission_version(&store, &id, 1).unwrap();
    assert_eq!(v1.mission.name, "v1");
    let e = rollback_mission(&mut store, &id, None, T2).unwrap_err();
    assert_eq!((e.status, e.code.as_str()), (400, "MISSING_PARAM"));
    assert_eq!(rollback_mission(&mut store, &id, Some(1), T2).unwrap().mission.version, 3);
    assert_eq!(rollback_mission(&mut store, &id, Some(9), T2).unwrap_err().status, 404);
    assert_eq!(update_mission(&mut store, "gone", Ok(sample_mission("x")), T2).unwrap_err().status, 404);
}

#[test]
fn delete_soft_deletes() {
    let mut store = Store::new("/catalog".into());
    let id = create(&mut store, Ok(sample_mission("del")), &new_id(1), T0).unwrap().mission.id;
    delete_mission(&mut store, &id).unwrap();
    assert_eq!(store.list().len(), 0);
    let all = store.list_all();
    assert_eq!(all.len(), 1);
    assert!(all[0].deleted);
    let e = delete_mission(&mut store, "gone").unwrap_err();
    assert_eq!((e.status, e.code.as_str(), e.message.as_str()), (404, "NOT_FOUND", "mission gone not found"));
}

#[test]
fn uploads_are_checked_in_order() {
    let mut store = Store::new("/catalog".into());
    let e = upload_mission(&store, "gone").unwrap_err();
    assert_eq!((e.status, e.code.as_str()), (404, "MISSION_NOT_FOUND"));
    let m = mission(vec![wp(0, 47.5000, 8.5000, 12.0)], square_fence(), vec![]);
    let id = create(&mut store, Ok(m), &new_id(1), T0).unwrap().mission.id;
    let got = upload_mission(&store, &id).unwrap();
    let (e, details) = check_mission(&got, &facts(&got)).unwrap_err();
    assert_eq!((e.status, e.code.as_str()), (422, "VALIDATION_FAILED"));
    assert!(has(&details, "V-3"));
    let good = sample_mission("good");
    assert!(check_mission(&good, &facts(&good)).is_ok());
    let e = check_version(2, &check_reported("v1.18.0", false)).unwrap_err();
    assert_eq!((e.status, e.code.as_str()), (426, "PX4_VERSION_MISMATCH"));
    assert_eq!(e.message, "vehicle 2 reports PX4 v1.18.0; RustSim GCS v1 requires v1.16.2");
    let e = check_version(2, &check_reported("", false)).unwrap_err();
    assert_eq!((e.status, e.code.as_str()), (503, "PX4_VERSION_UNAVAILABLE"));
    assert_eq!(e.message, "vehicle 2 PX4 version not available after 2s");
    assert!(check_version(2, &check_reported("v1.16.2", false)).is_ok());
    assert!(check_version(2, &check_reported("v1.18.0", true)).is_ok());
}

#[test]
fn param_preset_save_list_load_roundtrip() {
    let mut store = Store::new("/catalog".into());
    let saved =
        save_param_preset(&mut store, 0, "aggressive-corners", &sample_preset_params(), T0).unwrap();
    assert_eq!(saved.name, "aggressive-corners");
    assert_eq!(saved.params.len(), 3);
    let list = store.list_presets(0);
    assert_eq!(list.len(), 1);
    assert_eq!(list[0].name, "aggressive-corners");
    assert_eq!(list[0].param_count, 3);
    let loaded = load_param_preset(&store, 0, "aggressive-corners").unwrap();
    assert_eq!(loaded.params.len(), 3);
    assert_eq!(loaded.params[0].id, "MPC_XY_VEL_MAX");
    assert_eq!(f64::from_bits(loaded.params[0].value), 8.0);
    assert_eq!(loaded.params[0].param_type, 9);
    assert_eq!(loaded.params[2].id, "BAT_N_CELLS");
    assert_eq!(loaded.params[2].param_type, 6);
}

#[test]
fn param_preset_delete_removes_file() {
    let mut store = Store::new("/catalog".into());
    save_param_preset(&mut store, 0, "to-delete", &sample_preset_params(), T0).unwrap();
    assert_eq!(store.list_presets(0).len(), 1);
    delete_param_preset(&mut store, 0, "to-delete").unwrap();
    assert_eq!(store.list_presets(0).len(), 0);
    let e = delete_param_preset(&mut store, 0, "to-delete").unwrap_err();
    assert_eq!((e.status, e.code.as_str()), (404, "PRESET_NOT_FOUND"));
    assert_eq!(e.message, "param preset 'to-delete' not found for vehicle 0");
}

#[test]
fn param_preset_load_nonexistent_returns_404() {
    let store = Store::new("/catalog".into());
    let e = load_param_preset(&store, 0, "never-saved").unwrap_err();
    assert_eq!(e.status, 404);
    assert_eq!(e.code, "PRESET_NOT_FOUND");
}

#[test]
fn param_preset_invalid_name_returns_422() {
    let mut store = Store::new("/catalog".into());
    let e = save_param_preset(&mut store, 0, "../escape", &sample_preset_params(), T0).unwrap_err();
    assert_eq!(e.status, 422);
    assert_eq!(e.code, "INVALID_NAME");
    assert_eq!(store.list_presets(0).len(), 0);
}

#[test]
fn param_presets_isolated_per_vehicle() {
    let mut store = Store::new("/catalog".into());
    save_param_preset(&mut store, 0, "v0-preset", &sample_preset_params(), T0).unwrap();
    save_param_preset(&mut store, 1, "v1-preset", &sample_preset_params(), T0).unwrap();
    assert_eq!(store.list_presets(0).len(), 1);
    assert_eq!(store.list_presets(1).len(), 1);
    assert_eq!(store.list_presets(0)[0].name, "v0-preset");
    assert_eq!(store.list_presets(1)[0].name, "v1-preset");
    assert_eq!(store.list_presets(2).len(), 0);
}

#[test]
fn the_catalog_has_an_address() {
    assert_eq!(default_catalog_url(None), "http://127.0.0.1:8300");
    assert_eq!(default_catalog_url(Some("http://c")), "http://c");
}

#[test]
fn paths_are_joined_as_paths() {
    let bare = Store::new("");
    assert_eq!(bare.missions_dir(), "missions");
    assert_eq!(bare.version_path("A", 2), "missions/A/v2.toml");
    let slashed = Store::new("/catalog/");
    assert_eq!(slashed.missions_dir(), "/catalog/missions");
    assert_eq!(slashed.presets_dir(1), "/catalog/presets/vehicle_1");
    assert_eq!(slashed.ulogs_dir(), "/catalog/ulogs");
}

#[test]
fn a_deleted_mission_is_listed_once_and_stays_readable() {
    let mut store = Store::new("/catalog");
    let a = store.create(&sample_mission("a"), &new_id(1), T0);
    let b = store.create(&sample_mission("b"), &new_id(2), T1);
    let id = a.mission.id.clone();
    store.update(&id, &sample_mission("a2"), T2).unwrap();
    let versions: Vec<_> = (0..4).map(|n| format!("{:?}", store.get_version(&id, n))).collect();
    let others: Vec<_> = store.list().into_iter().filter(|s| s.id != id).collect();
    assert_eq!(store.delete(&id), Ok(()));
    assert!(store.list().iter().all(|s| s.id != id));
    let all = store.list_all();
    let entries: Vec<_> = all.iter().filter(|s| s.id == id).collect();
    assert_eq!(entries.len(), 1);
    assert!(entries[0].deleted);
    let after: Vec<_> = (0..4).map(|n| format!("{:?}", store.get_version(&id, n))).collect();
    assert_eq!(versions, after);
    let refused = store.update(&id, &sample_mission("a3"), T2).unwrap_err();
    assert_eq!(refused, StoreError::NotFound(id));
    assert_eq!(store.list(), others);
    assert_eq!(format!("{:?}", store.get(&b.mission.id).unwrap()), format!("{b:?}"));
    assert_eq!(store.delete("none"), Err(StoreError::NotFound("none".into())));
}

#[test]
fn what_an_id_leads_to_need_not_be_listed() {
    let mut home = Store::new("/catalog");
    let m = home.create(&sample_mission("a"), "A", T0);
    let note = MetaFile {
        name: m.mission.name.clone(),
        created_at: T0.into(),
        updated_at: T0.into(),
        current_version: 1,
        deleted: false,
    };
    let entry = |id: &str, listed: bool| StoredMission {
        id: id.into(),
        listed,
        meta: MetaState::Read(note.clone()),
        tombstoned: false,
        versions: vec![StoredVersion { number: 1, content: VersionState::Parsed(m.clone()) }],
    };
    let empty = StoredMission {
        id: "".into(),
        listed: false,
        meta: MetaState::Missing,
        tombstoned: false,
        versions: vec![],
    };
    let missions = vec![entry("A", true), entry("../missions/A", false), empty];
    let mut store = Store::load("/catalog", missions, vec![]);
    assert_eq!(store.get("../missions/A").unwrap().mission.name, "a");
    assert_eq!(store.list().len(), 1);
    assert_eq!(store.get("").unwrap_err(), StoreError::NotFound("".into()));
    assert_eq!(store.delete(""), Ok(()));
    let updated = store.update("../missions/A", &sample_mission("b"), T1).unwrap();
    assert_eq!((updated.mission.id.as_str(), updated.mission.version), ("../missions/A", 2));
    assert_eq!(store.delete("../missions/A"), Ok(()));
    assert_eq!(store.list_all().len(), 1);
    assert_eq!(store.list_all()[0].id, "A");
}
