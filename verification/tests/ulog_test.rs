use mavfleet::listing::FileEntry;
use mavfleet::replay::list_ulog_files;
use mavfleet::ulog::{
    list_topics, list_ulogs, lookup_failure, max_points, read_topic_data, resolve_ulog_path,
    ulog_failure, validate_topic_name, HelperOutput, LogPlace, ULogError,
};

fn entry(name: &str, is_file: bool) -> FileEntry {
    FileEntry { name: Some(name.to_string()), is_file, size_bytes: 0, mtime: 0 }
}

fn printed(text: &str) -> HelperOutput {
    HelperOutput { success: true, stdout: text.to_string(), stderr: String::new() }
}

fn broke(text: &str) -> HelperOutput {
    HelperOutput { success: false, stdout: String::new(), stderr: text.to_string() }
}

#[test]
fn ulog_ulog_list_returns_files() {
    let list = list_ulogs(&vec![
        entry("alpha.ulg", true),
        entry("beta.ulg", true),
        entry("not_a_ulog.txt", true),
        entry("subdir.ulg", false),
    ]);
    let names: Vec<&str> = list.iter().map(|s| s.filename.as_str()).collect();
    assert!(names.contains(&"alpha.ulg"));
    assert!(names.contains(&"beta.ulg"));
    assert_eq!(list.len(), 2, "list must skip non-.ulg files and directories");
    assert_eq!(list[0].size_bytes, 0);
}

#[test]
fn server_ulog_list_returns_files() {
    let list = list_ulog_files(&vec![
        entry("beta.ulg", true),
        entry("alpha.ulg", true),
        entry("not_a_ulog.txt", true),
        entry("subdir.ulg", false),
    ]);
    assert_eq!(list.len(), 2, "list must skip non-.ulg files + sub-directories");
    let names: Vec<String> = list.iter().map(|s| s.filename.clone()).collect();
    assert!(names.contains(&"alpha.ulg".to_string()));
    assert!(names.contains(&"beta.ulg".to_string()));
    for s in &list {
        assert_eq!(s.size_bytes, 0u64);
    }
}

#[test]
fn ulog_list_empty_dir_returns_empty() {
    assert!(list_ulogs(&Vec::new()).is_empty());
}

#[test]
fn ulog_list_nonexistent_dir_returns_empty() {
    let entries: Vec<FileEntry> = Vec::new();
    assert!(list_ulogs(&entries).is_empty());
    assert!(list_ulog_files(&entries).is_empty());
}

fn placed(path: &str) -> LogPlace {
    LogPlace::Resolved { path: path.to_string(), dir: "/logs".to_string() }
}

#[test]
fn resolve_ulog_path_rejects_traversal() {
    let err = resolve_ulog_path("../escape.ulg", &placed("/escape.ulg")).unwrap_err();
    assert!(matches!(err, ULogError::NotFound(_)));
    let err = resolve_ulog_path("..", &placed("/")).unwrap_err();
    assert!(matches!(err, ULogError::NotFound(_)));
    let err = resolve_ulog_path("", &placed("/logs")).unwrap_err();
    assert!(matches!(err, ULogError::NotFound(_)));
    let (p, name) = resolve_ulog_path("ok.ulg", &placed("/logs/ok.ulg")).unwrap();
    assert_eq!(p, "/logs/ok.ulg");
    assert_eq!(name, "ok.ulg");
    let (p, _name) = resolve_ulog_path("ok", &placed("/logs/ok.ulg")).unwrap();
    assert_eq!(p, "/logs/ok.ulg");
}

#[test]
fn links_out_of_the_directory_are_not_followed() {
    let err = resolve_ulog_path("ok.ulg", &placed("/logs-of-others/ok.ulg")).unwrap_err();
    assert!(matches!(err, ULogError::NotFound(_)));
    let err = resolve_ulog_path("ok.ulg", &LogPlace::Missing).unwrap_err();
    assert_eq!(lookup_failure(&err), (404, "ULOG_NOT_FOUND"));
    let err = resolve_ulog_path("ok.ulg", &LogPlace::NoDirectory("denied".into())).unwrap_err();
    assert_eq!(lookup_failure(&err), (500, "ULOG_ERROR"));
}

#[test]
fn ulog_topics_missing_file_returns_404() {
    let err = resolve_ulog_path("nonexistent.ulg", &LogPlace::Missing).unwrap_err();
    assert_eq!(lookup_failure(&err), (404, "ULOG_NOT_FOUND"));
}

#[test]
fn ulogs_list_returns_empty_when_no_files() {
    assert_eq!(list_ulog_files(&Vec::new()).len(), 0);
}

#[test]
fn validate_topic_name_accepts_known_px4_topics() {
    validate_topic_name("vehicle_local_position").unwrap();
    validate_topic_name("sensor_combined").unwrap();
    validate_topic_name("actuator_armed").unwrap();
    validate_topic_name("sensor_combined.gyro_rad").unwrap();
    validate_topic_name("vehicle_local_position.x").unwrap();
}

#[test]
fn validate_topic_name_rejects_path_traversal() {
    assert!(validate_topic_name("../escape").is_err());
    assert!(validate_topic_name("has space").is_err());
    assert!(validate_topic_name("has;rm -rf").is_err());
    assert!(validate_topic_name("").is_err());
    let long = "a".repeat(200);
    assert!(validate_topic_name(&long).is_err());
}

#[test]
fn ulog_topics_returns_error_on_missing_file() {
    let err = list_topics(&broke("FileNotFoundError: never_existed.ulg")).unwrap_err();
    match err {
        ULogError::Pyulog(_) => {}
        other => panic!("expected Pyulog error for missing file, got {other:?}"),
    }
}

#[test]
fn read_topic_data_rejects_invalid_topic_name() {
    let out = printed("{}");
    let err = read_topic_data("../escape", None, None, &out).unwrap_err();
    assert!(matches!(err, ULogError::NotFound(_)));
    let err = read_topic_data("has;rm -rf", None, None, &out).unwrap_err();
    assert!(matches!(err, ULogError::NotFound(_)));
    let err = read_topic_data("", None, None, &out).unwrap_err();
    assert!(matches!(err, ULogError::NotFound(_)));
}

#[test]
fn topics_are_the_strings_of_the_list() {
    let topics = list_topics(&printed("[\"vehicle_attitude\", 3, \"sensor_combined\"]\n")).unwrap();
    assert_eq!(topics, vec!["vehicle_attitude", "sensor_combined"]);
    assert!(matches!(list_topics(&printed("{\"a\": 1}")).unwrap_err(), ULogError::Pyulog(_)));
    assert!(matches!(list_topics(&printed("[")).unwrap_err(), ULogError::Json(_)));
}

#[test]
fn topic_data_is_taken_from_the_reply() {
    let out = printed(
        "{\"t\": [0.5, 1.5], \"fields\": {\"y\": [1, 2], \"x\": [3.25, 4]}, \"total_points\": 9, \"stride\": 4}",
    );
    let d = read_topic_data("vehicle_attitude", None, Some(2.0f64.to_bits()), &out).unwrap();
    assert_eq!(d.topic, "vehicle_attitude");
    assert_eq!(d.t, vec![0.5f64.to_bits(), 1.5f64.to_bits()]);
    assert_eq!(d.total_points, 9);
    assert_eq!(d.stride, 4);
    assert_eq!(d.to_s, Some(2.0f64.to_bits()));
    assert_eq!(d.fields.len(), 2);
    assert_eq!(d.fields[0].0, "x");
    assert_eq!(d.fields[0].1, vec!["3.25", "4"]);
    assert_eq!(d.fields[1].0, "y");
}

#[test]
fn a_missing_reader_is_told_apart() {
    let e = list_topics(&broke("ModuleNotFoundError: No module named 'pyulog'")).unwrap_err();
    assert_eq!(ulog_failure(&e), (503, "ULOG_PARSER_UNAVAILABLE"));
    let e = list_topics(&broke("bad magic")).unwrap_err();
    assert_eq!(ulog_failure(&e), (422, "ULOG_PARSE_ERROR"));
    assert_eq!(e.text(), ULogError::Pyulog("bad magic".into()).text());
}

#[test]
fn the_point_limit_can_be_set() {
    assert_eq!(max_points(None), 10_000);
    assert_eq!(max_points(Some("250")), 250);
    assert_eq!(max_points(Some("many")), 10_000);
}
