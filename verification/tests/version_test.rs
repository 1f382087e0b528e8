use mavfleet::version_check::{
    allow_unpinned, check_reported, check_vehicle_version, parse_version, version_matches,
    VersionCheckResult, REQUIRED_PX4_VERSION,
};

#[test]
fn parse_exact_version() {
    assert_eq!(parse_version("v1.16.2"), Some((1, 16, 2)));
    assert_eq!(parse_version("1.16.2"), Some((1, 16, 2)));
}

#[test]
fn reject_suffixed_versions() {
    assert_eq!(parse_version("v1.16.2-rc1"), None);
    assert_eq!(parse_version("v1.16.2+dirty"), None);
    assert_eq!(parse_version("v1.16.2-beta"), None);
}

#[test]
fn reject_wrong_versions() {
    assert_eq!(parse_version("v1.18.0"), Some((1, 18, 0)));
    assert!(!version_matches("v1.18.0"));
    assert!(!version_matches("v1.16.1"));
    assert!(!version_matches("v2.0.0"));
}

#[test]
fn accept_correct_version() {
    assert!(version_matches("v1.16.2"));
    assert!(version_matches("1.16.2"));
}

#[test]
fn check_result_blocking_logic() {
    let ok = VersionCheckResult::Match {
        reported_version: "v1.16.2".into(),
        required_version: REQUIRED_PX4_VERSION.into(),
    };
    assert!(!ok.is_blocking());
    assert_eq!(ok.http_status(), 200);

    let mismatch_hard = VersionCheckResult::Mismatch {
        reported_version: "v1.18.0".into(),
        required_version: REQUIRED_PX4_VERSION.into(),
        warning_only: false,
    };
    assert!(mismatch_hard.is_blocking());
    assert_eq!(mismatch_hard.http_status(), 426);

    let mismatch_warn = VersionCheckResult::Mismatch {
        reported_version: "v1.18.0".into(),
        required_version: REQUIRED_PX4_VERSION.into(),
        warning_only: true,
    };
    assert!(!mismatch_warn.is_blocking());
    assert_eq!(mismatch_warn.http_status(), 200);

    let unavail = VersionCheckResult::Unavailable { timeout_s: 2 };
    assert!(unavail.is_blocking());
    assert_eq!(unavail.http_status(), 503);
}

#[test]
fn the_vehicle_description_tells_the_version() {
    let r = check_vehicle_version(Some(b"{\"data\": {\"px4_version\": \"v1.16.2\"}}"), false);
    assert!(!r.is_blocking());
    let r = check_vehicle_version(Some(b"{\"px4_version\": \"v1.15.0\"}"), false);
    assert_eq!(r.http_status(), 426);
    let r = check_vehicle_version(Some(b"{\"px4_version\": \"v1.15.0\"}"), true);
    assert_eq!(r.http_status(), 200);
    assert_eq!(check_vehicle_version(Some(b"{}"), true).http_status(), 503);
    assert_eq!(check_vehicle_version(Some(b"{"), true).http_status(), 503);
    assert_eq!(check_vehicle_version(None, true).http_status(), 503);
    let garbled = b"{\"px4_version\": \"v1.16.2\", \"name\": \"\xff\"}";
    assert_eq!(check_vehicle_version(Some(garbled), true).http_status(), 503);
    assert_eq!(check_reported("", true).http_status(), 503);
}

#[test]
fn unpinned_versions_are_allowed_on_demand() {
    assert!(!allow_unpinned(None));
    assert!(allow_unpinned(Some("1")));
    assert!(!allow_unpinned(Some("0")));
}

#[test]
fn written_versions_are_read_back() {
    for (a, b, c) in [(0, 0, 0), (1, 16, 2), (10, 20, 30), (u32::MAX, 7, u32::MAX)] {
        assert_eq!(parse_version(&format!("{a}.{b}.{c}")), Some((a, b, c)));
        assert_eq!(parse_version(&format!("v{a}.{b}.{c}")), Some((a, b, c)));
        for suffix in ["-", "+", ".", "-rc1", "+1", ".4", ". ", "-a.b"] {
            assert_eq!(parse_version(&format!("{a}.{b}.{c}{suffix}")), None);
            assert_eq!(parse_version(&format!("v{a}.{b}.{c}{suffix}")), None);
        }
    }
    assert_eq!(parse_version("4294967296.0.0"), None);
}
