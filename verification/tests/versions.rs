use charon::updater::compare_versions;
use charon::updater::parse_i32;
use charon::updater::source_manifest_path;

#[test]
fn test_compare_versions() {
    // newer versions are recognized in either shape
    assert_eq!(compare_versions("0.0.1", "0.0.2"), Some(true));
    assert_eq!(compare_versions("0.0.1", "0.0.1.1"), Some(true));
    assert_eq!(compare_versions("0.0.1.1", "0.0.2"), Some(true));
    // same or older versions are not updates
    assert_eq!(compare_versions("0.0.1", "0.0.1"), Some(false));
    assert_eq!(compare_versions("0.0.2", "0.0.1"), Some(false));
    assert_eq!(compare_versions("0.0.1.1", "0.0.1"), Some(false));
    assert_eq!(compare_versions("0.0.2", "0.0.1.1"), Some(false));
}

#[test]
fn compare_versions_non_numeric_is_undecided() {
    assert_eq!(compare_versions("0.0.x", "0.0.2"), None);
    assert_eq!(compare_versions("0.0.1", "beta"), None);
    assert_eq!(compare_versions("", "1"), None);
}

#[test]
fn compare_versions_numeric_not_lexicographic() {
    assert_eq!(compare_versions("0.9", "0.10"), Some(true));
    assert_eq!(compare_versions("2", "10"), Some(true));
}

#[test]
fn parse_i32_accepts_signs_and_rejects_junk() {
    assert_eq!(parse_i32("42"), Some(42));
    assert_eq!(parse_i32("+7"), Some(7));
    assert_eq!(parse_i32("-13"), Some(-13));
    assert_eq!(parse_i32("007"), Some(7));
    assert_eq!(parse_i32(""), None);
    assert_eq!(parse_i32("-"), None);
    assert_eq!(parse_i32("1.5"), None);
    assert_eq!(parse_i32(" 3"), None);
}

#[test]
fn parse_i32_range_limits() {
    assert_eq!(parse_i32("2147483647"), Some(i32::MAX));
    assert_eq!(parse_i32("2147483648"), None);
    assert_eq!(parse_i32("-2147483648"), Some(i32::MIN));
    assert_eq!(parse_i32("-2147483649"), None);
    assert_eq!(parse_i32("99999999999999999999"), None);
}

#[test]
fn source_manifest_path_is_joined() {
    assert_eq!(
        source_manifest_path("/opt/pkgs/alpha", "alpha"),
        "/opt/pkgs/alpha/alpha.charon"
    );
}
