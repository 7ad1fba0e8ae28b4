use canvas_fuzzy_finder::config::{detect_platform, parse_course_config, ConfigError, Platform};
use canvas_fuzzy_finder::numeral::parse_u32;

#[test]
fn matched_lists_build_the_courses_in_order() {
    let r = parse_course_config("101, 202", "Algorithms, Databases").unwrap();
    assert_eq!(r.len(), 2);
    assert_eq!(r[0].id, 101);
    assert_eq!(r[0].name, "Algorithms");
    assert_eq!(r[1].id, 202);
    assert_eq!(r[1].name, "Databases");
}

#[test]
fn mismatched_list_lengths_fail_construction() {
    let r = parse_course_config("101, 202", "Algorithms");
    assert_eq!(r.unwrap_err(), ConfigError::MismatchedCourseLists);
    let r = parse_course_config("101", "Algorithms, Databases");
    assert_eq!(r.unwrap_err(), ConfigError::MismatchedCourseLists);
}

#[test]
fn malformed_identifier_fails_construction() {
    let r = parse_course_config("101, 2x2", "A, B");
    assert_eq!(r.unwrap_err(), ConfigError::InvalidCourseId);
}

#[test]
fn oversized_identifier_fails_construction() {
    let r = parse_course_config("4294967296", "A");
    assert_eq!(r.unwrap_err(), ConfigError::InvalidCourseId);
}

#[test]
fn single_course_configuration_is_accepted() {
    let r = parse_course_config("7", "Only").unwrap();
    assert_eq!(r.len(), 1);
    assert_eq!(r[0].id, 7);
    assert_eq!(r[0].name, "Only");
}

#[test]
fn parse_u32_reads_decimal_numerals() {
    assert_eq!(parse_u32("0"), Some(0));
    assert_eq!(parse_u32("101"), Some(101));
    assert_eq!(parse_u32("0042"), Some(42));
    assert_eq!(parse_u32("4294967295"), Some(u32::MAX));
}

#[test]
fn parse_u32_rejects_what_is_no_numeral() {
    assert_eq!(parse_u32(""), None);
    assert_eq!(parse_u32("12a"), None);
    assert_eq!(parse_u32("-1"), None);
    assert_eq!(parse_u32(" 1"), None);
    assert_eq!(parse_u32("4294967296"), None);
}

#[test]
fn supported_platforms_are_detected() {
    assert_eq!(detect_platform("windows"), Ok(Platform::Windows));
    assert_eq!(detect_platform("macos"), Ok(Platform::MacOs));
    assert_eq!(detect_platform("linux"), Ok(Platform::Linux));
}

#[test]
fn unsupported_platform_fails_detection() {
    assert_eq!(detect_platform("freebsd"), Err(ConfigError::UnsupportedPlatform));
    assert_eq!(detect_platform(""), Err(ConfigError::UnsupportedPlatform));
}
