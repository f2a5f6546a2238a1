use rclean::parse_duration;

#[test]
fn test_parse_duration_seconds() {
    assert_eq!(parse_duration("30s").unwrap(), 30);
    assert_eq!(parse_duration("1s").unwrap(), 1);
    assert_eq!(parse_duration("0s").unwrap(), 0);
}

#[test]
fn test_parse_duration_minutes() {
    assert_eq!(parse_duration("5m").unwrap(), 300);
    assert_eq!(parse_duration("1m").unwrap(), 60);
}

#[test]
fn test_parse_duration_hours() {
    assert_eq!(parse_duration("24h").unwrap(), 86400);
    assert_eq!(parse_duration("1h").unwrap(), 3600);
}

#[test]
fn test_parse_duration_days() {
    assert_eq!(parse_duration("30d").unwrap(), 2592000);
    assert_eq!(parse_duration("7d").unwrap(), 604800);
    assert_eq!(parse_duration("1d").unwrap(), 86400);
}

#[test]
fn test_parse_duration_weeks() {
    assert_eq!(parse_duration("2w").unwrap(), 1209600);
    assert_eq!(parse_duration("1w").unwrap(), 604800);
}

#[test]
fn test_parse_duration_empty_string() {
    assert!(parse_duration("").is_err());
    assert!(parse_duration("  ").is_err());
}

#[test]
fn test_parse_duration_no_unit() {
    // Single character like "5" with no unit
    assert!(parse_duration("5").is_err());
}

#[test]
fn test_parse_duration_invalid_unit() {
    assert!(parse_duration("30x").is_err());
    assert!(parse_duration("10y").is_err());
}

#[test]
fn test_parse_duration_invalid_number() {
    assert!(parse_duration("abcd").is_err());
    assert!(parse_duration("12.5d").is_err());
}

#[test]
fn test_parse_duration_whitespace_trimmed() {
    assert_eq!(parse_duration("  30d  ").unwrap(), 2592000);
}

#[test]
fn parse_duration_accepts_plus_sign_and_rejects_minus() {
    assert_eq!(parse_duration("+2h").unwrap(), 7200);
    assert!(parse_duration("-2h").is_err());
    assert!(parse_duration("+h").is_err());
}

#[test]
fn parse_duration_overflow_is_an_error() {
    assert_eq!(parse_duration("18446744073709551615s").unwrap(), u64::MAX);
    assert!(parse_duration("18446744073709551616s").is_err());
    assert!(parse_duration("30500568904943664w").is_err());
}

#[test]
fn parse_duration_errors_are_configuration_errors() {
    assert!(matches!(
        parse_duration("9q"),
        Err(rclean::CleanError::ConfigError(_))
    ));
    assert!(matches!(
        parse_duration("\t\n"),
        Err(rclean::CleanError::ConfigError(_))
    ));
}

#[test]
fn parse_duration_non_ascii_unit_is_rejected() {
    assert!(parse_duration("5\u{e9}").is_err());
    assert_eq!(parse_duration("\u{3000}7d\u{a0}").unwrap(), 604800);
}
