use rclean::constants::{get_default_patterns, PATTERNS, SETTINGS_FILENAME};

#[test]
fn test_default_patterns_not_empty() {
    let defaults = get_default_patterns();
    assert!(!defaults.is_empty());
}

#[test]
fn test_default_patterns_no_duplicates() {
    let defaults = get_default_patterns();
    let mut seen = std::collections::HashSet::new();
    for pattern in &defaults {
        assert!(
            seen.insert(pattern),
            "Duplicate pattern in defaults: {}",
            pattern
        );
    }
}

#[test]
fn default_patterns_follow_the_table() {
    let defaults = get_default_patterns();
    assert_eq!(defaults.len(), PATTERNS.len());
    assert_eq!(defaults[0], "**/__pycache__");
    assert_eq!(defaults[9], "**/pip-log.txt");
    assert_eq!(SETTINGS_FILENAME, ".rclean.toml");
}
