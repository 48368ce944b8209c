use arch_postinstall::update::{check_for_update, is_newer};

#[test]
fn semver_comparison() {
    assert!(is_newer("0.8.0", "0.7.0"));
    assert!(is_newer("1.0.0", "0.9.9"));
    assert!(is_newer("0.7.1", "0.7.0"));
    assert!(!is_newer("0.7.0", "0.7.0"));
    assert!(!is_newer("0.6.0", "0.7.0"));
    assert!(is_newer("v0.8.0", "v0.7.0"));
    assert!(is_newer("v0.8.0", "0.7.0"));
    assert!(is_newer("0.8", "0.7.9"));
    assert!(!is_newer("0.7.9", "0.8"));
}

#[test]
fn update_notice_strips_prefix() {
    assert_eq!(check_for_update(Some("v0.9.0"), "0.8.0").as_deref(), Some("0.9.0"));
    assert_eq!(check_for_update(Some("v0.8.0"), "0.8.0"), None);
    assert_eq!(check_for_update(None, "0.8.0"), None);
}

#[test]
fn missing_parts_count_as_zero() {
    assert!(!is_newer("0.8", "0.8.0"));
    assert!(!is_newer("0.8.0", "0.8"));
    assert!(is_newer("0.8.1", "0.8"));
    assert!(!is_newer("0.8", "0.8.1"));
}
