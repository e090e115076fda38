use cosmos::update::{is_newer_version, update_for, UpdateInfo, CURRENT_VERSION};

#[test]
fn test_version_comparison_basic() {
    assert!(is_newer_version("0.4.0", "0.3.0"));
    assert!(is_newer_version("1.0.0", "0.9.9"));
    assert!(is_newer_version("0.3.1", "0.3.0"));
    assert!(is_newer_version("0.3.10", "0.3.9"));
    assert!(is_newer_version("2.0.0", "1.99.99"));

    assert!(!is_newer_version("0.3.0", "0.3.0"));
    assert!(!is_newer_version("1.0.0", "1.0.0"));

    assert!(!is_newer_version("0.2.0", "0.3.0"));
    assert!(!is_newer_version("0.2.9", "0.3.0"));
    assert!(!is_newer_version("0.3.0", "0.3.1"));
}

#[test]
fn test_version_comparison_with_v_prefix() {
    assert!(is_newer_version("v0.4.0", "0.3.0"));
    assert!(is_newer_version("0.4.0", "v0.3.0"));
    assert!(is_newer_version("v0.4.0", "v0.3.0"));
    assert!(!is_newer_version("v0.3.0", "v0.3.0"));
}

#[test]
fn test_version_comparison_prerelease() {
    assert!(is_newer_version("0.4.0", "0.3.0-beta"));
    assert!(is_newer_version("0.4.0-alpha", "0.3.0"));
    assert!(!is_newer_version("0.3.0-beta", "0.3.0"));
}

#[test]
fn test_version_comparison_invalid() {
    assert!(!is_newer_version("invalid", "0.3.0"));
    assert!(!is_newer_version("0.3.0", "invalid"));
    assert!(!is_newer_version("", "0.3.0"));
    assert!(!is_newer_version("0.3.0", ""));
    assert!(!is_newer_version("1.0", "0.3.0"));
    assert!(!is_newer_version("0.3.0", "1.0"));
}

#[test]
fn test_current_version_is_valid() {
    let parts: Vec<&str> = CURRENT_VERSION.split('.').collect();
    assert_eq!(parts.len(), 3, "CURRENT_VERSION should have 3 parts");
    assert!(
        parts[0].parse::<u32>().is_ok(),
        "Major version should be numeric"
    );
    assert!(
        parts[1].parse::<u32>().is_ok(),
        "Minor version should be numeric"
    );
    let patch = parts[2].split('-').next().unwrap();
    assert!(
        patch.parse::<u32>().is_ok(),
        "Patch version should be numeric"
    );
}

#[test]
fn test_update_info_creation() {
    let info = UpdateInfo {
        latest_version: "0.4.0".to_string(),
    };
    assert_eq!(info.latest_version, "0.4.0");
}

#[test]
fn test_version_comparison_major_bump() {
    assert!(is_newer_version("1.0.0", "0.99.99"));
    assert!(is_newer_version("2.0.0", "1.99.99"));
    assert!(is_newer_version("10.0.0", "9.99.99"));
}

#[test]
fn test_version_comparison_minor_bump() {
    assert!(is_newer_version("0.4.0", "0.3.99"));
    assert!(is_newer_version("1.2.0", "1.1.99"));
}

#[test]
fn test_version_comparison_patch_bump() {
    assert!(is_newer_version("0.3.5", "0.3.4"));
    assert!(is_newer_version("0.3.100", "0.3.99"));
}

#[test]
fn version_components_accept_a_plus_sign_and_reject_overflow() {
    assert!(is_newer_version("+1.0.0", "0.9.9"));
    assert!(!is_newer_version("4294967296.0.0", "0.0.1"));
    assert!(is_newer_version("4294967295.0.0", "0.0.1"));
    assert!(is_newer_version("1.2.3.4", "1.2.2"));
}

#[test]
fn update_offered_only_for_a_newer_release() {
    assert!(update_for("99.0.0".to_string()).is_some());
    assert!(update_for(CURRENT_VERSION.to_string()).is_none());
    assert!(update_for("not a version".to_string()).is_none());
}
