use version_it::version::{VersionInfo, VersionType};

#[test]
fn test_bump_major() {
    let mut v = VersionInfo::new("1.2.3", "semantic", None).unwrap();
    v.bump_major();
    assert_eq!(v.to_string(), "2.0.0");
}

#[test]
fn test_bump_minor() {
    let mut v = VersionInfo::new("1.2.3", "semantic", None).unwrap();
    v.bump_minor();
    assert_eq!(v.to_string(), "1.3.0");
}

#[test]
fn test_bump_patch() {
    let mut v = VersionInfo::new("1.2.3", "semantic", None).unwrap();
    v.bump_patch();
    assert_eq!(v.to_string(), "1.2.4");
}

#[test]
fn test_calver_bump_minor() {
    let mut v = VersionInfo::new("25.10.01", "calver", None).unwrap();
    v.bump_minor();
    assert_eq!(v.to_string(), "25.11.01");
}

#[test]
fn test_calver_bump_major() {
    let mut v = VersionInfo::new("25.10.01", "calver", None).unwrap();
    v.bump_major();
    assert_eq!(v.to_string(), "26.01.01");
}

#[test]
fn test_timestamp_new() {
    let v = VersionInfo::new("", "timestamp", None).unwrap();
    assert!(v.to_string().len() == 14); // YYYYMMDDHHMMSS
}

#[test]
fn test_commit_new() {
    // No commit hash is derivable here, so an empty input may be refused.
    let v = VersionInfo::new("", "commit", None);
    if let Ok(v) = v {
        assert!(v.to_string().len() > 0);
    }
}

#[test]
fn test_versioninfo_new_semantic() {
    let v = VersionInfo::new("1.2.3", "semantic", None).unwrap();
    assert_eq!(v.scheme, "semantic");
    assert_eq!(v.to_string(), "1.2.3");
}

#[test]
fn test_versioninfo_new_calver() {
    let v = VersionInfo::new("25.10.01", "calver", None).unwrap();
    assert_eq!(v.scheme, "calver");
    assert_eq!(v.to_string(), "25.10.01");
}

#[test]
fn test_versioninfo_new_timestamp() {
    let v = VersionInfo::new("20231005120000", "timestamp", None).unwrap();
    assert_eq!(v.scheme, "timestamp");
    assert_eq!(v.to_string(), "20231005120000");
}

#[test]
fn test_versioninfo_new_commit() {
    let v = VersionInfo::new("abc123", "commit", None).unwrap();
    assert_eq!(v.scheme, "commit");
    assert_eq!(v.to_string(), "abc123");
}

#[test]
fn test_versioninfo_new_invalid_semantic() {
    let result = VersionInfo::new("invalid", "semantic", None);
    assert!(result.is_err());
}

#[test]
fn test_versioninfo_new_invalid_calver() {
    let result = VersionInfo::new("25", "calver", None);
    assert!(result.is_err());
}

#[test]
fn test_set_prerelease() {
    let mut v = VersionInfo::new("1.2.3", "semantic", None).unwrap();
    v.set_prerelease("alpha.1");
    assert_eq!(v.to_string(), "1.2.3-alpha.1");
}

#[test]
fn test_set_build() {
    let mut v = VersionInfo::new("1.2.3", "semantic", None).unwrap();
    v.set_build("build.1");
    assert_eq!(v.to_string(), "1.2.3+build.1");
}

#[test]
fn test_set_prerelease_and_build() {
    let mut v = VersionInfo::new("1.2.3", "semantic", None).unwrap();
    v.set_prerelease("beta");
    v.set_build("sha.123");
    assert_eq!(v.to_string(), "1.2.3-beta+sha.123");
}

#[test]
fn test_versioninfo_new_datetime() {
    let v = VersionInfo::new("2024-10-06T14:30:00", "datetime", None).unwrap();
    assert_eq!(v.scheme, "datetime");
    assert_eq!(v.to_string(), "2024-10-06T14:30:00");
}

#[test]
fn test_versioninfo_new_pattern() {
    let v = VersionInfo::new("v1.0.0-snapshot", "pattern", None).unwrap();
    assert_eq!(v.scheme, "pattern");
    assert_eq!(v.to_string(), "v1.0.0-snapshot");
}

#[test]
fn test_build_bump_major() {
    let mut v = VersionInfo::new("1.2.3.4", "build", None).unwrap();
    v.bump_major();
    assert_eq!(v.to_string(), "2.0.0.4");
}

#[test]
fn test_build_bump_minor() {
    let mut v = VersionInfo::new("1.2.3.4", "build", None).unwrap();
    v.bump_minor();
    assert_eq!(v.to_string(), "1.3.0.4");
}

#[test]
fn test_build_bump_patch() {
    let mut v = VersionInfo::new("1.2.3.4", "build", None).unwrap();
    v.bump_patch();
    assert_eq!(v.to_string(), "1.2.4.0");
}

#[test]
fn test_monotonic_bump() {
    let mut v = VersionInfo::new("42", "monotonic", None).unwrap();
    v.bump_major();
    assert_eq!(v.to_string(), "43");
    v.bump_minor();
    assert_eq!(v.to_string(), "44");
    v.bump_patch();
    assert_eq!(v.to_string(), "45");
}

#[test]
fn test_datetime_bump() {
    let mut v = VersionInfo::new("2024-10-06T14:30:00", "datetime", None).unwrap();
    let original = v.to_string();
    v.bump_major();
    assert_ne!(v.to_string(), original); // should update to current time
}

#[test]
fn test_pattern_bump() {
    let mut v = VersionInfo::new("v1.0.0", "pattern", None).unwrap();
    v.bump_major();
    assert_eq!(v.to_string(), "v1.0.0-updated");
}

#[test]
fn test_semantic_bump_minor_scenario() {
    let mut v = VersionInfo::new("1.0.0", "semantic", None).unwrap();
    v.bump_minor();
    assert_eq!(v.to_string(), "1.1.0");
}

#[test]
fn test_semantic_patch_twice() {
    let mut v = VersionInfo::new("2.5.7", "semantic", None).unwrap();
    v.bump_patch();
    v.bump_patch();
    assert_eq!(v.to_string(), "2.5.9");
}

#[test]
fn test_semantic_bump_clears_prerelease() {
    let mut v = VersionInfo::new("1.2.3-rc.1+b42", "semantic", None).unwrap();
    v.bump_patch();
    assert_eq!(v.to_string(), "1.2.4");
}

#[test]
fn test_channel_beta_without_prerelease() {
    let v = VersionInfo::new("1.2.3", "semantic", Some("beta".to_string())).unwrap();
    assert_eq!(v.to_string(), "1.2.3-beta.1");
}

#[test]
fn test_channel_beta_with_prerelease() {
    let mut v = VersionInfo::new("1.2.3", "semantic", Some("beta".to_string())).unwrap();
    v.set_prerelease("rc.2");
    assert_eq!(v.to_string(), "1.2.3-rc.2");
}

#[test]
fn test_channel_stable() {
    let v = VersionInfo::new("1.2.3", "semantic", Some("stable".to_string())).unwrap();
    assert_eq!(v.to_string(), "1.2.3");
}

#[test]
fn test_channel_nightly_semantic() {
    let v = VersionInfo::new("1.2.3", "semantic", Some("nightly".to_string())).unwrap();
    assert_eq!(v.to_string(), "1.2.3-nightly");
}

#[test]
fn test_channel_nightly_timestamp_suppressed() {
    let v = VersionInfo::new("20231005120000", "timestamp", Some("nightly".to_string())).unwrap();
    assert_eq!(v.to_string(), "20231005120000");
}

#[test]
fn test_channel_custom() {
    let v = VersionInfo::new("1.2.3", "semantic", Some("canary".to_string())).unwrap();
    assert_eq!(v.to_string(), "1.2.3-canary");
}

#[test]
fn test_channel_beta_non_semantic() {
    let v = VersionInfo::new("42", "monotonic", Some("beta".to_string())).unwrap();
    assert_eq!(v.to_string(), "42-beta");
}

#[test]
fn test_calver_day_defaults_to_one() {
    let v = VersionInfo::new("25.10", "calver", None).unwrap();
    assert_eq!(v.to_string(), "25.10.01");
}

#[test]
fn test_calver_no_month_overflow_correction() {
    let mut v = VersionInfo::new("25.12.01", "calver", None).unwrap();
    v.bump_minor();
    assert_eq!(v.to_string(), "25.13.01");
}

#[test]
fn test_build_wrong_arity_rejected() {
    assert!(VersionInfo::new("1.2.3", "build", None).is_err());
    assert!(VersionInfo::new("1.2.3.4.5", "build", None).is_err());
}

#[test]
fn test_monotonic_rejects_non_numeric() {
    assert!(VersionInfo::new("x42", "monotonic", None).is_err());
}

#[test]
fn test_calver_rejects_non_numeric() {
    assert!(VersionInfo::new("25.ten.01", "calver", None).is_err());
}

#[test]
fn test_parse_error_messages_nonempty() {
    let e = VersionInfo::new("bad", "semantic", None).unwrap_err();
    assert!(e.message().len() > 0);
    let e = VersionInfo::new("25", "calver", None).unwrap_err();
    assert!(e.message().len() > 0);
    let e = VersionInfo::new("1.2", "build", None).unwrap_err();
    assert!(e.message().len() > 0);
    let e = VersionInfo::new("abc", "monotonic", None).unwrap_err();
    assert!(e.message().len() > 0);
}

#[test]
fn test_set_prerelease_invalid_clears() {
    let mut v = VersionInfo::new("1.2.3-rc.1", "semantic", None).unwrap();
    v.set_prerelease("not valid!");
    assert_eq!(v.to_string(), "1.2.3");
}

#[test]
fn test_set_build_invalid_clears() {
    let mut v = VersionInfo::new("1.2.3+old", "semantic", None).unwrap();
    v.set_build("not valid!");
    assert_eq!(v.to_string(), "1.2.3");
}

#[test]
fn test_set_prerelease_ignored_for_other_schemes() {
    let mut v = VersionInfo::new("42", "monotonic", None).unwrap();
    v.set_prerelease("alpha");
    assert_eq!(v.to_string(), "42");
}

#[test]
fn test_datetime_new_empty_uses_clock() {
    let v = VersionInfo::new("", "datetime", None).unwrap();
    let s = v.to_string();
    assert_eq!(s.len(), 19);
    assert!(s.contains('T'));
}

#[test]
fn test_version_type_variant_preserved() {
    let mut v = VersionInfo::new("1.2.3.4", "build", None).unwrap();
    v.bump_major();
    assert!(matches!(v.version, VersionType::Build { .. }));
}
