use pyelevate::models::{compare_versions, VersionStatus};

#[test]
fn equal_versions_are_up_to_date() {
    assert_eq!(compare_versions("2.28.1", "2.28.1"), VersionStatus::UpToDate);
}

#[test]
fn older_latest_is_up_to_date() {
    assert_eq!(compare_versions("2.28.1", "2.28.0"), VersionStatus::UpToDate);
    assert_eq!(compare_versions("2.0.0", "1.9.9"), VersionStatus::UpToDate);
}

#[test]
fn patch_delta() {
    assert_eq!(compare_versions("1.0.0", "1.0.1"), VersionStatus::Patch);
}

#[test]
fn minor_delta() {
    assert_eq!(compare_versions("1.0.5", "1.1.0"), VersionStatus::Minor);
}

#[test]
fn major_delta() {
    assert_eq!(compare_versions("1.9.9", "2.0.0"), VersionStatus::Major);
}

#[test]
fn prerelease_to_release_is_patch() {
    // Same numeric triple: the release ranks above its own pre-release.
    assert_eq!(compare_versions("1.2.3-alpha", "1.2.3"), VersionStatus::Patch);
    // And the other way around is already up to date.
    assert_eq!(compare_versions("1.2.3", "1.2.3-alpha"), VersionStatus::UpToDate);
}

#[test]
fn unparseable_versions_fall_back_to_string_order() {
    assert_eq!(compare_versions("abc", "abd"), VersionStatus::Unknown);
    assert_eq!(compare_versions("abd", "abc"), VersionStatus::UpToDate);
    assert_eq!(compare_versions("git-source", "1.0.0"), VersionStatus::UpToDate);
    assert_eq!(compare_versions("1.0", "1.0.1"), VersionStatus::Unknown);
}
