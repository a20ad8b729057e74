use pyelevate::models::{Changelog, DependencySource, RiskLevel, Severity, VersionConstraint,
    VersionStatus};
use pyelevate::styles::{format_version_cell, pad_right, status_symbol, truncate_string};

#[test]
fn symbols_per_status() {
    assert_eq!(status_symbol(VersionStatus::UpToDate), "\u{2713}");
    assert_eq!(status_symbol(VersionStatus::Major), "\u{2715}");
    assert_eq!(status_symbol(VersionStatus::Unknown), "?");
}

#[test]
fn padding_and_truncation() {
    assert_eq!(pad_right("ab", 5), "ab   ");
    assert_eq!(pad_right("abcdef", 3), "abcdef");
    assert_eq!(truncate_string("abcdefgh", 5), "ab...");
    assert_eq!(truncate_string("abc", 5), "abc");
    assert_eq!(format_version_cell("1.2.3", 10), "1.2.3     ");
    assert_eq!(format_version_cell("1.2.3-alpha.1", 10), "1.2.3...  ");
}

#[test]
fn display_labels() {
    assert_eq!(VersionStatus::UpToDate.as_str(), "Up-to-date");
    assert_eq!(VersionStatus::Vulnerable.as_str(), "Vulnerable");
    assert_eq!(VersionStatus::Vulnerable.priority(), 0);
    assert_eq!(VersionStatus::UpToDate.priority(), 7);
    assert_eq!(Severity::Critical.as_str(), "CRITICAL");
    assert_eq!(RiskLevel::Medium.as_str(), "MEDIUM");
    assert_eq!(DependencySource::PyPI.source_type(), "PyPI");
    assert_eq!(DependencySource::Unknown.description(), "Unknown Source");
    let git = DependencySource::Git {
        url: "https://host/repo.git".to_string(),
        ref_spec: Some("main".to_string()),
    };
    assert_eq!(git.source_type(), "Git");
    assert_eq!(
        git.description(),
        "Git Repository: https://host/repo.git\nBranch/Tag: main"
    );
}

#[test]
fn constraint_spelling() {
    assert_eq!(VersionConstraint::Pinned("1.2.3".to_string()).as_str(), "==1.2.3");
    assert_eq!(VersionConstraint::GreaterEqual("1.0".to_string()).as_str(), ">=1.0");
    assert_eq!(VersionConstraint::Less("2.0".to_string()).as_str(), "<2.0");
    assert_eq!(
        VersionConstraint::Range("1.0".to_string(), "2.0".to_string()).as_str(),
        ">=1.0,<2.0"
    );
    assert_eq!(VersionConstraint::Compatible("1.4".to_string()).as_str(), "~=1.4");
    assert_eq!(VersionConstraint::Unspecified.as_str(), "");
}

#[test]
fn changelog_risk_labels() {
    let base = Changelog {
        version: "1.0.0".to_string(),
        release_date: "2024-01-01".to_string(),
        changes: vec!["summary".to_string()],
        breaking_changes: Vec::new(),
        deprecated: Vec::new(),
        security_fixes: Vec::new(),
    };
    assert_eq!(base.risk_level(), "LOW");
    let mut deprecated = Changelog {
        deprecated: vec!["Deprecated: deprecated".to_string()],
        ..base
    };
    assert_eq!(deprecated.risk_level(), "MEDIUM");
    deprecated.breaking_changes.push("Detected: removed".to_string());
    assert!(deprecated.has_breaking_changes());
    assert_eq!(deprecated.risk_level(), "HIGH");
}
