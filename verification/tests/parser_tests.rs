use pyelevate::models::{DependencySource, VersionConstraint, VersionStatus};
use pyelevate::parser::{determine_requirements_path, extract_version_spec,
    parse_editable_requirement, parse_git_requirement, parse_pypi_requirement,
    parse_requirement_line, parse_requirements_content, parse_url_requirement,
    parse_version_spec, ParseError};

#[test]
fn test_parse_pinned_version() {
    let pkg = parse_pypi_requirement("requests==2.28.1").unwrap();
    assert_eq!(pkg.name, "requests");
    assert_eq!(pkg.current_version, "2.28.1");
}

#[test]
fn test_parse_with_extras() {
    let pkg = parse_pypi_requirement("requests[security,socks]==2.28.1").unwrap();
    assert_eq!(pkg.name, "requests");
    assert_eq!(pkg.extras.len(), 2);
}

#[test]
fn test_parse_git() {
    let pkg = parse_git_requirement("https://github.com/user/repo.git@main");
    assert_eq!(pkg.name, "repo");
    assert!(matches!(pkg.source, DependencySource::Git { .. }));
}

#[test]
fn pinned_line_round_trip() {
    let pkg = parse_requirement_line("requests==2.28.1").unwrap();
    assert_eq!(pkg.name, "requests");
    assert_eq!(pkg.current_version, "2.28.1");
    assert!(matches!(pkg.constraint, VersionConstraint::Pinned(ref v) if v == "2.28.1"));
    assert!(matches!(pkg.source, DependencySource::PyPI));
    assert_eq!(pkg.status, VersionStatus::Unknown);
    assert!(pkg.latest_version.is_none());
    assert!(!pkg.selected);
}

#[test]
fn extras_keep_name_and_version() {
    let pkg = parse_requirement_line("requests[security,socks]==2.28.1").unwrap();
    assert_eq!(pkg.name, "requests");
    assert_eq!(pkg.current_version, "2.28.1");
    assert_eq!(pkg.extras, vec!["security".to_string(), "socks".to_string()]);
}

#[test]
fn two_component_version_is_normalized() {
    let pkg = parse_requirement_line("django==3.2  # Web framework").unwrap();
    assert_eq!(pkg.name, "django");
    assert_eq!(pkg.current_version, "3.2.0");
}

#[test]
fn one_component_version_is_normalized() {
    let pkg = parse_requirement_line("flask~=2").unwrap();
    assert_eq!(pkg.current_version, "2.0.0");
    assert!(matches!(pkg.constraint, VersionConstraint::Compatible(ref v) if v == "2"));
}

#[test]
fn git_line_keeps_name_and_ref() {
    let pkg = parse_requirement_line("git+https://github.com/user/repo.git@main").unwrap();
    assert_eq!(pkg.name, "repo");
    assert_eq!(pkg.current_version, "git-source");
    match &pkg.source {
        DependencySource::Git { url, ref_spec } => {
            assert_eq!(url, "https://github.com/user/repo.git");
            assert_eq!(ref_spec.as_deref(), Some("main"));
        }
        other => panic!("unexpected source: {:?}", other),
    }
}

#[test]
fn git_line_without_repo_name_synthesizes_one() {
    let pkg = parse_git_requirement("https://host/x@v1");
    assert!(pkg.name.starts_with("git-"));
    assert_eq!(pkg.name.chars().count(), 12);
}

#[test]
fn editable_line_uses_file_name() {
    let pkg = parse_requirement_line("-e ./local/MyPkg").unwrap();
    assert_eq!(pkg.name, "mypkg");
    assert_eq!(pkg.current_version, "local");
    match &pkg.source {
        DependencySource::LocalPath { path, editable } => {
            assert_eq!(path, "./local/MyPkg");
            assert!(*editable);
        }
        other => panic!("unexpected source: {:?}", other),
    }
}

#[test]
fn url_line_takes_first_segment_stem() {
    let pkg = parse_requirement_line("https://example.com/pkg.tar.gz").unwrap();
    assert_eq!(pkg.name, "pkg");
    assert_eq!(pkg.current_version, "url-source");
    assert!(matches!(pkg.source, DependencySource::Url { .. }));
}

#[test]
fn invalid_url_is_rejected() {
    let r = parse_url_requirement("https://");
    assert_eq!(r.unwrap_err(), ParseError::InvalidUrl);
}

#[test]
fn blank_and_comment_lines_are_rejected() {
    assert_eq!(parse_requirement_line("   ").unwrap_err(), ParseError::EmptyLine);
    assert_eq!(parse_requirement_line("# only a comment").unwrap_err(), ParseError::EmptyLine);
}

#[test]
fn nameless_index_lines_are_rejected() {
    assert_eq!(parse_pypi_requirement("==1.0").unwrap_err(), ParseError::EmptyName);
    assert_eq!(parse_requirement_line("==1.0").unwrap_err(), ParseError::EmptyName);
    let file = parse_requirements_content("r.txt", "==1.0\nrequests==2.28.1\n");
    assert_eq!(file.packages.len(), 1);
    assert_eq!(file.packages[0].name, "requests");
}

#[test]
fn operator_priority_checks_less_before_greater() {
    let (name, spec) = extract_version_spec("a>b<c");
    assert_eq!(name, "a>b");
    assert_eq!(spec, "<c");
    let pkg = parse_requirement_line("pkg>1,<2").unwrap();
    assert_eq!(pkg.name, "pkg>1,");
    assert!(matches!(pkg.constraint, VersionConstraint::Less(ref v) if v == "2"));
    assert_eq!(pkg.current_version, "0.0.0");
}

#[test]
fn version_spec_variants() {
    let (c, v) = parse_version_spec(">=1.2");
    assert!(matches!(c, VersionConstraint::GreaterEqual(ref s) if s == "1.2"));
    assert_eq!(v, "1.2.0");

    let (c, v) = parse_version_spec("<2.0");
    assert!(matches!(c, VersionConstraint::Less(ref s) if s == "2.0"));
    assert_eq!(v, "0.0.0");

    let (c, v) = parse_version_spec("!=1.0");
    assert!(matches!(c, VersionConstraint::Unspecified));
    assert_eq!(v, "0.0.0");

    let (c, v) = parse_version_spec("");
    assert!(matches!(c, VersionConstraint::Unspecified));
    assert_eq!(v, "0.0.0");
}

#[test]
fn whole_manifest_parses_sorted_and_skips_bad_lines() {
    let content = "zlib==1.0\n# comment\n\nrequests==2.28.1\nnumpy>=1.21\n";
    let file = parse_requirements_content("requirements.txt", content);
    assert_eq!(file.path, "requirements.txt");
    assert_eq!(file.raw_lines.len(), 5);
    let names: Vec<&str> = file.packages.iter().map(|p| p.name.as_str()).collect();
    assert_eq!(names, vec!["numpy", "requests", "zlib"]);
}

#[test]
fn carriage_returns_are_stripped_from_lines() {
    let file = parse_requirements_content("r.txt", "alpha==1\r\nbeta==2\r\n");
    let names: Vec<&str> = file.packages.iter().map(|p| p.name.as_str()).collect();
    assert_eq!(names, vec!["alpha", "beta"]);
    assert_eq!(file.packages[0].current_version, "1.0.0");
    assert_eq!(file.packages[1].current_version, "2.0.0");
    assert_eq!(file.raw_lines, vec!["alpha==1".to_string(), "beta==2".to_string()]);
}

#[test]
fn requirements_path_resolution() {
    assert_eq!(determine_requirements_path(Some("deps.txt"), false).unwrap(), "deps.txt");
    assert_eq!(determine_requirements_path(None, true).unwrap(), "requirements.txt");
    let err = determine_requirements_path(None, false).unwrap_err();
    assert!(err.contains("Could not find requirements.txt"));
}
