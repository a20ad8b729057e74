use pyelevate::models::VersionStatus;
use pyelevate::parser::parse_requirements_content;
use pyelevate::pypi::{apply_outcome, extract_latest_version, extract_package_info, PyPIClient};

#[test]
fn test_pypi_client_creation() {
    let client = PyPIClient::new();
    assert_eq!(client.cache_len(), 0);
}

#[test]
fn cache_round_trip() {
    let mut client = PyPIClient::new();
    assert!(client.needs_fetch("requests"));
    client.record("requests", "2.31.0");
    assert!(!client.needs_fetch("requests"));
    assert_eq!(client.lookup("requests").as_deref(), Some("2.31.0"));
    client.record("requests", "2.32.0");
    assert_eq!(client.lookup("requests").as_deref(), Some("2.32.0"));
    assert_eq!(client.cache_len(), 1);
}

#[test]
fn second_resolution_round_plans_no_network_call() {
    let file = parse_requirements_content("r.txt", "requests==2.28.1\nflask==2.0.0\n");
    let mut client = PyPIClient::new();
    let first_round = client.plan_lookups(&file.packages);
    assert_eq!(first_round, vec!["flask".to_string(), "requests".to_string()]);
    // The one network call per name happens now; its results are recorded.
    client.record("flask", "3.0.0");
    client.record("requests", "2.31.0");
    let second_round = client.plan_lookups(&file.packages);
    assert!(second_round.is_empty());
}

#[test]
fn cache_clear_forces_replanning() {
    let file = parse_requirements_content("r.txt", "requests==2.28.1\n");
    let mut client = PyPIClient::new();
    client.record("requests", "2.31.0");
    assert!(client.plan_lookups(&file.packages).is_empty());
    client.clear_cache();
    assert_eq!(client.plan_lookups(&file.packages).len(), 1);
}

#[test]
fn outcomes_are_applied_to_records() {
    let file = parse_requirements_content("r.txt", "flask==2.0.0\nrequests==2.28.1\n");
    let mut packages = file.packages;
    let mut client = PyPIClient::new();
    let outcomes = vec![
        ("requests".to_string(), Ok("2.31.0".to_string())),
        ("flask".to_string(), Err("request failed".to_string())),
    ];
    client.apply_outcomes(&mut packages, &outcomes);
    let requests = packages.iter().find(|p| p.name == "requests").unwrap();
    assert_eq!(requests.latest_version.as_deref(), Some("2.31.0"));
    assert_eq!(requests.status, VersionStatus::Minor);
    assert!(requests.error.is_none());
    let flask = packages.iter().find(|p| p.name == "flask").unwrap();
    assert!(flask.latest_version.is_none());
    assert_eq!(flask.status, VersionStatus::Error);
    assert_eq!(flask.error.as_deref(), Some("request failed"));
    // Successful resolutions are cached for the next round.
    assert!(!client.needs_fetch("requests"));
    assert!(client.needs_fetch("flask"));
}

#[test]
fn single_outcome_application() {
    let file = parse_requirements_content("r.txt", "requests==2.28.1\n");
    let mut pkg = file.packages.into_iter().next().unwrap();
    apply_outcome(&mut pkg, &Ok("3.0.0".to_string()));
    assert_eq!(pkg.latest_version.as_deref(), Some("3.0.0"));
    assert_eq!(pkg.status, VersionStatus::Major);
    apply_outcome(&mut pkg, &Err("boom".to_string()));
    assert_eq!(pkg.status, VersionStatus::Error);
    assert_eq!(pkg.error.as_deref(), Some("boom"));
    // The last resolved version survives a later failure.
    assert_eq!(pkg.latest_version.as_deref(), Some("3.0.0"));
}

#[test]
fn index_response_parsing() {
    let body = "{\"info\":{\"name\":\"requests\",\"version\":\"2.31.0\",\"yanked\":false}}";
    assert_eq!(extract_latest_version(body).as_deref(), Some("2.31.0"));
    assert_eq!(extract_package_info(body), Some(("2.31.0".to_string(), false)));
    let yanked = "{\"info\":{\"version\":\"1.0.0\",\"yanked\":true}}";
    assert_eq!(extract_package_info(yanked), Some(("1.0.0".to_string(), true)));
    assert!(extract_latest_version("not json").is_none());
    assert!(extract_package_info("{}").is_none());
}
