use pyelevate::changelog::{build_changelog, detect_breaking_changes, detect_deprecated,
    detect_security_fixes, ChangelogFetcher};
use pyelevate::models::{SecurityStatus, Severity};
use pyelevate::parser::parse_requirements_content;
use pyelevate::popularity::{parse_popularity, PopularityChecker};
use pyelevate::security::{parse_advisories, SecurityChecker};

#[test]
fn breaking_keywords_match_case_insensitively() {
    let findings = detect_breaking_changes("BREAKING CHANGE: the old API was Removed");
    assert_eq!(
        findings,
        vec!["Detected: breaking change".to_string(), "Detected: removed".to_string()]
    );
    assert!(detect_breaking_changes("a friendly release").is_empty());
}

#[test]
fn deprecation_keywords() {
    let findings = detect_deprecated("This call is Deprecated and will be removed soon");
    assert_eq!(
        findings,
        vec!["Deprecated: deprecated".to_string(), "Deprecated: will be removed".to_string()]
    );
}

#[test]
fn security_keywords() {
    let findings = detect_security_fixes("Fixes CVE-2024-0001, a security issue");
    assert_eq!(
        findings,
        vec!["Security fix: security".to_string(), "Security fix: cve".to_string()]
    );
}

#[test]
fn changelog_from_index_response() {
    let body = "{\"info\":{\"summary\":\"Breaking change: removed the legacy loader\"}}";
    let changelog = build_changelog("2.0.0", body).unwrap();
    assert_eq!(changelog.version, "2.0.0");
    assert_eq!(changelog.changes.len(), 1);
    assert!(changelog.has_breaking_changes());
    assert_eq!(changelog.risk_level(), "HIGH");
    assert!(build_changelog("2.0.0", "not json").is_none());
}

#[test]
fn changelog_cache_round_trip() {
    let mut fetcher = ChangelogFetcher::new();
    assert!(fetcher.lookup("requests", "2.31.0").is_none());
    let body = "{\"info\":{\"summary\":\"routine fixes\"}}";
    let changelog = build_changelog("2.31.0", body);
    fetcher.record("requests", "2.31.0", changelog);
    let hit = fetcher.lookup("requests", "2.31.0").unwrap();
    assert_eq!(hit.as_ref().unwrap().version, "2.31.0");
    assert!(fetcher.lookup("requests", "2.30.0").is_none());
}

#[test]
fn advisories_from_database_response() {
    let body = "{\"vulns\":[{\"id\":\"GHSA-1\",\"summary\":\"bad\",\"severity\":\"HIGH\"},\
                {\"id\":\"GHSA-2\",\"summary\":\"worse\"}]}";
    let advisories = parse_advisories(body).unwrap();
    assert_eq!(advisories.len(), 2);
    assert_eq!(advisories[0].id, "GHSA-1");
    assert_eq!(advisories[0].severity, Severity::High);
    assert_eq!(advisories[0].url, "https://osv.dev/GHSA-1");
    assert_eq!(advisories[1].severity, Severity::Medium);
    assert!(parse_advisories("{}").unwrap().is_empty());
    assert!(parse_advisories("no json").is_none());
}

#[test]
fn security_status_follows_advisories() {
    let file = parse_requirements_content("r.txt", "requests==2.28.1\n");
    let mut pkg = file.packages.into_iter().next().unwrap();
    let mut checker = SecurityChecker::new();
    assert!(checker.needs_fetch(&pkg));
    let body = "{\"vulns\":[{\"id\":\"X\",\"summary\":\"s\",\"severity\":\"CRITICAL\"}]}";
    let advisories = parse_advisories(body);
    checker.record_fetch(&mut pkg, advisories);
    assert_eq!(pkg.security_status, SecurityStatus::Vulnerable { cve_count: 1 });
    assert!(pkg.security_status.is_vulnerable());
    assert!(!checker.needs_fetch(&pkg));
    // A second record round is served from the cache.
    let mut again = parse_requirements_content("r.txt", "requests==2.28.1\n")
        .packages
        .into_iter()
        .next()
        .unwrap();
    checker.check_cached(&mut again);
    assert_eq!(again.security_status, SecurityStatus::Vulnerable { cve_count: 1 });
}

#[test]
fn failed_security_fetch_leaves_status_unknown() {
    let file = parse_requirements_content("r.txt", "requests==2.28.1\n");
    let mut pkg = file.packages.into_iter().next().unwrap();
    let mut checker = SecurityChecker::new();
    checker.record_fetch(&mut pkg, parse_advisories("transport error"));
    assert_eq!(pkg.security_status, SecurityStatus::Unknown);
    assert!(checker.needs_fetch(&pkg));
}

#[test]
fn empty_advisories_mean_safe() {
    let file = parse_requirements_content("r.txt", "requests==2.28.1\n");
    let mut pkg = file.packages.into_iter().next().unwrap();
    let mut checker = SecurityChecker::new();
    checker.record_fetch(&mut pkg, parse_advisories("{\"vulns\":[]}"));
    assert_eq!(pkg.security_status, SecurityStatus::Safe);
}

#[test]
fn popularity_from_statistics_response() {
    let body = "{\"data\":[\
        {\"date\":\"2024-01-08\",\"downloads\":100},\
        {\"date\":\"2024-01-07\",\"downloads\":200},\
        {\"date\":\"2024-01-06\",\"downloads\":50}\
    ]}";
    let pop = parse_popularity(body).unwrap();
    assert_eq!(pop.downloads_trend.len(), 3);
    assert_eq!(pop.weekly_downloads, 350);
    assert_eq!(pop.downloads_last_month, 1400);
    assert!(pop.package_rank.is_none());
    assert!(parse_popularity("oops").is_none());
}

#[test]
fn popularity_keeps_at_most_seven_rows() {
    let mut rows = String::new();
    for day in 1..=9 {
        if day > 1 {
            rows.push(',');
        }
        rows.push_str(&format!("{{\"date\":\"2024-01-0{}\",\"downloads\":10}}", day));
    }
    let body = format!("{{\"data\":[{}]}}", rows);
    let pop = parse_popularity(&body).unwrap();
    assert_eq!(pop.downloads_trend.len(), 7);
    assert_eq!(pop.weekly_downloads, 70);
    assert_eq!(pop.downloads_last_month, 280);
}

#[test]
fn popularity_cache_round_trip() {
    let mut checker = PopularityChecker::new();
    assert!(checker.lookup("requests").is_none());
    let pop = parse_popularity("{\"data\":[{\"date\":\"2024-01-01\",\"downloads\":5}]}");
    checker.record("requests", pop);
    let hit = checker.lookup("requests").unwrap();
    assert_eq!(hit.as_ref().unwrap().weekly_downloads, 5);
}
