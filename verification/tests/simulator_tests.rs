use pyelevate::models::{RiskLevel, UpgradeStats, VersionStatus};
use pyelevate::parser::parse_requirements_content;
use pyelevate::simulator::{calculate_risk_level, UpgradeSimulator};

#[test]
fn risk_formula() {
    assert_eq!(calculate_risk_level(0, 0, 0, 0), RiskLevel::Low);
    assert_eq!(calculate_risk_level(0, 0, 5, 5), RiskLevel::Low);
    assert_eq!(calculate_risk_level(1, 0, 0, 2), RiskLevel::Medium);
    assert_eq!(calculate_risk_level(0, 1, 0, 0), RiskLevel::Medium);
    assert_eq!(calculate_risk_level(2, 0, 0, 3), RiskLevel::High);
    assert_eq!(calculate_risk_level(1, 1, 0, 9), RiskLevel::Critical);
    assert_eq!(calculate_risk_level(3, 2, 4, 100), RiskLevel::Critical);
}

#[test]
fn simulation_counts_selection_and_conflicts() {
    let file = parse_requirements_content("r.txt", "a==1.0.0\nb==1.0.0\nc==1.0.0\n");
    let mut packages = file.packages;
    for pkg in packages.iter_mut() {
        match pkg.name.as_str() {
            "a" => {
                pkg.selected = true;
                pkg.status = VersionStatus::Major;
                pkg.dependencies.push("b".to_string());
            }
            "b" => {
                pkg.latest_version = Some("2.0.0".to_string());
            }
            "c" => {
                pkg.selected = true;
                pkg.status = VersionStatus::Vulnerable;
            }
            _ => {}
        }
    }
    let simulator = UpgradeSimulator::new();
    let sim = simulator.simulate_upgrade(&packages);
    assert_eq!(sim.packages_to_upgrade, 2);
    assert_eq!(sim.major_changes, 1);
    assert_eq!(sim.security_fixes, 1);
    assert_eq!(sim.conflicts_detected, 1);
    assert_eq!(sim.risk_level, RiskLevel::Critical);
}

#[test]
fn zero_selection_without_conflicts_is_low() {
    let file = parse_requirements_content("r.txt", "a==1.0.0\nb==1.0.0\n");
    let simulator = UpgradeSimulator::new();
    let sim = simulator.simulate_upgrade(&file.packages);
    assert_eq!(sim.packages_to_upgrade, 0);
    assert_eq!(sim.risk_level, RiskLevel::Low);
}

#[test]
fn report_carries_the_counts() {
    let file = parse_requirements_content("r.txt", "a==1.0.0\n");
    let mut packages = file.packages;
    packages[0].selected = true;
    packages[0].status = VersionStatus::Major;
    let simulator = UpgradeSimulator::new();
    let report = simulator.generate_report(&packages);
    assert!(report.contains("UPGRADE SIMULATION REPORT"));
    assert!(report.contains("Packages to upgrade:     1"));
    assert!(report.contains("Major changes:           1"));
    assert!(report.contains("Conflicts detected:      0"));
    assert!(report.contains("Overall Risk:            HIGH"));
}

#[test]
fn stats_tally_by_status() {
    let file = parse_requirements_content(
        "r.txt",
        "a==1.0.0\nb==1.0.0\nc==1.0.0\nd==1.0.0\ne==1.0.0\n",
    );
    let mut packages = file.packages;
    packages[0].status = VersionStatus::Patch;
    packages[1].status = VersionStatus::Minor;
    packages[2].status = VersionStatus::Major;
    packages[3].status = VersionStatus::UpToDate;
    packages[4].status = VersionStatus::Error;
    let stats = UpgradeStats::new(&packages);
    assert_eq!(stats.total, 5);
    assert_eq!(stats.patch_available, 1);
    assert_eq!(stats.minor_available, 1);
    assert_eq!(stats.major_available, 1);
    assert_eq!(stats.up_to_date, 1);
    assert_eq!(stats.errors, 1);
    assert_eq!(stats.vulnerable, 0);
    assert_eq!(stats.conflicts, 0);
    assert_eq!(stats.total_upgradable(), 3);
}
