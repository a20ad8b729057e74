//! The upgrade risk simulator: derives a point-in-time snapshot of a
//! proposed upgrade batch and rates its coarse risk.

use vstd::prelude::*;
use vstd::string::*;
use crate::models::{Package, RiskLevel, UpgradeSimulation, VersionStatus};
use crate::resolver::{conflicts_spec, DependencyResolver};
use crate::text::{dec_str, usize_to_string};

verus! {

/// Number of selected records.
pub open spec fn count_selected(s: Seq<Package>) -> nat
    decreases s.len(),
{
    if s.len() == 0 {
        0
    } else {
        count_selected(s.drop_last()) + if s.last().selected {
            1nat
        } else {
            0nat
        }
    }
}

/// Number of selected records with the given status.
pub open spec fn count_selected_status(s: Seq<Package>, st: VersionStatus) -> nat
    decreases s.len(),
{
    if s.len() == 0 {
        0
    } else {
        count_selected_status(s.drop_last(), st) + if s.last().selected && s.last().status == st {
            1nat
        } else {
            0nat
        }
    }
}

/// Selected records with a status are never more than selected records.
pub proof fn lemma_count_selected_status_le(s: Seq<Package>, st: VersionStatus)
    ensures
        count_selected_status(s, st) <= count_selected(s) <= s.len(),
    decreases s.len(),
{
    if s.len() > 0 {
        lemma_count_selected_status_le(s.drop_last(), st);
    }
}

/// The coarse risk of an upgrade batch: critical when a conflict meets a
/// major change, high when majors dominate the batch, medium when any
/// major or conflict occurs at all, and low otherwise — a security-only
/// batch is deliberately low structural risk.
pub open spec fn risk_spec(major: int, conflicts: int, security: int, total: int) -> RiskLevel {
    if conflicts > 0 && major > 0 {
        RiskLevel::Critical
    } else if major > total / 2 {
        RiskLevel::High
    } else if major > 0 || conflicts > 0 {
        RiskLevel::Medium
    } else {
        RiskLevel::Low
    }
}

/// Rates the risk of a batch from its aggregate counts.
pub fn calculate_risk_level(major: usize, conflicts: usize, security: usize, total: usize) -> (r:
    RiskLevel)
    ensures
        r == risk_spec(major as int, conflicts as int, security as int, total as int),
{
    if conflicts > 0 && major > 0 {
        RiskLevel::Critical
    } else if major > total / 2 {
        RiskLevel::High
    } else if major > 0 || conflicts > 0 {
        RiskLevel::Medium
    } else {
        RiskLevel::Low
    }
}

/// Any selected major change combined with any detected conflict rates
/// the batch critical, whatever the other counts are.
pub proof fn lemma_major_with_conflict_critical(
    major: int,
    conflicts: int,
    security: int,
    total: int,
)
    requires
        major > 0,
        conflicts > 0,
    ensures
        risk_spec(major, conflicts, security, total) == RiskLevel::Critical,
{
}

/// Selecting no record rates the batch low, as long as no conflict is
/// detected across the record set; the conflict scan covers unselected
/// records too, so a pending dependency upgrade can still rate medium.
pub proof fn lemma_zero_selected_low(packages: Seq<Package>)
    requires
        count_selected(packages) == 0,
        conflicts_spec(packages).len() == 0,
    ensures
        risk_spec(
            count_selected_status(packages, VersionStatus::Major) as int,
            conflicts_spec(packages).len() as int,
            count_selected_status(packages, VersionStatus::Vulnerable) as int,
            count_selected(packages) as int,
        ) == RiskLevel::Low,
{
    lemma_count_selected_status_le(packages, VersionStatus::Major);
}

/// Derives upgrade simulations over a record set.
pub struct UpgradeSimulator {
    resolver: DependencyResolver,
}

impl UpgradeSimulator {
    /// A simulator with an empty dependency graph.
    pub fn new() -> (r: UpgradeSimulator) {
        UpgradeSimulator { resolver: DependencyResolver::new() }
    }

    /// Computes the snapshot of the proposed batch: how many records are
    /// selected, how many of those are major changes or security fixes,
    /// how many conflicts the whole record set reports, and the resulting
    /// risk level.
    pub fn simulate_upgrade(&self, packages: &[Package]) -> (r: UpgradeSimulation)
        ensures
            r.packages_to_upgrade == count_selected(packages@),
            r.major_changes == count_selected_status(packages@, VersionStatus::Major),
            r.security_fixes == count_selected_status(packages@, VersionStatus::Vulnerable),
            r.conflicts_detected == conflicts_spec(packages@).len(),
            r.risk_level == risk_spec(
                count_selected_status(packages@, VersionStatus::Major) as int,
                conflicts_spec(packages@).len() as int,
                count_selected_status(packages@, VersionStatus::Vulnerable) as int,
                count_selected(packages@) as int,
            ),
    {
        let n = packages.len();
        let mut packages_to_upgrade: usize = 0;
        let mut major_changes: usize = 0;
        let mut security_fixes: usize = 0;
        let mut i: usize = 0;
        while i < n
            invariant
                i <= n,
                n == packages@.len(),
                packages_to_upgrade == count_selected(packages@.take(i as int)),
                major_changes == count_selected_status(
                    packages@.take(i as int),
                    VersionStatus::Major,
                ),
                security_fixes == count_selected_status(
                    packages@.take(i as int),
                    VersionStatus::Vulnerable,
                ),
            decreases n - i,
        {
            proof {
                lemma_count_selected_status_le(packages@.take(i as int), VersionStatus::Major);
                lemma_count_selected_status_le(
                    packages@.take(i as int),
                    VersionStatus::Vulnerable,
                );
                assert(packages@.take(i + 1).drop_last() =~= packages@.take(i as int));
                assert(packages@.take(i + 1).last() == packages@[i as int]);
            }
            if packages[i].selected {
                packages_to_upgrade = packages_to_upgrade + 1;
                match packages[i].status {
                    VersionStatus::Major => { major_changes = major_changes + 1 },
                    VersionStatus::Vulnerable => { security_fixes = security_fixes + 1 },
                    _ => {},
                }
            }
            i = i + 1;
        }
        proof {
            assert(packages@.take(n as int) =~= packages@);
        }
        let conflicts = self.resolver.detect_conflicts(packages);
        let conflicts_detected = conflicts.len();
        let risk_level = calculate_risk_level(
            major_changes,
            conflicts_detected,
            security_fixes,
            packages_to_upgrade,
        );
        UpgradeSimulation {
            packages_to_upgrade,
            major_changes,
            conflicts_detected,
            security_fixes,
            risk_level,
        }
    }

    /// Renders the snapshot as a plain-text report.
    pub fn generate_report(&self, packages: &[Package]) -> (r: String)
        ensures
            ({
                let major = count_selected_status(packages@, VersionStatus::Major);
                let security = count_selected_status(packages@, VersionStatus::Vulnerable);
                let conflicts = conflicts_spec(packages@).len();
                let total = count_selected(packages@);
                let risk = risk_spec(
                    major as int,
                    conflicts as int,
                    security as int,
                    total as int,
                );
                r@ == "\u{2554}\u{2550}\u{2550}\u{2550}\u{2550}\u{2550}\u{2550}\u{2550}\u{2550}\u{2550}\u{2550}\u{2550}\u{2550}\u{2550}\u{2550}\u{2550}\u{2550}\u{2550}\u{2550}\u{2550}\u{2550}\u{2550}\u{2550}\u{2550}\u{2550}\u{2550}\u{2550}\u{2550}\u{2550}\u{2550}\u{2550}\u{2550}\u{2550}\u{2550}\u{2550}\u{2550}\u{2550}\u{2550}\u{2550}\u{2550}\u{2557}\n"@
                    + "\u{2551}     UPGRADE SIMULATION REPORT          \u{2551}\n"@
                    + "\u{255a}\u{2550}\u{2550}\u{2550}\u{2550}\u{2550}\u{2550}\u{2550}\u{2550}\u{2550}\u{2550}\u{2550}\u{2550}\u{2550}\u{2550}\u{2550}\u{2550}\u{2550}\u{2550}\u{2550}\u{2550}\u{2550}\u{2550}\u{2550}\u{2550}\u{2550}\u{2550}\u{2550}\u{2550}\u{2550}\u{2550}\u{2550}\u{2550}\u{2550}\u{2550}\u{2550}\u{2550}\u{2550}\u{2550}\u{2550}\u{2550}\u{255d}\n\n"@
                    + "\u{1f4e6} Packages to upgrade:     "@ + dec_str(total) + "\n"@
                    + "\u{1f534} Major changes:           "@ + dec_str(major) + "\n"@
                    + "\u{26a0}\u{fe0f}  Conflicts detected:      "@ + dec_str(conflicts) + "\n"@
                    + "\u{1f512} Security fixes:          "@ + dec_str(security) + "\n"@
                    + "\u{1f4ca} Overall Risk:            "@ + (match risk {
                    RiskLevel::Low => "LOW"@,
                    RiskLevel::Medium => "MEDIUM"@,
                    RiskLevel::High => "HIGH"@,
                    RiskLevel::Critical => "CRITICAL"@,
                }) + "\n\n"@
            }),
    {
        let simulation = self.simulate_upgrade(packages);
        let r =
            "\u{2554}\u{2550}\u{2550}\u{2550}\u{2550}\u{2550}\u{2550}\u{2550}\u{2550}\u{2550}\u{2550}\u{2550}\u{2550}\u{2550}\u{2550}\u{2550}\u{2550}\u{2550}\u{2550}\u{2550}\u{2550}\u{2550}\u{2550}\u{2550}\u{2550}\u{2550}\u{2550}\u{2550}\u{2550}\u{2550}\u{2550}\u{2550}\u{2550}\u{2550}\u{2550}\u{2550}\u{2550}\u{2550}\u{2550}\u{2550}\u{2557}\n".to_owned();
        let r = r.concat("\u{2551}     UPGRADE SIMULATION REPORT          \u{2551}\n");
        let r = r.concat(
            "\u{255a}\u{2550}\u{2550}\u{2550}\u{2550}\u{2550}\u{2550}\u{2550}\u{2550}\u{2550}\u{2550}\u{2550}\u{2550}\u{2550}\u{2550}\u{2550}\u{2550}\u{2550}\u{2550}\u{2550}\u{2550}\u{2550}\u{2550}\u{2550}\u{2550}\u{2550}\u{2550}\u{2550}\u{2550}\u{2550}\u{2550}\u{2550}\u{2550}\u{2550}\u{2550}\u{2550}\u{2550}\u{2550}\u{2550}\u{2550}\u{2550}\u{255d}\n\n",
        );
        let r = r.concat("\u{1f4e6} Packages to upgrade:     ");
        let r = r.concat(usize_to_string(simulation.packages_to_upgrade).as_str());
        let r = r.concat("\n");
        let r = r.concat("\u{1f534} Major changes:           ");
        let r = r.concat(usize_to_string(simulation.major_changes).as_str());
        let r = r.concat("\n");
        let r = r.concat("\u{26a0}\u{fe0f}  Conflicts detected:      ");
        let r = r.concat(usize_to_string(simulation.conflicts_detected).as_str());
        let r = r.concat("\n");
        let r = r.concat("\u{1f512} Security fixes:          ");
        let r = r.concat(usize_to_string(simulation.security_fixes).as_str());
        let r = r.concat("\n");
        let r = r.concat("\u{1f4ca} Overall Risk:            ");
        let r = r.concat(simulation.risk_level.as_str());
        let r = r.concat("\n\n");
        r
    }
}


impl Default for UpgradeSimulator {
    /// Same as `new`: a simulator with an empty dependency graph.
    fn default() -> (r: UpgradeSimulator) {
        UpgradeSimulator::new()
    }
}

} // verus!
