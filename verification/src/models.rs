//! The package data model: records, version constraints, dependency
//! sources, status categories, aggregate statistics, and the pure version
//! classifier.

use vstd::prelude::*;
use vstd::string::*;
use crate::text::{lex_le, str_le};

verus! {

/// How a declared package relates to the latest version the index offers.
#[derive(Debug, Clone, Copy, PartialEq, Eq, Structural)]
pub enum VersionStatus {
    Patch,
    Minor,
    Major,
    Prerelease,
    Unknown,
    UpToDate,
    Error,
    Vulnerable,
}

/// Where a declared package comes from.
#[derive(Debug, Clone)]
pub enum DependencySource {
    PyPI,
    Git { url: String, ref_spec: Option<String> },
    LocalPath { path: String, editable: bool },
    Url { url: String },
    Unknown,
}

/// The version rule declared in the manifest, independent of resolution.
#[derive(Debug, Clone)]
pub enum VersionConstraint {
    Pinned(String),
    GreaterEqual(String),
    Less(String),
    Range(String, String),
    Compatible(String),
    Unspecified,
}

/// Vulnerability state of a record.
#[derive(Debug, Clone, Copy, PartialEq, Eq, Structural)]
pub enum SecurityStatus {
    Vulnerable { cve_count: usize },
    Safe,
    Unknown,
}

/// Severity of one advisory.
#[derive(Debug, Clone, Copy, PartialEq, Eq, Structural)]
pub enum Severity {
    Critical,
    High,
    Medium,
    Low,
}

/// One security advisory for a package version.
#[derive(Debug, Clone)]
pub struct SecurityAdvisory {
    pub id: String,
    pub title: String,
    pub severity: Severity,
    pub affected_versions: Vec<String>,
    pub fixed_version: Option<String>,
    pub url: String,
}

/// Changelog summary for one release, with keyword-derived classifications.
#[derive(Debug, Clone)]
pub struct Changelog {
    pub version: String,
    pub release_date: String,
    pub changes: Vec<String>,
    pub breaking_changes: Vec<String>,
    pub deprecated: Vec<String>,
    pub security_fixes: Vec<String>,
}

/// Download statistics for a package.
#[derive(Debug, Clone)]
pub struct PopularityData {
    pub downloads_last_month: u64,
    pub downloads_trend: Vec<(String, u64)>,
    pub weekly_downloads: u64,
    pub package_rank: Option<usize>,
}

/// One manifest-declared package and its resolved and enriched state.
#[derive(Debug, Clone)]
pub struct Package {
    pub name: String,
    pub current_version: String,
    pub latest_version: Option<String>,
    pub status: VersionStatus,
    pub selected: bool,
    pub extras: Vec<String>,
    pub constraint: VersionConstraint,
    pub error: Option<String>,
    pub source: DependencySource,
    pub security_status: SecurityStatus,
    pub changelog: Option<Changelog>,
    pub popularity: Option<PopularityData>,
    pub dependencies: Vec<String>,
}

impl Package {
    /// A well-formed record has a non-empty name.
    pub open spec fn wf(self) -> bool {
        self.name@.len() > 0
    }

    /// Whether the record's source is the package index.
    pub open spec fn is_index_source(self) -> bool {
        self.source is PyPI
    }
}

/// A parsed manifest: its path, records ordered by name, and raw lines.
#[derive(Debug, Clone)]
pub struct RequirementsFile {
    pub path: String,
    pub packages: Vec<Package>,
    pub raw_lines: Vec<String>,
}

/// Aggregate counts over a record set.
#[derive(Debug)]
pub struct UpgradeStats {
    pub total: usize,
    pub patch_available: usize,
    pub minor_available: usize,
    pub major_available: usize,
    pub up_to_date: usize,
    pub errors: usize,
    pub vulnerable: usize,
    pub conflicts: usize,
}

/// A derived snapshot of a proposed upgrade batch.
#[derive(Debug, Clone)]
pub struct UpgradeSimulation {
    pub packages_to_upgrade: usize,
    pub major_changes: usize,
    pub conflicts_detected: usize,
    pub security_fixes: usize,
    pub risk_level: RiskLevel,
}

/// Coarse risk rating of an upgrade batch.
#[derive(Debug, Clone, Copy, PartialEq, Eq, Structural)]
pub enum RiskLevel {
    Low,
    Medium,
    High,
    Critical,
}

impl DependencySource {
    /// Short label for the source kind.
    pub fn source_type(&self) -> (r: &'static str)
        ensures
            r@ == match self {
                DependencySource::PyPI => "PyPI"@,
                DependencySource::Git { .. } => "Git"@,
                DependencySource::LocalPath { .. } => "Local"@,
                DependencySource::Url { .. } => "URL"@,
                DependencySource::Unknown => "Unknown"@,
            },
    {
        match self {
            DependencySource::PyPI => "PyPI",
            DependencySource::Git { .. } => "Git",
            DependencySource::LocalPath { .. } => "Local",
            DependencySource::Url { .. } => "URL",
            DependencySource::Unknown => "Unknown",
        }
    }

    /// Multi-line description of the source.
    pub fn description(&self) -> (r: String)
        ensures
            r@ == match self {
                DependencySource::PyPI => "Python Package Index"@,
                DependencySource::Git { url, ref_spec } => match ref_spec {
                    Some(rs) => "Git Repository: "@ + url@ + "\n"@ + "Branch/Tag: "@ + rs@,
                    None => "Git Repository: "@ + url@ + "\n"@,
                },
                DependencySource::LocalPath { path, editable } => if *editable {
                    "Local Path: "@ + path@ + "\n"@ + "Editable Install"@
                } else {
                    "Local Path: "@ + path@ + "\n"@ + "Standard Install"@
                },
                DependencySource::Url { url } => "URL: "@ + url@,
                DependencySource::Unknown => "Unknown Source"@,
            },
    {
        match self {
            DependencySource::PyPI => "Python Package Index".to_owned(),
            DependencySource::Git { url, ref_spec } => {
                let base = "Git Repository: ".to_owned().concat(url.as_str()).concat("\n");
                match ref_spec {
                    Some(rs) => base.concat("Branch/Tag: ").concat(rs.as_str()),
                    None => base,
                }
            },
            DependencySource::LocalPath { path, editable } => {
                let base = "Local Path: ".to_owned().concat(path.as_str()).concat("\n");
                if *editable {
                    base.concat("Editable Install")
                } else {
                    base.concat("Standard Install")
                }
            },
            DependencySource::Url { url } => "URL: ".to_owned().concat(url.as_str()),
            DependencySource::Unknown => "Unknown Source".to_owned(),
        }
    }
}

impl VersionStatus {
    /// Display label for the status.
    pub fn as_str(&self) -> (r: &'static str)
        ensures
            r@ == match self {
                VersionStatus::Patch => "Patch"@,
                VersionStatus::Minor => "Minor"@,
                VersionStatus::Major => "Major"@,
                VersionStatus::Prerelease => "Prerelease"@,
                VersionStatus::Unknown => "Unknown"@,
                VersionStatus::UpToDate => "Up-to-date"@,
                VersionStatus::Error => "Error"@,
                VersionStatus::Vulnerable => "Vulnerable"@,
            },
    {
        match self {
            VersionStatus::Patch => "Patch",
            VersionStatus::Minor => "Minor",
            VersionStatus::Major => "Major",
            VersionStatus::Prerelease => "Prerelease",
            VersionStatus::Unknown => "Unknown",
            VersionStatus::UpToDate => "Up-to-date",
            VersionStatus::Error => "Error",
            VersionStatus::Vulnerable => "Vulnerable",
        }
    }

    /// Sort priority: the most urgent status sorts first.
    pub fn priority(&self) -> (r: u8)
        ensures
            r == self.priority_spec(),
    {
        match self {
            VersionStatus::Vulnerable => 0,
            VersionStatus::Error => 1,
            VersionStatus::Major => 2,
            VersionStatus::Minor => 3,
            VersionStatus::Prerelease => 4,
            VersionStatus::Patch => 5,
            VersionStatus::Unknown => 6,
            VersionStatus::UpToDate => 7,
        }
    }

    /// The value `priority` returns.
    pub open spec fn priority_spec(self) -> u8 {
        match self {
            VersionStatus::Vulnerable => 0,
            VersionStatus::Error => 1,
            VersionStatus::Major => 2,
            VersionStatus::Minor => 3,
            VersionStatus::Prerelease => 4,
            VersionStatus::Patch => 5,
            VersionStatus::Unknown => 6,
            VersionStatus::UpToDate => 7,
        }
    }
}

impl VersionConstraint {
    /// The manifest spelling of the constraint.
    pub fn as_str(&self) -> (r: String)
        ensures
            r@ == match self {
                VersionConstraint::Pinned(v) => "=="@ + v@,
                VersionConstraint::GreaterEqual(v) => ">="@ + v@,
                VersionConstraint::Less(v) => "<"@ + v@,
                VersionConstraint::Range(low, high) => ">="@ + low@ + ",<"@ + high@,
                VersionConstraint::Compatible(v) => "~="@ + v@,
                VersionConstraint::Unspecified => Seq::<char>::empty(),
            },
    {
        match self {
            VersionConstraint::Pinned(v) => "==".to_owned().concat(v.as_str()),
            VersionConstraint::GreaterEqual(v) => ">=".to_owned().concat(v.as_str()),
            VersionConstraint::Less(v) => "<".to_owned().concat(v.as_str()),
            VersionConstraint::Range(low, high) => ">=".to_owned().concat(low.as_str()).concat(
                ",<",
            ).concat(high.as_str()),
            VersionConstraint::Compatible(v) => "~=".to_owned().concat(v.as_str()),
            VersionConstraint::Unspecified => String::new(),
        }
    }
}

impl SecurityStatus {
    /// Whether the record is known to be vulnerable.
    pub fn is_vulnerable(&self) -> (r: bool)
        ensures
            r == (self is Vulnerable),
    {
        match self {
            SecurityStatus::Vulnerable { .. } => true,
            _ => false,
        }
    }
}

impl Severity {
    /// Display label for the severity.
    pub fn as_str(&self) -> (r: &'static str)
        ensures
            r@ == match self {
                Severity::Critical => "CRITICAL"@,
                Severity::High => "HIGH"@,
                Severity::Medium => "MEDIUM"@,
                Severity::Low => "LOW"@,
            },
    {
        match self {
            Severity::Critical => "CRITICAL",
            Severity::High => "HIGH",
            Severity::Medium => "MEDIUM",
            Severity::Low => "LOW",
        }
    }
}

impl Changelog {
    /// Whether any breaking change was detected.
    pub fn has_breaking_changes(&self) -> (r: bool)
        ensures
            r == (self.breaking_changes@.len() > 0),
    {
        self.breaking_changes.len() > 0
    }

    /// Coarse risk of taking this release: breaking changes rank highest,
    /// then deprecations; anything else is low.
    pub fn risk_level(&self) -> (r: &'static str)
        ensures
            self.breaking_changes@.len() > 0 ==> r@ == "HIGH"@,
            self.breaking_changes@.len() == 0 && self.deprecated@.len() > 0 ==> r@ == "MEDIUM"@,
            self.breaking_changes@.len() == 0 && self.deprecated@.len() == 0 ==> r@ == "LOW"@,
    {
        if self.breaking_changes.len() > 0 {
            "HIGH"
        } else if self.deprecated.len() > 0 {
            "MEDIUM"
        } else {
            "LOW"
        }
    }
}

impl RiskLevel {
    /// Display label for the risk level.
    pub fn as_str(&self) -> (r: &'static str)
        ensures
            r@ == match self {
                RiskLevel::Low => "LOW"@,
                RiskLevel::Medium => "MEDIUM"@,
                RiskLevel::High => "HIGH"@,
                RiskLevel::Critical => "CRITICAL"@,
            },
    {
        match self {
            RiskLevel::Low => "LOW",
            RiskLevel::Medium => "MEDIUM",
            RiskLevel::High => "HIGH",
            RiskLevel::Critical => "CRITICAL",
        }
    }
}

/// Number of records in `s` whose status is `st`.
pub open spec fn count_status(s: Seq<Package>, st: VersionStatus) -> nat
    decreases s.len(),
{
    if s.len() == 0 {
        0
    } else {
        count_status(s.drop_last(), st) + if s.last().status == st {
            1nat
        } else {
            0nat
        }
    }
}

impl UpgradeStats {
    /// Tallies the record set by status. The conflict count is not derived
    /// here; it starts at zero.
    pub fn new(packages: &[Package]) -> (stats: UpgradeStats)
        ensures
            stats.total == packages@.len(),
            stats.patch_available == count_status(packages@, VersionStatus::Patch),
            stats.minor_available == count_status(packages@, VersionStatus::Minor),
            stats.major_available == count_status(packages@, VersionStatus::Major),
            stats.up_to_date == count_status(packages@, VersionStatus::UpToDate),
            stats.errors == count_status(packages@, VersionStatus::Error),
            stats.vulnerable == count_status(packages@, VersionStatus::Vulnerable),
            stats.conflicts == 0,
    {
        let total = packages.len();
        let mut patch_available: usize = 0;
        let mut minor_available: usize = 0;
        let mut major_available: usize = 0;
        let mut up_to_date: usize = 0;
        let mut errors: usize = 0;
        let mut vulnerable: usize = 0;
        let mut i: usize = 0;
        while i < total
            invariant
                i <= total,
                total == packages@.len(),
                patch_available == count_status(packages@.take(i as int), VersionStatus::Patch),
                minor_available == count_status(packages@.take(i as int), VersionStatus::Minor),
                major_available == count_status(packages@.take(i as int), VersionStatus::Major),
                up_to_date == count_status(packages@.take(i as int), VersionStatus::UpToDate),
                errors == count_status(packages@.take(i as int), VersionStatus::Error),
                vulnerable == count_status(packages@.take(i as int), VersionStatus::Vulnerable),
            decreases total - i,
        {
            proof {
                lemma_count_status_le_len(packages@.take(i as int), VersionStatus::Patch);
                lemma_count_status_le_len(packages@.take(i as int), VersionStatus::Minor);
                lemma_count_status_le_len(packages@.take(i as int), VersionStatus::Major);
                lemma_count_status_le_len(packages@.take(i as int), VersionStatus::UpToDate);
                lemma_count_status_le_len(packages@.take(i as int), VersionStatus::Error);
                lemma_count_status_le_len(packages@.take(i as int), VersionStatus::Vulnerable);
                assert(packages@.take(i + 1).drop_last() =~= packages@.take(i as int));
                assert(packages@.take(i + 1).last() == packages@[i as int]);
            }
            match packages[i].status {
                VersionStatus::Patch => { patch_available = patch_available + 1 },
                VersionStatus::Minor => { minor_available = minor_available + 1 },
                VersionStatus::Major => { major_available = major_available + 1 },
                VersionStatus::UpToDate => { up_to_date = up_to_date + 1 },
                VersionStatus::Error => { errors = errors + 1 },
                VersionStatus::Vulnerable => { vulnerable = vulnerable + 1 },
                _ => {},
            }
            i = i + 1;
        }
        proof {
            assert(packages@.take(total as int) =~= packages@);
        }
        UpgradeStats {
            total,
            patch_available,
            minor_available,
            major_available,
            up_to_date,
            errors,
            vulnerable,
            conflicts: 0,
        }
    }

    /// Records for which any upgrade is available.
    pub fn total_upgradable(&self) -> (r: usize)
        requires
            self.patch_available + self.minor_available + self.major_available <= usize::MAX,
        ensures
            r == self.patch_available + self.minor_available + self.major_available,
    {
        self.patch_available + self.minor_available + self.major_available
    }
}

/// A status count never exceeds the length of the record sequence.
pub proof fn lemma_count_status_le_len(s: Seq<Package>, st: VersionStatus)
    ensures
        count_status(s, st) <= s.len(),
    decreases s.len(),
{
    if s.len() > 0 {
        lemma_count_status_le_len(s.drop_last(), st);
    }
}

/// What `semver::Version::parse` returns for a given character sequence:
/// `None` when the text is not a strict semantic version, else the numeric
/// triple with the pre-release and build tags.
pub uninterp spec fn semver_parse(s: Seq<char>) -> Option<(u64, u64, u64, Seq<char>, Seq<char>)>;

/// How the derived order of `semver::Version` compares two versions with
/// equal numeric triples: by pre-release precedence, then build metadata.
pub uninterp spec fn semver_tail_le(
    pre_a: Seq<char>,
    build_a: Seq<char>,
    pre_b: Seq<char>,
    build_b: Seq<char>,
) -> bool;

/// The numeric and tag parts of one parsed semantic version.
#[derive(Debug, Clone)]
pub struct SemVer {
    pub major: u64,
    pub minor: u64,
    pub patch: u64,
    pub pre: String,
    pub build: String,
}

/// Relies on `semver::Version::parse`: strict SemVer parsing. The wrapper
/// hands back the parsed numeric triple and the pre-release and build tags,
/// or `None` when parsing fails.
#[verifier::external_body]
fn parse_semver(s: &str) -> (r: Option<SemVer>)
    ensures
        match r {
            Some(v) => semver_parse(s@) == Some::<(u64, u64, u64, Seq<char>, Seq<char>)>(
                (v.major, v.minor, v.patch, v.pre@, v.build@),
            ),
            None => semver_parse(s@) is None,
        },
{
    match semver::Version::parse(s) {
        Ok(v) => Some(SemVer {
            major: v.major,
            minor: v.minor,
            patch: v.patch,
            pre: v.pre.as_str().to_string(),
            build: v.build.as_str().to_string(),
        }),
        Err(_) => None,
    }
}

/// Relies on the derived `Ord` of `semver::Version`: for two versions with
/// the same numeric triple the order is decided by pre-release precedence
/// (a version without a pre-release tag ranks above one with a tag), then
/// by build metadata; equal tags compare equal.
#[verifier::external_body]
fn tail_le(pre_a: &str, build_a: &str, pre_b: &str, build_b: &str) -> (r: bool)
    ensures
        r == semver_tail_le(pre_a@, build_a@, pre_b@, build_b@),
        pre_a@ == pre_b@ && build_a@ == build_b@ ==> r,
{
    let va = semver::Version {
        major: 0,
        minor: 0,
        patch: 0,
        pre: semver::Prerelease::new(pre_a).unwrap_or_default(),
        build: semver::BuildMetadata::new(build_a).unwrap_or_default(),
    };
    let vb = semver::Version {
        major: 0,
        minor: 0,
        patch: 0,
        pre: semver::Prerelease::new(pre_b).unwrap_or_default(),
        build: semver::BuildMetadata::new(build_b).unwrap_or_default(),
    };
    va <= vb
}

/// Semantic-version order over parsed parts: the numeric triple decides
/// lexicographically; equal triples fall back to the tag order of the
/// `semver` crate.
pub open spec fn semver_le_parts(
    a: (u64, u64, u64, Seq<char>, Seq<char>),
    b: (u64, u64, u64, Seq<char>, Seq<char>),
) -> bool {
    if a.0 != b.0 {
        a.0 < b.0
    } else if a.1 != b.1 {
        a.1 < b.1
    } else if a.2 != b.2 {
        a.2 < b.2
    } else {
        semver_tail_le(a.3, a.4, b.3, b.4)
    }
}

/// Status of `latest` relative to `current`: when both parse as semantic
/// versions, the numeric delta decides; otherwise plain lexicographic
/// string comparison decides between up-to-date and unknown.
pub open spec fn classify_spec(current: Seq<char>, latest: Seq<char>) -> VersionStatus {
    match (semver_parse(current), semver_parse(latest)) {
        (Some(c), Some(l)) => if semver_le_parts(l, c) {
            VersionStatus::UpToDate
        } else if l.0 > c.0 {
            VersionStatus::Major
        } else if l.1 > c.1 {
            VersionStatus::Minor
        } else {
            VersionStatus::Patch
        },
        _ => if lex_le(latest, current) {
            VersionStatus::UpToDate
        } else {
            VersionStatus::Unknown
        },
    }
}

/// Classifies the delta between the declared and the latest version.
pub fn compare_versions(current: &str, latest: &str) -> (r: VersionStatus)
    ensures
        r == classify_spec(current@, latest@),
{
    let c = parse_semver(current);
    let l = parse_semver(latest);
    match (c, l) {
        (Some(cv), Some(lv)) => {
            let le: bool = if lv.major != cv.major {
                lv.major < cv.major
            } else if lv.minor != cv.minor {
                lv.minor < cv.minor
            } else if lv.patch != cv.patch {
                lv.patch < cv.patch
            } else {
                tail_le(lv.pre.as_str(), lv.build.as_str(), cv.pre.as_str(), cv.build.as_str())
            };
            if le {
                VersionStatus::UpToDate
            } else if lv.major > cv.major {
                VersionStatus::Major
            } else if lv.minor > cv.minor {
                VersionStatus::Minor
            } else {
                VersionStatus::Patch
            }
        },
        _ => {
            if str_le(latest, current) {
                VersionStatus::UpToDate
            } else {
                VersionStatus::Unknown
            }
        },
    }
}

/// Classification of two parseable versions is decided by their parts
/// alone: up-to-date exactly when `latest` does not exceed `current` in
/// the semantic-version order, major exactly on a major-number increase,
/// minor exactly on a minor-number increase within the same major, and
/// patch in every remaining case where `latest` exceeds `current`.
pub proof fn lemma_classification_characterization(
    current: Seq<char>,
    latest: Seq<char>,
    c: (u64, u64, u64, Seq<char>, Seq<char>),
    l: (u64, u64, u64, Seq<char>, Seq<char>),
)
    requires
        semver_parse(current) == Some(c),
        semver_parse(latest) == Some(l),
    ensures
        (classify_spec(current, latest) == VersionStatus::UpToDate) <==> semver_le_parts(l, c),
        (classify_spec(current, latest) == VersionStatus::Major) <==> l.0 > c.0,
        (classify_spec(current, latest) == VersionStatus::Minor) <==> (l.0 == c.0 && l.1 > c.1),
        (classify_spec(current, latest) == VersionStatus::Patch) <==> (!semver_le_parts(l, c)
            && l.0 == c.0 && l.1 <= c.1),
{
}

} // verus!
