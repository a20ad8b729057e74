//! The advisory checker: parses vulnerability-database responses into
//! advisories and applies them to records, best-effort — a failed lookup
//! never fails the record, it only leaves its security state unknown.

use vstd::prelude::*;
use vstd::string::*;
use crate::jsonval::{json_ok, json_vuln_rows, vuln_rows_of};
use crate::models::{Package, SecurityAdvisory, SecurityStatus, Severity};
use crate::text::str_eq;

verus! {

/// The first cached advisory list for a name, searching from `i`.
pub open spec fn adv_lookup(
    cache: Seq<(Seq<char>, Vec<SecurityAdvisory>)>,
    name: Seq<char>,
    i: int,
) -> Option<Vec<SecurityAdvisory>>
    decreases cache.len() - i,
{
    if i < 0 || i >= cache.len() {
        None
    } else if cache[i].0 == name {
        Some(cache[i].1)
    } else {
        adv_lookup(cache, name, i + 1)
    }
}

/// The security status an advisory list implies: safe when empty, else
/// vulnerable with the advisory count.
pub open spec fn status_of_advisories(advisories: Vec<SecurityAdvisory>) -> SecurityStatus {
    if advisories@.len() == 0 {
        SecurityStatus::Safe
    } else {
        SecurityStatus::Vulnerable { cve_count: advisories@.len() as usize }
    }
}

/// A record with its security status replaced.
pub open spec fn with_security_status(pkg: Package, st: SecurityStatus) -> Package {
    Package { security_status: st, ..pkg }
}

/// The severity a database severity label maps to: unrecognized labels
/// rank low.
pub open spec fn severity_of_label(s: Seq<char>) -> Severity {
    if s == "CRITICAL"@ {
        Severity::Critical
    } else if s == "HIGH"@ {
        Severity::High
    } else if s == "MEDIUM"@ {
        Severity::Medium
    } else {
        Severity::Low
    }
}

/// Whether `a` is the advisory built from one (id, summary, severity)
/// row of a database response: the link points at the advisory's own
/// identifier, and the fields the response does not carry stay empty.
pub open spec fn advisory_of_row(a: SecurityAdvisory, row: (Seq<char>, Seq<char>, Seq<char>)) -> bool {
    &&& a.id@ == row.0
    &&& a.title@ == row.1
    &&& a.severity == severity_of_label(row.2)
    &&& a.url@ == "https://osv.dev/"@ + row.0
    &&& a.affected_versions@.len() == 0
    &&& a.fixed_version is None
}

/// Parses a vulnerability-database response: `None` on unparseable JSON;
/// otherwise one advisory per well-formed entry of the `vulns` array, in
/// order (an absent or empty array means no known vulnerabilities).
pub fn parse_advisories(body: &str) -> (r: Option<Vec<SecurityAdvisory>>)
    ensures
        r is Some <==> json_ok(body@),
        r matches Some(advs) ==> (vuln_rows_of(body@) matches Some(rows) && advs@.len()
            == rows.len() && forall|k: int|
            0 <= k < rows.len() ==> advisory_of_row(#[trigger] advs@[k], rows[k])),
{
    let rows = match json_vuln_rows(body) {
        Some(rows) => rows,
        None => {
            return None;
        },
    };
    let ghost row_views = rows.deep_view();
    let mut advisories: Vec<SecurityAdvisory> = Vec::new();
    let mut i: usize = 0;
    while i < rows.len()
        invariant
            i <= rows@.len(),
            row_views == rows.deep_view(),
            advisories@.len() == i,
            forall|k: int|
                0 <= k < i ==> advisory_of_row(#[trigger] advisories@[k], row_views[k]),
        decreases rows@.len() - i,
    {
        proof {
            assert(row_views[i as int] == (rows@[i as int].0@, rows@[i as int].1@, rows@[
                i as int].2@));
        }
        let row = &rows[i];
        let severity = if str_eq(row.2.as_str(), "CRITICAL") {
            Severity::Critical
        } else if str_eq(row.2.as_str(), "HIGH") {
            Severity::High
        } else if str_eq(row.2.as_str(), "MEDIUM") {
            Severity::Medium
        } else {
            Severity::Low
        };
        let advisory = SecurityAdvisory {
            id: row.0.clone(),
            title: row.1.clone(),
            severity,
            affected_versions: Vec::new(),
            fixed_version: None,
            url: "https://osv.dev/".to_owned().concat(row.0.as_str()),
        };
        advisories.push(advisory);
        i = i + 1;
    }
    Some(advisories)
}

/// The advisory checker and its per-name response cache.
pub struct SecurityChecker {
    cache: Vec<(String, Vec<SecurityAdvisory>)>,
}

impl SecurityChecker {
    /// The cache contents: name views with their advisory lists.
    pub closed spec fn spec_cache(self) -> Seq<(Seq<char>, Vec<SecurityAdvisory>)> {
        Seq::new(self.cache@.len(), |i: int| (self.cache@[i].0@, self.cache@[i].1))
    }

    /// A fresh checker with an empty cache.
    pub fn new() -> (r: SecurityChecker)
        ensures
            r.spec_cache() == Seq::<(Seq<char>, Vec<SecurityAdvisory>)>::empty(),
    {
        let r = SecurityChecker { cache: Vec::new() };
        proof {
            assert(r.spec_cache() =~= Seq::<(Seq<char>, Vec<SecurityAdvisory>)>::empty());
        }
        r
    }

    /// Whether checking this record would need a database query: only
    /// index-source records are checked, and a cached name is not
    /// re-queried.
    pub fn needs_fetch(&self, pkg: &Package) -> (r: bool)
        ensures
            r == (pkg.is_index_source() && adv_lookup(self.spec_cache(), pkg.name@, 0) is None),
    {
        let is_index = match &pkg.source {
            crate::models::DependencySource::PyPI => true,
            _ => false,
        };
        if !is_index {
            return false;
        }
        let mut i: usize = 0;
        while i < self.cache.len()
            invariant
                i <= self.cache@.len(),
                adv_lookup(self.spec_cache(), pkg.name@, 0) == adv_lookup(
                    self.spec_cache(),
                    pkg.name@,
                    i as int,
                ),
            decreases self.cache@.len() - i,
        {
            proof {
                assert(self.spec_cache()[i as int] == (self.cache@[i as int].0@, self.cache@[
                    i as int].1));
            }
            if str_eq(self.cache[i].0.as_str(), pkg.name.as_str()) {
                return false;
            }
            i = i + 1;
        }
        true
    }

    /// Applies the cached advisories to an index-source record; a record
    /// from another source, or one whose name is not cached, is left
    /// untouched.
    pub fn check_cached(&self, pkg: &mut Package)
        ensures
            !old(pkg).is_index_source() ==> *final(pkg) == *old(pkg),
            old(pkg).is_index_source() && adv_lookup(self.spec_cache(), old(pkg).name@, 0)
                is None ==> *final(pkg) == *old(pkg),
            old(pkg).is_index_source() ==> (adv_lookup(self.spec_cache(), old(pkg).name@, 0)
                matches Some(advs) ==> *final(pkg) == with_security_status(
                *old(pkg),
                status_of_advisories(advs),
            )),
    {
        let is_index = match &pkg.source {
            crate::models::DependencySource::PyPI => true,
            _ => false,
        };
        if !is_index {
            return ;
        }
        let mut i: usize = 0;
        while i < self.cache.len()
            invariant
                i <= self.cache@.len(),
                *pkg == *old(pkg),
                old(pkg).is_index_source(),
                adv_lookup(self.spec_cache(), old(pkg).name@, 0) == adv_lookup(
                    self.spec_cache(),
                    old(pkg).name@,
                    i as int,
                ),
            decreases self.cache@.len() - i,
        {
            proof {
                assert(self.spec_cache()[i as int] == (self.cache@[i as int].0@, self.cache@[
                    i as int].1));
            }
            if str_eq(self.cache[i].0.as_str(), pkg.name.as_str()) {
                if self.cache[i].1.len() == 0 {
                    pkg.security_status = SecurityStatus::Safe;
                } else {
                    pkg.security_status = SecurityStatus::Vulnerable {
                        cve_count: self.cache[i].1.len(),
                    };
                }
                proof {
                    assert(adv_lookup(self.spec_cache(), old(pkg).name@, 0) == Some(
                        self.cache@[i as int].1,
                    ));
                }
                return ;
            }
            i = i + 1;
        }
    }

    /// Records a fetched advisory list for an uncached record: the cache
    /// gains the entry and the record's status follows the list. A failed
    /// fetch (`None`) leaves both as they stand — the status stays
    /// whatever it was, typically unknown.
    pub fn record_fetch(&mut self, pkg: &mut Package, advisories: Option<Vec<SecurityAdvisory>>)
        requires
            adv_lookup(old(self).spec_cache(), old(pkg).name@, 0) is None,
        ensures
            match advisories {
                Some(advs) => {
                    &&& *final(pkg) == with_security_status(
                        *old(pkg),
                        status_of_advisories(advs),
                    )
                    &&& final(self).spec_cache() == old(self).spec_cache().push(
                        (old(pkg).name@, advs),
                    )
                },
                None => {
                    &&& *final(pkg) == *old(pkg)
                    &&& final(self).spec_cache() == old(self).spec_cache()
                },
            },
    {
        match advisories {
            Some(advs) => {
                if advs.len() == 0 {
                    pkg.security_status = SecurityStatus::Safe;
                } else {
                    pkg.security_status = SecurityStatus::Vulnerable { cve_count: advs.len() };
                }
                let ghost before = self.spec_cache();
                let ghost advs_snapshot = advs;
                let entry = (pkg.name.clone(), advs);
                self.cache.push(entry);
                proof {
                    assert(self.spec_cache() =~= before.push((pkg.name@, advs_snapshot)));
                }
            },
            None => {},
        }
    }
}


impl Default for SecurityChecker {
    /// Same as `new`: a checker with an empty cache.
    fn default() -> (r: SecurityChecker)
        ensures
            r.spec_cache() == Seq::<(Seq<char>, Vec<SecurityAdvisory>)>::empty(),
    {
        SecurityChecker::new()
    }
}

} // verus!
