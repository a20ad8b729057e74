//! Interactive application state: the record list, filtering, selection,
//! navigation, and sorting.

use vstd::prelude::*;
use vstd::string::*;
use fuzzy_matcher::FuzzyMatcher;
use crate::changelog::ChangelogFetcher;
use crate::models::{count_status, Package, UpgradeStats, VersionStatus};
use crate::popularity::PopularityChecker;
use crate::pypi::PyPIClient;
use crate::security::SecurityChecker;
use crate::text::{lex_le, lemma_lex_le_total, lemma_lex_le_trans, str_le};

verus! {

/// What the interactive session is doing.
#[derive(Debug, Clone, Copy, PartialEq, Eq, Structural)]
pub enum AppMode {
    Loading,
    Display,
    Search,
    Confirm,
    Upgrading,
    Done,
    GraphView,
    ChangelogView,
}

/// Which key orders the record list.
#[derive(Debug, Clone, Copy, PartialEq, Eq, Structural)]
pub enum SortBy {
    Name,
    Status,
    Current,
    Latest,
    Popularity,
}

/// The latest version used for ordering: the resolved one, or `0.0.0`.
pub open spec fn latest_key(p: Package) -> Seq<char> {
    match p.latest_version {
        Some(v) => v@,
        None => "0.0.0"@,
    }
}

/// The popularity used for ordering: weekly downloads, or zero.
pub open spec fn popularity_key(p: Package) -> u64 {
    match p.popularity {
        Some(pop) => pop.weekly_downloads,
        None => 0,
    }
}

/// The order the record list is sorted by, for each sort key. Popularity
/// sorts descending; every other key sorts ascending.
pub open spec fn pkg_le(a: Package, b: Package, by: SortBy) -> bool {
    match by {
        SortBy::Name => lex_le(a.name@, b.name@),
        SortBy::Status => a.status.priority_spec() <= b.status.priority_spec(),
        SortBy::Current => lex_le(a.current_version@, b.current_version@),
        SortBy::Latest => lex_le(latest_key(a), latest_key(b)),
        SortBy::Popularity => popularity_key(a) >= popularity_key(b),
    }
}

/// The sort order is total.
pub proof fn lemma_pkg_le_total(a: Package, b: Package, by: SortBy)
    ensures
        pkg_le(a, b, by) || pkg_le(b, a, by),
{
    match by {
        SortBy::Name => lemma_lex_le_total(a.name@, b.name@),
        SortBy::Current => lemma_lex_le_total(a.current_version@, b.current_version@),
        SortBy::Latest => lemma_lex_le_total(latest_key(a), latest_key(b)),
        _ => {},
    }
}

/// The sort order is transitive.
pub proof fn lemma_pkg_le_trans(a: Package, b: Package, c: Package, by: SortBy)
    requires
        pkg_le(a, b, by),
        pkg_le(b, c, by),
    ensures
        pkg_le(a, c, by),
{
    match by {
        SortBy::Name => lemma_lex_le_trans(a.name@, b.name@, c.name@),
        SortBy::Current => lemma_lex_le_trans(
            a.current_version@,
            b.current_version@,
            c.current_version@,
        ),
        SortBy::Latest => lemma_lex_le_trans(latest_key(a), latest_key(b), latest_key(c)),
        _ => {},
    }
}

/// Compares two records under the given sort key.
fn pkg_le_exec(a: &Package, b: &Package, by: SortBy) -> (r: bool)
    ensures
        r == pkg_le(*a, *b, by),
{
    match by {
        SortBy::Name => str_le(a.name.as_str(), b.name.as_str()),
        SortBy::Status => a.status.priority() <= b.status.priority(),
        SortBy::Current => str_le(a.current_version.as_str(), b.current_version.as_str()),
        SortBy::Latest => {
            let av: &str = match &a.latest_version {
                Some(v) => v.as_str(),
                None => "0.0.0",
            };
            let bv: &str = match &b.latest_version {
                Some(v) => v.as_str(),
                None => "0.0.0",
            };
            str_le(av, bv)
        },
        SortBy::Popularity => {
            let ap: u64 = match &a.popularity {
                Some(p) => p.weekly_downloads,
                None => 0,
            };
            let bp: u64 = match &b.popularity {
                Some(p) => p.weekly_downloads,
                None => 0,
            };
            ap >= bp
        },
    }
}

/// Whether the record sequence is sorted under the given key.
pub open spec fn sorted_by(s: Seq<Package>, by: SortBy) -> bool {
    forall|i: int, j: int| 0 <= i < j < s.len() ==> pkg_le(s[i], s[j], by)
}

/// Sorts the record list under the given key: the result is an ordered
/// rearrangement of the input.
pub fn sort_packages(v: &mut Vec<Package>, by: SortBy)
    ensures
        sorted_by(final(v)@, by),
        final(v)@.to_multiset() == old(v)@.to_multiset(),
        final(v)@.len() == old(v)@.len(),
{
    broadcast use vstd::seq_lib::group_to_multiset_ensures;

    let len = v.len();
    if len <= 1 {
        return ;
    }
    let mut i: usize = 1;
    while i < len
        invariant
            1 <= i <= len,
            len == v@.len(),
            v@.to_multiset() == old(v)@.to_multiset(),
            sorted_by(v@.take(i as int), by),
        decreases len - i,
    {
        let mut j: usize = i;
        while j > 0 && !pkg_le_exec(&v[j - 1], &v[i], by)
            invariant
                0 <= j <= i < len,
                len == v@.len(),
                sorted_by(v@.take(i as int), by),
                forall|k: int| j <= k < i ==> !pkg_le(v@[k], v@[i as int], by),
            decreases j,
        {
            j = j - 1;
        }
        let ghost prev = v@;
        if j < i {
            let x = v.remove(i);
            v.insert(j, x);
            proof {
                assert(v@ =~= prev.remove(i as int).insert(j as int, prev[i as int]));
                prev.to_multiset_ensures();
                vstd::seq_lib::to_multiset_insert(
                    prev.remove(i as int),
                    j as int,
                    prev[i as int],
                );
                assert(prev.to_multiset().contains(prev[i as int]));
                assert(v@.to_multiset() =~= prev.to_multiset());
            }
        }
        proof {
            let cur = v@.take(i + 1);
            assert forall|m: int, mm: int| 0 <= m < mm < i as int implies pkg_le(
                prev[m],
                prev[mm],
                by,
            ) by {
                assert(prev.take(i as int)[m] == prev[m]);
                assert(prev.take(i as int)[mm] == prev[mm]);
            }
            if j < i {
                let x = prev[i as int];
                prev.remove_ensures(i as int);
                prev.remove(i as int).insert_ensures(j as int, x);
                assert(v@ =~= prev.remove(i as int).insert(j as int, x));
                assert forall|m: int| 0 <= m < i + 1 implies cur[m] == (if m < j as int {
                    prev[m]
                } else if m == j as int {
                    x
                } else {
                    prev[m - 1]
                }) by {}
                assert forall|k: int, l: int| 0 <= k < l < i + 1 implies pkg_le(
                    cur[k],
                    cur[l],
                    by,
                ) by {
                    if l == j as int {
                        assert(pkg_le(prev[j - 1], x, by));
                        if k < j - 1 {
                            lemma_pkg_le_trans(prev[k], prev[j - 1], x, by);
                        }
                    } else if k == j as int {
                        assert(!pkg_le(prev[l - 1], x, by));
                        lemma_pkg_le_total(x, prev[l - 1], by);
                    }
                }
            } else {
                assert(cur =~= prev.take(i + 1));
                assert forall|k: int, l: int| 0 <= k < l < i + 1 implies pkg_le(
                    cur[k],
                    cur[l],
                    by,
                ) by {
                    assert(cur[k] == prev[k]);
                    assert(cur[l] == prev[l]);
                    if l == i as int {
                        assert(pkg_le(prev[i - 1], prev[i as int], by));
                        if k < i - 1 {
                            lemma_pkg_le_trans(prev[k], prev[i - 1], prev[i as int], by);
                        }
                    }
                }
            }
            assert(sorted_by(v@.take(i + 1), by));
        }
        i = i + 1;
    }
    proof {
        assert(v@.take(len as int) =~= v@);
    }
}

/// What `SkimMatcherV2::fuzzy_match` with default settings scores a
/// (text, pattern) pair: a function of the two strings alone, `None`
/// when the pattern does not match.
pub uninterp spec fn fuzzy_score(text: Seq<char>, pattern: Seq<char>) -> Option<i64>;

/// Relies on `SkimMatcherV2::fuzzy_match` with default settings: the
/// fuzzy match score of a pattern against a text.
#[verifier::external_body]
fn fuzzy_match_score(text: &str, pattern: &str) -> (r: Option<i64>)
    ensures
        r == fuzzy_score(text@, pattern@),
{
    fuzzy_matcher::skim::SkimMatcherV2::default().fuzzy_match(text, pattern)
}

/// The indices of the first `n` records that the search keeps: all of
/// them under an empty query, else those whose name the fuzzy matcher
/// scores.
pub open spec fn filtered_spec(packages: Seq<Package>, query: Seq<char>, n: int) -> Seq<usize>
    decreases n,
{
    if n <= 0 {
        Seq::empty()
    } else {
        filtered_spec(packages, query, n - 1) + if query.len() == 0 || fuzzy_score(
            packages[n - 1].name@,
            query,
        ) is Some {
            seq![(n - 1) as usize]
        } else {
            Seq::empty()
        }
    }
}

/// The record set with the records at the given indices selected, when
/// they satisfy the given rule: with a status rule only records of that
/// status are selected; without one, every resolved record is.
pub open spec fn select_in(
    packages: Seq<Package>,
    idxs: Seq<usize>,
    rule: Option<VersionStatus>,
    n: int,
) -> Seq<Package>
    decreases n,
{
    if n <= 0 {
        packages
    } else {
        let prev = select_in(packages, idxs, rule, n - 1);
        let idx = idxs[n - 1] as int;
        if 0 <= idx < prev.len() && (match rule {
            Some(st) => prev[idx].status == st,
            None => prev[idx].latest_version is Some,
        }) {
            prev.update(idx, Package { selected: true, ..prev[idx] })
        } else {
            prev
        }
    }
}

/// The interactive application state: the record list with its filtered
/// view, selection and navigation state, and the enrichment clients.
pub struct App {
    pub mode: AppMode,
    pub requirements_path: String,
    pub packages: Vec<Package>,
    pub filtered_packages: Vec<usize>,
    pub selected_index: usize,
    pub search_query: String,
    pub stats: UpgradeStats,
    pub sort_by: SortBy,
    pub dry_run: bool,
    pub loading_message: String,
    pub error_message: Option<String>,
    pub success_message: Option<String>,
    pub pypi_client: PyPIClient,
    pub security_checker: SecurityChecker,
    pub changelog_fetcher: ChangelogFetcher,
    pub popularity_checker: PopularityChecker,
    pub backup_path: Option<String>,
    pub lock_file_path: Option<String>,
}

impl App {
    /// A fresh session on the given manifest path: loading, nothing
    /// parsed, nothing cached, sorted by status.
    pub fn new(requirements_path: String) -> (r: App)
        ensures
            r.mode == AppMode::Loading,
            r.requirements_path@ == requirements_path@,
            r.packages@.len() == 0,
            r.filtered_packages@.len() == 0,
            r.selected_index == 0,
            r.search_query@.len() == 0,
            r.stats.total == 0,
            r.sort_by == SortBy::Status,
            !r.dry_run,
            r.loading_message@ == "Parsing requirements.txt..."@,
            r.error_message is None,
            r.success_message is None,
            r.pypi_client.spec_cache().len() == 0,
            r.security_checker.spec_cache().len() == 0,
            r.changelog_fetcher.spec_cache().len() == 0,
            r.popularity_checker.spec_cache().len() == 0,
            r.backup_path is None,
            r.lock_file_path is None,
    {
        App {
            mode: AppMode::Loading,
            requirements_path,
            packages: Vec::new(),
            filtered_packages: Vec::new(),
            selected_index: 0,
            search_query: String::new(),
            stats: UpgradeStats {
                total: 0,
                patch_available: 0,
                minor_available: 0,
                major_available: 0,
                up_to_date: 0,
                errors: 0,
                vulnerable: 0,
                conflicts: 0,
            },
            sort_by: SortBy::Status,
            dry_run: false,
            loading_message: "Parsing requirements.txt...".to_owned(),
            error_message: None,
            success_message: None,
            pypi_client: PyPIClient::new(),
            security_checker: SecurityChecker::new(),
            changelog_fetcher: ChangelogFetcher::new(),
            popularity_checker: PopularityChecker::new(),
            backup_path: None,
            lock_file_path: None,
        }
    }

    /// Rebuilds the filtered view from the current query and resets the
    /// cursor.
    pub fn refresh_filtered_packages(&mut self)
        ensures
            final(self).filtered_packages@ == filtered_spec(
                old(self).packages@,
                old(self).search_query@,
                old(self).packages@.len() as int,
            ),
            final(self).selected_index == 0,
            *final(self) == (App {
                filtered_packages: final(self).filtered_packages,
                selected_index: 0,
                ..*old(self)
            }),
    {
        let mut filtered: Vec<usize> = Vec::new();
        let n = self.packages.len();
        let query_empty = self.search_query.as_str().unicode_len() == 0;
        let mut i: usize = 0;
        proof {
            assert(filtered@ =~= filtered_spec(self.packages@, self.search_query@, 0));
        }
        while i < n
            invariant
                i <= n,
                n == self.packages@.len(),
                *self == *old(self),
                query_empty == (self.search_query@.len() == 0),
                filtered@ == filtered_spec(self.packages@, self.search_query@, i as int),
            decreases n - i,
        {
            let keep = if query_empty {
                true
            } else {
                match fuzzy_match_score(
                    self.packages[i].name.as_str(),
                    self.search_query.as_str(),
                ) {
                    Some(_) => true,
                    None => false,
                }
            };
            if keep {
                filtered.push(i);
                proof {
                    assert(filtered@ =~= filtered_spec(
                        self.packages@,
                        self.search_query@,
                        i + 1,
                    ));
                }
            }
            i = i + 1;
        }
        self.filtered_packages = filtered;
        self.selected_index = 0;
    }

    /// Recomputes the aggregate statistics from the record set.
    pub fn update_stats(&mut self)
        ensures
            final(self).stats.total == old(self).packages@.len(),
            final(self).stats.patch_available == count_status(
                old(self).packages@,
                VersionStatus::Patch,
            ),
            final(self).stats.minor_available == count_status(
                old(self).packages@,
                VersionStatus::Minor,
            ),
            final(self).stats.major_available == count_status(
                old(self).packages@,
                VersionStatus::Major,
            ),
            final(self).stats.up_to_date == count_status(
                old(self).packages@,
                VersionStatus::UpToDate,
            ),
            final(self).stats.errors == count_status(old(self).packages@, VersionStatus::Error),
            final(self).stats.vulnerable == count_status(
                old(self).packages@,
                VersionStatus::Vulnerable,
            ),
            final(self).stats.conflicts == 0,
            *final(self) == (App { stats: final(self).stats, ..*old(self) }),
    {
        self.stats = UpgradeStats::new(self.packages.as_slice());
    }

    /// Installs a parsed record set and derives its view and statistics.
    pub fn set_packages(&mut self, packages: Vec<Package>)
        ensures
            final(self).packages@ == packages@,
            final(self).filtered_packages@ == filtered_spec(
                packages@,
                old(self).search_query@,
                packages@.len() as int,
            ),
            final(self).selected_index == 0,
            final(self).stats.total == packages@.len(),
    {
        self.packages = packages;
        self.refresh_filtered_packages();
        self.update_stats();
    }

    /// Re-sorts the record set under the current key and rebuilds the
    /// filtered view.
    pub fn apply_sort(&mut self)
        ensures
            sorted_by(final(self).packages@, old(self).sort_by),
            final(self).packages@.to_multiset() == old(self).packages@.to_multiset(),
            final(self).filtered_packages@ == filtered_spec(
                final(self).packages@,
                old(self).search_query@,
                final(self).packages@.len() as int,
            ),
            final(self).selected_index == 0,
    {
        let by = self.sort_by;
        sort_packages(&mut self.packages, by);
        self.refresh_filtered_packages();
    }

    /// Flips the selection of the record under the cursor, when the
    /// cursor points at one.
    pub fn toggle_selected(&mut self)
        ensures
            ({
                let idxs = old(self).filtered_packages@;
                let cur = old(self).selected_index as int;
                if 0 <= cur < idxs.len() && (idxs[cur] as int) < old(self).packages@.len() {
                    let p = idxs[cur] as int;
                    *final(self) == (App {
                        packages: final(self).packages,
                        ..*old(self)
                    }) && final(self).packages@ == old(self).packages@.update(
                        p,
                        Package {
                            selected: !old(self).packages@[p].selected,
                            ..old(self).packages@[p]
                        },
                    )
                } else {
                    *final(self) == *old(self)
                }
            }),
    {
        if self.selected_index < self.filtered_packages.len() {
            let idx = self.filtered_packages[self.selected_index];
            if idx < self.packages.len() {
                let flipped = !self.packages[idx].selected;
                let mut pkg = self.packages.remove(idx);
                pkg.selected = flipped;
                self.packages.insert(idx, pkg);
                proof {
                    assert(self.packages@ =~= old(self).packages@.update(
                        idx as int,
                        Package {
                            selected: !old(self).packages@[idx as int].selected,
                            ..old(self).packages@[idx as int]
                        },
                    ));
                }
            }
        }
    }

    /// Selects the filtered records that the rule admits.
    fn select_matching(&mut self, rule: Option<VersionStatus>)
        ensures
            final(self).packages@ == select_in(
                old(self).packages@,
                old(self).filtered_packages@,
                rule,
                old(self).filtered_packages@.len() as int,
            ),
            *final(self) == (App { packages: final(self).packages, ..*old(self) }),
    {
        let mut k: usize = 0;
        let total = self.filtered_packages.len();
        proof {
            assert(self.packages@ =~= select_in(
                self.packages@,
                self.filtered_packages@,
                rule,
                0,
            ));
        }
        while k < total
            invariant
                k <= total,
                total == self.filtered_packages@.len(),
                self.filtered_packages@ == old(self).filtered_packages@,
                self.packages@ == select_in(
                    old(self).packages@,
                    old(self).filtered_packages@,
                    rule,
                    k as int,
                ),
                *self == (App { packages: self.packages, ..*old(self) }),
            decreases total - k,
        {
            let idx = self.filtered_packages[k];
            if idx < self.packages.len() {
                let selectable = match rule {
                    Some(st) => self.packages[idx].status == st,
                    None => match &self.packages[idx].latest_version {
                        Some(_) => true,
                        None => false,
                    },
                };
                if selectable {
                    let ghost before = self.packages@;
                    let mut pkg = self.packages.remove(idx);
                    pkg.selected = true;
                    self.packages.insert(idx, pkg);
                    proof {
                        assert(self.packages@ =~= before.update(
                            idx as int,
                            Package { selected: true, ..before[idx as int] },
                        ));
                    }
                }
            }
            k = k + 1;
        }
    }

    /// Selects every filtered record that has a resolved latest version.
    pub fn select_all(&mut self)
        ensures
            final(self).packages@ == select_in(
                old(self).packages@,
                old(self).filtered_packages@,
                None,
                old(self).filtered_packages@.len() as int,
            ),
            *final(self) == (App { packages: final(self).packages, ..*old(self) }),
    {
        self.select_matching(None);
    }

    /// Selects every filtered record with a pending major upgrade.
    pub fn select_all_major(&mut self)
        ensures
            final(self).packages@ == select_in(
                old(self).packages@,
                old(self).filtered_packages@,
                Some(VersionStatus::Major),
                old(self).filtered_packages@.len() as int,
            ),
            *final(self) == (App { packages: final(self).packages, ..*old(self) }),
    {
        self.select_matching(Some(VersionStatus::Major));
    }

    /// Selects every filtered record with a pending minor upgrade.
    pub fn select_all_minor(&mut self)
        ensures
            final(self).packages@ == select_in(
                old(self).packages@,
                old(self).filtered_packages@,
                Some(VersionStatus::Minor),
                old(self).filtered_packages@.len() as int,
            ),
            *final(self) == (App { packages: final(self).packages, ..*old(self) }),
    {
        self.select_matching(Some(VersionStatus::Minor));
    }

    /// Selects every filtered record with a pending patch upgrade.
    pub fn select_all_patch(&mut self)
        ensures
            final(self).packages@ == select_in(
                old(self).packages@,
                old(self).filtered_packages@,
                Some(VersionStatus::Patch),
                old(self).filtered_packages@.len() as int,
            ),
            *final(self) == (App { packages: final(self).packages, ..*old(self) }),
    {
        self.select_matching(Some(VersionStatus::Patch));
    }

    /// Clears every selection.
    pub fn deselect_all(&mut self)
        ensures
            final(self).packages@.len() == old(self).packages@.len(),
            forall|k: int|
                0 <= k < old(self).packages@.len() ==> final(self).packages@[k] == (Package {
                    selected: false,
                    ..old(self).packages@[k]
                }),
            *final(self) == (App { packages: final(self).packages, ..*old(self) }),
    {
        let n = self.packages.len();
        let mut i: usize = 0;
        while i < n
            invariant
                i <= n,
                n == self.packages@.len(),
                n == old(self).packages@.len(),
                forall|k: int|
                    0 <= k < i ==> self.packages@[k] == (Package {
                        selected: false,
                        ..old(self).packages@[k]
                    }),
                forall|k: int| i <= k < n ==> self.packages@[k] == old(self).packages@[k],
                *self == (App { packages: self.packages, ..*old(self) }),
            decreases n - i,
        {
            let mut pkg = self.packages.remove(i);
            pkg.selected = false;
            self.packages.insert(i, pkg);
            proof {
                assert forall|k: int| 0 <= k < i + 1 implies self.packages@[k] == (Package {
                    selected: false,
                    ..old(self).packages@[k]
                }) by {}
            }
            i = i + 1;
        }
    }

    /// Moves the cursor one row up.
    pub fn move_up(&mut self)
        ensures
            final(self).selected_index == (if old(self).selected_index > 0 {
                old(self).selected_index - 1
            } else {
                0int
            }),
            *final(self) == (App { selected_index: final(self).selected_index, ..*old(self) }),
    {
        if self.selected_index > 0 {
            self.selected_index = self.selected_index - 1;
        }
    }

    /// Moves the cursor one row down, within the filtered view.
    pub fn move_down(&mut self)
        ensures
            final(self).selected_index == (if (old(self).selected_index as int) < old(
                self,
            ).filtered_packages@.len() - 1 {
                old(self).selected_index + 1
            } else {
                old(self).selected_index as int
            }),
            *final(self) == (App { selected_index: final(self).selected_index, ..*old(self) }),
    {
        if self.filtered_packages.len() > 0 && self.selected_index < self.filtered_packages.len()
            - 1 {
            self.selected_index = self.selected_index + 1;
        }
    }

    /// Moves the cursor ten rows up.
    pub fn page_up(&mut self)
        ensures
            final(self).selected_index == (if old(self).selected_index >= 10 {
                old(self).selected_index - 10
            } else {
                0int
            }),
            *final(self) == (App { selected_index: final(self).selected_index, ..*old(self) }),
    {
        if self.selected_index >= 10 {
            self.selected_index = self.selected_index - 10;
        } else {
            self.selected_index = 0;
        }
    }

    /// Moves the cursor ten rows down, within the filtered view.
    pub fn page_down(&mut self)
        ensures
            ({
                let max = if old(self).filtered_packages@.len() > 0 {
                    old(self).filtered_packages@.len() - 1
                } else {
                    0int
                };
                let stepped = old(self).selected_index + 10;
                final(self).selected_index == (if stepped < max {
                    stepped
                } else {
                    max
                })
            }),
            *final(self) == (App { selected_index: final(self).selected_index, ..*old(self) }),
    {
        let max = if self.filtered_packages.len() > 0 {
            self.filtered_packages.len() - 1
        } else {
            0
        };
        if self.selected_index <= usize::MAX - 10 && self.selected_index + 10 < max {
            self.selected_index = self.selected_index + 10;
        } else {
            self.selected_index = max;
        }
    }

    /// Moves the cursor to the first row.
    pub fn home(&mut self)
        ensures
            final(self).selected_index == 0,
            *final(self) == (App { selected_index: 0, ..*old(self) }),
    {
        self.selected_index = 0;
    }

    /// Moves the cursor to the last row of the filtered view.
    pub fn end(&mut self)
        ensures
            final(self).selected_index == (if old(self).filtered_packages@.len() > 0 {
                old(self).filtered_packages@.len() - 1
            } else {
                0int
            }),
            *final(self) == (App { selected_index: final(self).selected_index, ..*old(self) }),
    {
        if self.filtered_packages.len() > 0 {
            self.selected_index = self.filtered_packages.len() - 1;
        } else {
            self.selected_index = 0;
        }
    }

    /// The record under the cursor, when the cursor points at one.
    pub fn get_selected_package_ref(&self) -> (r: Option<&Package>)
        ensures
            ({
                let idxs = self.filtered_packages@;
                let cur = self.selected_index as int;
                if 0 <= cur < idxs.len() && (idxs[cur] as int) < self.packages@.len() {
                    r matches Some(p) && *p == self.packages@[idxs[cur] as int]
                } else {
                    r is None
                }
            }),
    {
        if self.selected_index < self.filtered_packages.len() {
            let idx = self.filtered_packages[self.selected_index];
            if idx < self.packages.len() {
                return Some(&self.packages[idx]);
            }
            return None;
        }
        None
    }

    /// The selected records, in record order.
    pub fn get_selected_packages(&self) -> (r: Vec<&Package>)
        ensures
            r@.len() == crate::simulator::count_selected(self.packages@),
            forall|k: int| 0 <= k < r@.len() ==> (#[trigger] r@[k]).selected,
    {
        let n = self.packages.len();
        let mut out: Vec<&Package> = Vec::new();
        let mut i: usize = 0;
        while i < n
            invariant
                i <= n,
                n == self.packages@.len(),
                out@.len() == crate::simulator::count_selected(self.packages@.take(i as int)),
                forall|k: int| 0 <= k < out@.len() ==> (#[trigger] out@[k]).selected,
            decreases n - i,
        {
            proof {
                assert(self.packages@.take(i + 1).drop_last() =~= self.packages@.take(i as int));
                assert(self.packages@.take(i + 1).last() == self.packages@[i as int]);
            }
            if self.packages[i].selected {
                out.push(&self.packages[i]);
            }
            i = i + 1;
        }
        proof {
            assert(self.packages@.take(n as int) =~= self.packages@);
        }
        out
    }

    /// Number of selected records.
    pub fn count_selected(&self) -> (r: usize)
        ensures
            r == crate::simulator::count_selected(self.packages@),
    {
        let n = self.packages.len();
        let mut count: usize = 0;
        let mut i: usize = 0;
        while i < n
            invariant
                i <= n,
                n == self.packages@.len(),
                count == crate::simulator::count_selected(self.packages@.take(i as int)),
            decreases n - i,
        {
            proof {
                crate::simulator::lemma_count_selected_status_le(
                    self.packages@.take(i as int),
                    VersionStatus::Major,
                );
                assert(self.packages@.take(i + 1).drop_last() =~= self.packages@.take(i as int));
                assert(self.packages@.take(i + 1).last() == self.packages@[i as int]);
            }
            if self.packages[i].selected {
                count = count + 1;
            }
            i = i + 1;
        }
        proof {
            assert(self.packages@.take(n as int) =~= self.packages@);
        }
        count
    }

    /// Whether any record has a resolved latest version.
    pub fn has_upgradable_packages(&self) -> (r: bool)
        ensures
            r == exists|k: int|
                0 <= k < self.packages@.len() && (#[trigger] self.packages@[k]).latest_version
                    is Some,
    {
        let n = self.packages.len();
        let mut i: usize = 0;
        while i < n
            invariant
                i <= n,
                n == self.packages@.len(),
                forall|k: int|
                    0 <= k < i ==> (#[trigger] self.packages@[k]).latest_version is None,
            decreases n - i,
        {
            let upgradable = match &self.packages[i].latest_version {
                Some(_) => true,
                None => false,
            };
            if upgradable {
                return true;
            }
            i = i + 1;
        }
        false
    }

    /// Clears both transient messages.
    pub fn clear_messages(&mut self)
        ensures
            final(self).error_message is None,
            final(self).success_message is None,
            *final(self) == (App { error_message: None, success_message: None, ..*old(self) }),
    {
        self.error_message = None;
        self.success_message = None;
    }

    /// Shows an error message.
    pub fn set_error(&mut self, error: String)
        ensures
            final(self).error_message matches Some(e) && e@ == error@,
            *final(self) == (App {
                error_message: final(self).error_message,
                ..*old(self)
            }),
    {
        self.error_message = Some(error);
    }

    /// Shows a success message.
    pub fn set_success(&mut self, message: String)
        ensures
            final(self).success_message matches Some(m) && m@ == message@,
            *final(self) == (App {
                success_message: final(self).success_message,
                ..*old(self)
            }),
    {
        self.success_message = Some(message);
    }
}

} // verus!
