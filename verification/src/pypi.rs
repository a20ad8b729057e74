//! The index resolution client: a per-name cache of resolved latest
//! versions, the planning of which lookups need the network, the parsing
//! of index responses, and the single-threaded apply phase that writes
//! lookup outcomes back onto the records.

use vstd::prelude::*;
use vstd::string::*;
use crate::jsonval::{info_package_of, info_version_of, json_info_package, json_info_version};
use crate::models::{classify_spec, compare_versions, Package, VersionStatus};
use crate::resolver::first_package_named;
use crate::text::str_eq;

verus! {

/// The first cached version for a name, searching from `i`.
pub open spec fn cache_lookup(cache: Seq<(Seq<char>, Seq<char>)>, name: Seq<char>, i: int) -> Option<
    Seq<char>,
>
    decreases cache.len() - i,
{
    if i < 0 || i >= cache.len() {
        None
    } else if cache[i].0 == name {
        Some(cache[i].1)
    } else {
        cache_lookup(cache, name, i + 1)
    }
}

/// The cache after recording a resolution: an existing entry for the
/// name is replaced, else a new entry is appended.
pub open spec fn cache_insert(
    cache: Seq<(Seq<char>, Seq<char>)>,
    name: Seq<char>,
    version: Seq<char>,
) -> Seq<(Seq<char>, Seq<char>)>
    decreases cache.len(),
{
    if cache.len() == 0 {
        seq![(name, version)]
    } else if cache.first().0 == name {
        seq![(name, version)] + cache.drop_first()
    } else {
        seq![cache.first()] + cache_insert(cache.drop_first(), name, version)
    }
}

/// Recording a resolution makes its lookup succeed with that version.
pub proof fn lemma_cache_hit_after_record(
    cache: Seq<(Seq<char>, Seq<char>)>,
    name: Seq<char>,
    version: Seq<char>,
)
    ensures
        cache_lookup(cache_insert(cache, name, version), name, 0) == Some(version),
    decreases cache.len(),
{
    if cache.len() > 0 && cache.first().0 != name {
        lemma_cache_hit_after_record(cache.drop_first(), name, version);
        let inner = cache_insert(cache.drop_first(), name, version);
        let whole = seq![cache.first()] + inner;
        lemma_cache_lookup_shift(whole, name);
        assert(whole.drop_first() =~= inner);
    }
}

/// A lookup that skips a non-matching head searches the tail.
proof fn lemma_cache_lookup_shift(cache: Seq<(Seq<char>, Seq<char>)>, name: Seq<char>)
    requires
        cache.len() > 0,
        cache.first().0 != name,
    ensures
        cache_lookup(cache, name, 0) == cache_lookup(cache.drop_first(), name, 0),
{
    lemma_cache_lookup_shift_from(cache, name, 0);
}

/// Lookup from position `i + 1` equals lookup in the tail from `i`.
proof fn lemma_cache_lookup_shift_from(cache: Seq<(Seq<char>, Seq<char>)>, name: Seq<char>, i: int)
    requires
        cache.len() > 0,
        0 <= i,
        cache.first().0 != name,
    ensures
        cache_lookup(cache, name, i + 1) == cache_lookup(cache.drop_first(), name, i),
    decreases cache.len() - i,
{
    if i + 1 < cache.len() {
        assert(cache[i + 1] == cache.drop_first()[i]);
        if cache[i + 1].0 != name {
            lemma_cache_lookup_shift_from(cache, name, i + 1);
        }
    }
}

/// The record after one lookup outcome is applied to it: success sets
/// the latest version, classifies the delta, and clears the error;
/// failure records the message and marks the record in error, leaving
/// the last resolved version as it was. Nothing else changes — in
/// particular the source and the declared constraint stay untouched.
pub open spec fn applied_record(pkg: Package, outcome: Result<String, String>) -> Package {
    match outcome {
        Ok(v) => Package {
            latest_version: Some(v),
            status: classify_spec(pkg.current_version@, v@),
            error: None,
            ..pkg
        },
        Err(e) => Package { error: Some(e), status: VersionStatus::Error, ..pkg },
    }
}

/// The record set after a batch of named outcomes is applied in order:
/// each outcome goes to the first record with its name; an outcome whose
/// name matches no record changes nothing.
pub open spec fn apply_all(
    packages: Seq<Package>,
    outcomes: Seq<(String, Result<String, String>)>,
) -> Seq<Package>
    decreases outcomes.len(),
{
    if outcomes.len() == 0 {
        packages
    } else {
        let prev = apply_all(packages, outcomes.drop_last());
        match first_package_named(prev, outcomes.last().0@, 0) {
            Some(i) => prev.update(i, applied_record(prev[i], outcomes.last().1)),
            None => prev,
        }
    }
}

/// The cache after a batch of named outcomes is applied: each successful
/// resolution whose name matches a record is recorded, in order.
pub open spec fn apply_all_cache(
    packages: Seq<Package>,
    cache: Seq<(Seq<char>, Seq<char>)>,
    outcomes: Seq<(String, Result<String, String>)>,
) -> Seq<(Seq<char>, Seq<char>)>
    decreases outcomes.len(),
{
    if outcomes.len() == 0 {
        cache
    } else {
        let prev_pkgs = apply_all(packages, outcomes.drop_last());
        let prev_cache = apply_all_cache(packages, cache, outcomes.drop_last());
        if first_package_named(prev_pkgs, outcomes.last().0@, 0) is Some {
            match outcomes.last().1 {
                Ok(v) => cache_insert(prev_cache, outcomes.last().0@, v@),
                Err(_) => prev_cache,
            }
        } else {
            prev_cache
        }
    }
}

/// The names of the index-source records whose latest version is not yet
/// cached, in record order: the lookups that need the network.
pub open spec fn pending_lookups_spec(
    packages: Seq<Package>,
    cache: Seq<(Seq<char>, Seq<char>)>,
) -> Seq<Seq<char>>
    decreases packages.len(),
{
    if packages.len() == 0 {
        Seq::empty()
    } else {
        let rest = pending_lookups_spec(packages.drop_last(), cache);
        if packages.last().is_index_source() && cache_lookup(cache, packages.last().name@, 0)
            is None {
            rest.push(packages.last().name@)
        } else {
            rest
        }
    }
}

/// The index resolution client: the cache of last-known latest versions,
/// keyed by package name, persisting for the client's lifetime.
pub struct PyPIClient {
    cache: Vec<(String, String)>,
}

impl PyPIClient {
    /// The cache contents, as name and version views in insertion order.
    pub closed spec fn spec_cache(self) -> Seq<(Seq<char>, Seq<char>)> {
        Seq::new(self.cache@.len(), |i: int| (self.cache@[i].0@, self.cache@[i].1@))
    }

    /// A fresh client with an empty cache.
    pub fn new() -> (r: PyPIClient)
        ensures
            r.spec_cache() == Seq::<(Seq<char>, Seq<char>)>::empty(),
    {
        let r = PyPIClient { cache: Vec::new() };
        proof {
            assert(r.spec_cache() =~= Seq::<(Seq<char>, Seq<char>)>::empty());
        }
        r
    }

    /// Number of cached resolutions.
    pub fn cache_len(&self) -> (r: usize)
        ensures
            r == self.spec_cache().len(),
    {
        self.cache.len()
    }

    /// The cached latest version for a name, if any.
    pub fn lookup(&self, name: &str) -> (r: Option<String>)
        ensures
            match r {
                Some(v) => cache_lookup(self.spec_cache(), name@, 0) == Some(v@),
                None => cache_lookup(self.spec_cache(), name@, 0) is None,
            },
    {
        let mut i: usize = 0;
        while i < self.cache.len()
            invariant
                i <= self.cache@.len(),
                cache_lookup(self.spec_cache(), name@, 0) == cache_lookup(
                    self.spec_cache(),
                    name@,
                    i as int,
                ),
            decreases self.cache@.len() - i,
        {
            proof {
                assert(self.spec_cache()[i as int] == (self.cache@[i as int].0@, self.cache@[
                    i as int].1@));
            }
            if str_eq(self.cache[i].0.as_str(), name) {
                return Some(self.cache[i].1.clone());
            }
            i = i + 1;
        }
        None
    }

    /// Whether resolving this name would need a network call.
    pub fn needs_fetch(&self, name: &str) -> (r: bool)
        ensures
            r == (cache_lookup(self.spec_cache(), name@, 0) is None),
    {
        match self.lookup(name) {
            Some(_) => false,
            None => true,
        }
    }

    /// Records a resolved latest version in the cache.
    pub fn record(&mut self, name: &str, version: &str)
        ensures
            final(self).spec_cache() == cache_insert(old(self).spec_cache(), name@, version@),
    {
        let mut i: usize = 0;
        while i < self.cache.len()
            invariant
                i <= self.cache@.len(),
                forall|k: int| 0 <= k < i ==> (#[trigger] self.spec_cache()[k]).0 != name@,
                self.cache@ == old(self).cache@,
            decreases self.cache@.len() - i,
        {
            proof {
                assert(self.spec_cache()[i as int] == (self.cache@[i as int].0@, self.cache@[
                    i as int].1@));
            }
            if str_eq(self.cache[i].0.as_str(), name) {
                let ghost before = self.spec_cache();
                let entry = (name.to_owned(), version.to_owned());
                self.cache.set(i, entry);
                proof {
                    assert(self.spec_cache() =~= before.update(i as int, (name@, version@)));
                    lemma_cache_insert_at(before, name@, version@, i as int);
                }
                return ;
            }
            i = i + 1;
        }
        let ghost before = self.spec_cache();
        let entry = (name.to_owned(), version.to_owned());
        self.cache.push(entry);
        proof {
            assert(self.spec_cache() =~= before.push((name@, version@)));
            lemma_cache_insert_fresh(before, name@, version@);
        }
    }

    /// Forgets every cached resolution, forcing re-resolution.
    pub fn clear_cache(&mut self)
        ensures
            final(self).spec_cache() == Seq::<(Seq<char>, Seq<char>)>::empty(),
    {
        self.cache = Vec::new();
        proof {
            assert(self.spec_cache() =~= Seq::<(Seq<char>, Seq<char>)>::empty());
        }
    }

    /// The names that resolution still has to look up over the network:
    /// one per index-source record whose name is not cached.
    pub fn plan_lookups(&self, packages: &[Package]) -> (r: Vec<String>)
        ensures
            r.deep_view() == pending_lookups_spec(packages@, self.spec_cache()),
    {
        let mut out: Vec<String> = Vec::new();
        let mut i: usize = 0;
        proof {
            assert(packages@.take(0) =~= Seq::<Package>::empty());
            assert(out.deep_view() =~= pending_lookups_spec(packages@.take(0), self.spec_cache()));
        }
        while i < packages.len()
            invariant
                i <= packages@.len(),
                out.deep_view() == pending_lookups_spec(
                    packages@.take(i as int),
                    self.spec_cache(),
                ),
            decreases packages@.len() - i,
        {
            proof {
                assert(packages@.take(i + 1).drop_last() =~= packages@.take(i as int));
                assert(packages@.take(i + 1).last() == packages@[i as int]);
            }
            let ghost old_out = out;
            let is_index = match &packages[i].source {
                crate::models::DependencySource::PyPI => true,
                _ => false,
            };
            if is_index && self.needs_fetch(packages[i].name.as_str()) {
                out.push(packages[i].name.clone());
                proof {
                    assert(out.deep_view() =~= old_out.deep_view().push(
                        packages@[i as int].name@,
                    ));
                }
            }
            i = i + 1;
        }
        proof {
            assert(packages@.take(packages@.len() as int) =~= packages@);
        }
        out
    }
}

/// Replacing a matching entry in place is what `cache_insert` does when
/// the key sits at position `i` and nowhere earlier.
proof fn lemma_cache_insert_at(
    cache: Seq<(Seq<char>, Seq<char>)>,
    name: Seq<char>,
    version: Seq<char>,
    i: int,
)
    requires
        0 <= i < cache.len(),
        cache[i].0 == name,
        forall|k: int| 0 <= k < i ==> (#[trigger] cache[k]).0 != name,
    ensures
        cache.update(i, (name, version)) =~= cache_insert(cache, name, version),
    decreases cache.len(),
{
    if i == 0 {
        assert(cache_insert(cache, name, version) =~= seq![(name, version)] + cache.drop_first());
        assert(cache.update(0, (name, version)) =~= seq![(name, version)] + cache.drop_first());
    } else {
        assert(forall|k: int|
            0 <= k < i - 1 ==> (#[trigger] cache.drop_first()[k]).0 != name);
        assert(cache.drop_first()[i - 1] == cache[i]);
        lemma_cache_insert_at(cache.drop_first(), name, version, i - 1);
        assert(cache.update(i, (name, version)) =~= seq![cache.first()] + cache.drop_first()
            .update(i - 1, (name, version)));
    }
}

/// Appending is what `cache_insert` does when the key is absent.
proof fn lemma_cache_insert_fresh(
    cache: Seq<(Seq<char>, Seq<char>)>,
    name: Seq<char>,
    version: Seq<char>,
)
    requires
        forall|k: int| 0 <= k < cache.len() ==> (#[trigger] cache[k]).0 != name,
    ensures
        cache.push((name, version)) =~= cache_insert(cache, name, version),
    decreases cache.len(),
{
    if cache.len() > 0 {
        assert(forall|k: int|
            0 <= k < cache.drop_first().len() ==> (#[trigger] cache.drop_first()[k]).0 != name);
        lemma_cache_insert_fresh(cache.drop_first(), name, version);
        assert(cache.push((name, version)) =~= seq![cache.first()] + cache.drop_first().push(
            (name, version),
        ));
    }
}

/// The latest version in an index response body: the `info.version`
/// string, when the body is JSON of that shape.
pub fn extract_latest_version(body: &str) -> (r: Option<String>)
    ensures
        match r {
            Some(v) => info_version_of(body@) == Some(v@),
            None => info_version_of(body@) is None,
        },
{
    json_info_version(body)
}

/// The latest version and yanked flag in an index response body: the
/// `info.version` string with `info.yanked`, which defaults to false
/// when absent.
pub fn extract_package_info(body: &str) -> (r: Option<(String, bool)>)
    ensures
        match r {
            Some(p) => info_package_of(body@) == Some((p.0@, p.1)),
            None => info_package_of(body@) is None,
        },
{
    json_info_package(body)
}

/// Writes one lookup outcome onto a record: a resolved version sets and
/// classifies it and clears any error; a failure records the message and
/// marks the record in error.
pub fn apply_outcome(pkg: &mut Package, outcome: &Result<String, String>)
    ensures
        *final(pkg) == applied_record(*old(pkg), *outcome),
{
    match outcome {
        Ok(latest) => {
            let status = compare_versions(pkg.current_version.as_str(), latest.as_str());
            pkg.latest_version = Some(latest.clone());
            pkg.status = status;
            pkg.error = None;
        },
        Err(e) => {
            pkg.error = Some(e.clone());
            pkg.status = VersionStatus::Error;
        },
    }
}

impl PyPIClient {
    /// The apply phase: writes a settled batch of outcomes back onto the
    /// records, one at a time, joining each outcome to the first record
    /// with its name; successful resolutions are recorded in the cache.
    pub fn apply_outcomes(
        &mut self,
        packages: &mut Vec<Package>,
        outcomes: &Vec<(String, Result<String, String>)>,
    )
        ensures
            final(packages)@ == apply_all(old(packages)@, outcomes@),
            final(self).spec_cache() == apply_all_cache(
                old(packages)@,
                old(self).spec_cache(),
                outcomes@,
            ),
    {
        let mut i: usize = 0;
        proof {
            assert(outcomes@.take(0) =~= Seq::<(String, Result<String, String>)>::empty());
            assert(packages@ =~= apply_all(packages@, outcomes@.take(0)));
        }
        while i < outcomes.len()
            invariant
                i <= outcomes@.len(),
                packages@ == apply_all(old(packages)@, outcomes@.take(i as int)),
                self.spec_cache() == apply_all_cache(
                    old(packages)@,
                    old(self).spec_cache(),
                    outcomes@.take(i as int),
                ),
            decreases outcomes@.len() - i,
        {
            proof {
                assert(outcomes@.take(i + 1).drop_last() =~= outcomes@.take(i as int));
                assert(outcomes@.take(i + 1).last() == outcomes@[i as int]);
            }
            let name = &outcomes[i].0;
            match find_package_index_vec(packages, name.as_str()) {
                Some(pi) => {
                    proof {
                        crate::resolver::lemma_first_package_in_range(packages@, name@, 0);
                    }
                    let ghost before = packages@;
                    let outcome_ref = &outcomes[i].1;
                    if let Ok(v) = outcome_ref {
                        self.record(name.as_str(), v.as_str());
                    }
                    let mut pkg = packages.remove(pi);
                    apply_outcome(&mut pkg, outcome_ref);
                    packages.insert(pi, pkg);
                    proof {
                        assert(packages@ =~= before.update(
                            pi as int,
                            applied_record(before[pi as int], outcomes@[i as int].1),
                        ));
                    }
                },
                None => {},
            }
            i = i + 1;
        }
        proof {
            assert(outcomes@.take(outcomes@.len() as int) =~= outcomes@);
        }
    }
}

/// Finds the first record with the given name in a vector.
fn find_package_index_vec(packages: &Vec<Package>, name: &str) -> (r: Option<usize>)
    ensures
        match r {
            Some(i) => first_package_named(packages@, name@, 0) == Some(i as int),
            None => first_package_named(packages@, name@, 0) is None,
        },
{
    let mut i: usize = 0;
    while i < packages.len()
        invariant
            i <= packages@.len(),
            first_package_named(packages@, name@, 0) == first_package_named(
                packages@,
                name@,
                i as int,
            ),
        decreases packages@.len() - i,
    {
        if str_eq(packages[i].name.as_str(), name) {
            return Some(i);
        }
        i = i + 1;
    }
    None
}

/// Applying outcomes keeps the record count and changes nothing a
/// write-back collaborator depends on: every record keeps its name, its
/// source and its declared constraint.
pub proof fn lemma_apply_preserves_declaration(
    packages: Seq<Package>,
    outcomes: Seq<(String, Result<String, String>)>,
)
    ensures
        apply_all(packages, outcomes).len() == packages.len(),
        forall|k: int|
            0 <= k < packages.len() ==> {
                &&& (#[trigger] apply_all(packages, outcomes)[k]).name == packages[k].name
                &&& apply_all(packages, outcomes)[k].source == packages[k].source
                &&& apply_all(packages, outcomes)[k].constraint == packages[k].constraint
            },
    decreases outcomes.len(),
{
    if outcomes.len() > 0 {
        lemma_apply_preserves_declaration(packages, outcomes.drop_last());
        let prev = apply_all(packages, outcomes.drop_last());
        crate::resolver::lemma_first_package_in_range(prev, outcomes.last().0@, 0);
    }
}

/// A record whose name is absent from every outcome is left untouched.
pub proof fn lemma_absent_name_untouched(
    packages: Seq<Package>,
    outcomes: Seq<(String, Result<String, String>)>,
    k: int,
)
    requires
        0 <= k < packages.len(),
        forall|m: int| 0 <= m < outcomes.len() ==> (#[trigger] outcomes[m]).0@ != packages[k].name@,
    ensures
        apply_all(packages, outcomes).len() == packages.len(),
        apply_all(packages, outcomes)[k] == packages[k],
    decreases outcomes.len(),
{
    if outcomes.len() > 0 {
        assert(forall|m: int|
            0 <= m < outcomes.drop_last().len() ==> (#[trigger] outcomes.drop_last()[m]).0@
                != packages[k].name@);
        lemma_absent_name_untouched(packages, outcomes.drop_last(), k);
        lemma_apply_preserves_declaration(packages, outcomes.drop_last());
        let prev = apply_all(packages, outcomes.drop_last());
        match first_package_named(prev, outcomes.last().0@, 0) {
            Some(qi) => {
                crate::resolver::lemma_first_package_in_range(prev, outcomes.last().0@, 0);
                assert(prev[qi].name == packages[qi].name);
                assert(outcomes[outcomes.len() - 1].0@ != packages[k].name@);
                assert(qi != k);
            },
            None => {},
        }
    }
}

/// Resolving a name and recording it leaves nothing to plan for that
/// name: the next planning round issues no further lookup for it.
pub proof fn lemma_resolved_not_replanned(
    packages: Seq<Package>,
    cache: Seq<(Seq<char>, Seq<char>)>,
    name: Seq<char>,
    version: Seq<char>,
)
    ensures
        !pending_lookups_spec(packages, cache_insert(cache, name, version)).contains(name),
    decreases packages.len(),
{
    lemma_cache_hit_after_record(cache, name, version);
    lemma_pending_only_uncached(packages, cache_insert(cache, name, version), name);
}

/// A cached name never appears among the pending lookups.
proof fn lemma_pending_only_uncached(
    packages: Seq<Package>,
    cache: Seq<(Seq<char>, Seq<char>)>,
    name: Seq<char>,
)
    requires
        cache_lookup(cache, name, 0) is Some,
    ensures
        !pending_lookups_spec(packages, cache).contains(name),
    decreases packages.len(),
{
    if packages.len() > 0 {
        lemma_pending_only_uncached(packages.drop_last(), cache, name);
        let whole = pending_lookups_spec(packages, cache);
        let rest = pending_lookups_spec(packages.drop_last(), cache);
        if packages.last().is_index_source() && cache_lookup(cache, packages.last().name@, 0)
            is None {
            assert forall|k: int| 0 <= k < whole.len() implies whole[k] != name by {
                if k < rest.len() {
                    assert(whole[k] == rest[k]);
                    assert(rest.contains(rest[k]) == rest.contains(whole[k]));
                } else {
                    assert(whole[k] == packages.last().name@);
                }
            }
        } else {
            assert(whole =~= rest);
        }
    }
}


impl Default for PyPIClient {
    /// Same as `new`: a client with an empty cache.
    fn default() -> (r: PyPIClient)
        ensures
            r.spec_cache() == Seq::<(Seq<char>, Seq<char>)>::empty(),
    {
        PyPIClient::new()
    }
}

} // verus!
