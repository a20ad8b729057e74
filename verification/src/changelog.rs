//! The changelog fetcher: builds a release summary from an index
//! response and classifies it by case-insensitive keyword matching — a
//! deliberate heuristic, not a changelog parser.

use vstd::prelude::*;
use vstd::string::*;
use crate::jsonval::{info_summary_of, json_info_summary, json_ok};
use crate::models::Changelog;
use crate::text::{contains_sub, find_sub, lowercase, lower_of};

verus! {

/// The matches of the first `i` keywords against a lowercased text, each
/// reported with the given prefix.
pub open spec fn keyword_hits(
    text_lower: Seq<char>,
    keywords: Seq<Seq<char>>,
    prefix: Seq<char>,
    i: int,
) -> Seq<Seq<char>>
    decreases i,
{
    if i <= 0 {
        Seq::empty()
    } else {
        keyword_hits(text_lower, keywords, prefix, i - 1) + if contains_sub(
            text_lower,
            keywords[i - 1],
        ) {
            seq![prefix + keywords[i - 1]]
        } else {
            Seq::empty()
        }
    }
}

/// The keywords whose presence marks a breaking change.
pub open spec fn breaking_keywords() -> Seq<Seq<char>> {
    seq![
        "breaking change"@,
        "breaking changes"@,
        "removed"@,
        "incompatible"@,
        "deprecated in favor of"@,
    ]
}

/// The keywords whose presence marks a deprecation.
pub open spec fn deprecated_keywords() -> Seq<Seq<char>> {
    seq!["deprecated"@, "will be removed"@]
}

/// The keywords whose presence marks a security fix.
pub open spec fn security_keywords() -> Seq<Seq<char>> {
    seq!["security"@, "cve"@, "vulnerability"@, "fix vulnerability"@, "patch vulnerability"@]
}

/// The breaking-change findings for a text.
pub open spec fn breaking_spec(text: Seq<char>) -> Seq<Seq<char>> {
    keyword_hits(lower_of(text), breaking_keywords(), "Detected: "@, 5)
}

/// The deprecation findings for a text.
pub open spec fn deprecated_spec(text: Seq<char>) -> Seq<Seq<char>> {
    keyword_hits(lower_of(text), deprecated_keywords(), "Deprecated: "@, 2)
}

/// The security-fix findings for a text.
pub open spec fn security_spec(text: Seq<char>) -> Seq<Seq<char>> {
    keyword_hits(lower_of(text), security_keywords(), "Security fix: "@, 5)
}

/// Scans a lowercased text against a keyword list, reporting each match
/// under the given prefix.
fn scan_keywords(lower: &str, keywords: &Vec<&str>, prefix: &str) -> (r: Vec<String>)
    ensures
        r.deep_view() == keyword_hits(
            lower@,
            keywords.deep_view(),
            prefix@,
            keywords.deep_view().len() as int,
        ),
{
    let mut out: Vec<String> = Vec::new();
    let mut i: usize = 0;
    proof {
        assert(out.deep_view() =~= keyword_hits(lower@, keywords.deep_view(), prefix@, 0));
    }
    while i < keywords.len()
        invariant
            i <= keywords@.len(),
            out.deep_view() == keyword_hits(lower@, keywords.deep_view(), prefix@, i as int),
        decreases keywords@.len() - i,
    {
        proof {
            assert(keywords.deep_view()[i as int] == keywords@[i as int]@);
        }
        let ghost old_out = out;
        let hit = match find_sub(lower, keywords[i]) {
            Some(_) => true,
            None => false,
        };
        if hit {
            let finding = prefix.to_owned().concat(keywords[i]);
            out.push(finding);
            proof {
                assert(out.deep_view() =~= old_out.deep_view().push(
                    prefix@ + keywords.deep_view()[i as int],
                ));
            }
        }
        i = i + 1;
    }
    out
}

/// Finds the breaking-change keywords in a text, case-insensitively.
pub fn detect_breaking_changes(text: &str) -> (r: Vec<String>)
    ensures
        r.deep_view() == breaking_spec(text@),
{
    let keywords: Vec<&str> = vec![
        "breaking change",
        "breaking changes",
        "removed",
        "incompatible",
        "deprecated in favor of",
    ];
    proof {
        assert(keywords.deep_view() =~= breaking_keywords());
    }
    let lower = lowercase(text);
    scan_keywords(lower.as_str(), &keywords, "Detected: ")
}

/// Finds the deprecation keywords in a text, case-insensitively.
pub fn detect_deprecated(text: &str) -> (r: Vec<String>)
    ensures
        r.deep_view() == deprecated_spec(text@),
{
    let keywords: Vec<&str> = vec!["deprecated", "will be removed"];
    proof {
        assert(keywords.deep_view() =~= deprecated_keywords());
    }
    let lower = lowercase(text);
    scan_keywords(lower.as_str(), &keywords, "Deprecated: ")
}

/// Finds the security-fix keywords in a text, case-insensitively.
pub fn detect_security_fixes(text: &str) -> (r: Vec<String>)
    ensures
        r.deep_view() == security_spec(text@),
{
    let keywords: Vec<&str> = vec![
        "security",
        "cve",
        "vulnerability",
        "fix vulnerability",
        "patch vulnerability",
    ];
    proof {
        assert(keywords.deep_view() =~= security_keywords());
    }
    let lower = lowercase(text);
    scan_keywords(lower.as_str(), &keywords, "Security fix: ")
}

/// Relies on `chrono::Utc::now` and its date formatting: the current
/// date as text; nothing is promised of the value, which depends on the
/// clock.
#[verifier::external_body]
fn today_string() -> (r: String) {
    chrono::Utc::now().format("%Y-%m-%d").to_string()
}

/// Builds a changelog from an index response for one release: `None` on
/// unparseable JSON; otherwise the body's `info.summary` (or a fixed
/// placeholder where the body carries none) becomes the single change
/// entry, and the keyword heuristics classify it.
pub fn build_changelog(version: &str, body: &str) -> (r: Option<Changelog>)
    ensures
        r is Some <==> json_ok(body@),
        r matches Some(c) ==> {
            &&& c.version@ == version@
            &&& c.changes@.len() == 1
            &&& (info_summary_of(body@) matches Some(found) && c.changes@[0]@ == (match found {
                Some(s) => s,
                None => "No description available"@,
            }))
            &&& c.breaking_changes.deep_view() == breaking_spec(c.changes@[0]@)
            &&& c.deprecated.deep_view() == deprecated_spec(c.changes@[0]@)
            &&& c.security_fixes.deep_view() == security_spec(c.changes@[0]@)
        },
{
    let summary: String = match json_info_summary(body) {
        Some(found) => match found {
            Some(s) => s,
            None => "No description available".to_owned(),
        },
        None => {
            return None;
        },
    };
    let breaking_changes = detect_breaking_changes(summary.as_str());
    let deprecated = detect_deprecated(summary.as_str());
    let security_fixes = detect_security_fixes(summary.as_str());
    let mut changes: Vec<String> = Vec::new();
    changes.push(summary);
    Some(
        Changelog {
            version: version.to_owned(),
            release_date: today_string(),
            changes,
            breaking_changes,
            deprecated,
            security_fixes,
        },
    )
}

/// The first cached changelog for a key, searching from `i`; the cached
/// value itself may be `None` for a failed fetch.
pub open spec fn changelog_lookup(
    cache: Seq<(Seq<char>, Option<Changelog>)>,
    key: Seq<char>,
    i: int,
) -> Option<Option<Changelog>>
    decreases cache.len() - i,
{
    if i < 0 || i >= cache.len() {
        None
    } else if cache[i].0 == key {
        Some(cache[i].1)
    } else {
        changelog_lookup(cache, key, i + 1)
    }
}

/// The cache key for a package and version.
pub open spec fn changelog_key(package: Seq<char>, version: Seq<char>) -> Seq<char> {
    package + "-"@ + version
}

/// The changelog fetcher and its per-(package, version) response cache.
pub struct ChangelogFetcher {
    cache: Vec<(String, Option<Changelog>)>,
}

impl ChangelogFetcher {
    /// The cache contents: key views with their cached results.
    pub closed spec fn spec_cache(self) -> Seq<(Seq<char>, Option<Changelog>)> {
        Seq::new(self.cache@.len(), |i: int| (self.cache@[i].0@, self.cache@[i].1))
    }

    /// A fresh fetcher with an empty cache.
    pub fn new() -> (r: ChangelogFetcher)
        ensures
            r.spec_cache() == Seq::<(Seq<char>, Option<Changelog>)>::empty(),
    {
        let r = ChangelogFetcher { cache: Vec::new() };
        proof {
            assert(r.spec_cache() =~= Seq::<(Seq<char>, Option<Changelog>)>::empty());
        }
        r
    }

    /// The cached result for a package and version, if that pair was
    /// fetched before; the cached value itself may be `None` for a fetch
    /// that failed.
    pub fn lookup(&self, package: &str, version: &str) -> (r: Option<&Option<Changelog>>)
        ensures
            match r {
                Some(v) => changelog_lookup(
                    self.spec_cache(),
                    changelog_key(package@, version@),
                    0,
                ) == Some(*v),
                None => changelog_lookup(
                    self.spec_cache(),
                    changelog_key(package@, version@),
                    0,
                ) is None,
            },
    {
        let key = package.to_owned().concat("-").concat(version);
        let mut i: usize = 0;
        while i < self.cache.len()
            invariant
                i <= self.cache@.len(),
                key@ == changelog_key(package@, version@),
                changelog_lookup(self.spec_cache(), key@, 0) == changelog_lookup(
                    self.spec_cache(),
                    key@,
                    i as int,
                ),
            decreases self.cache@.len() - i,
        {
            proof {
                assert(self.spec_cache()[i as int] == (self.cache@[i as int].0@, self.cache@[
                    i as int].1));
            }
            if crate::text::str_eq(self.cache[i].0.as_str(), key.as_str()) {
                return Some(&self.cache[i].1);
            }
            i = i + 1;
        }
        None
    }

    /// Records a fetched (or failed) changelog for an uncached pair.
    pub fn record(&mut self, package: &str, version: &str, changelog: Option<Changelog>)
        ensures
            final(self).spec_cache() == old(self).spec_cache().push(
                (changelog_key(package@, version@), changelog),
            ),
    {
        let key = package.to_owned().concat("-").concat(version);
        let ghost before = self.spec_cache();
        let ghost value = changelog;
        let entry = (key, changelog);
        self.cache.push(entry);
        proof {
            assert(self.spec_cache() =~= before.push(
                (changelog_key(package@, version@), value),
            ));
        }
    }
}


impl Default for ChangelogFetcher {
    /// Same as `new`: a fetcher with an empty cache.
    fn default() -> (r: ChangelogFetcher)
        ensures
            r.spec_cache() == Seq::<(Seq<char>, Option<Changelog>)>::empty(),
    {
        ChangelogFetcher::new()
    }
}

} // verus!
