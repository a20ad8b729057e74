//! The manifest parser: turns requirement lines into normalized package
//! records, best-effort — malformed lines are skipped, never fatal.

use vstd::prelude::*;
use vstd::string::*;
use crate::models::{DependencySource, Package, RequirementsFile, SecurityStatus, VersionConstraint,
    VersionStatus};
use crate::text::{ends_with, find_char, find_char_from, find_char_spec, find_sub, find_sub_from,
    find_sub_spec, has_prefix, has_suffix, lowercase, lower_of, split_char, split_char_spec,
    starts_with, strip_leading, strip_leading_spec, strip_trailing, strip_trailing_spec, substring,
    trim, trim_spec};

verus! {

/// Why a single manifest line was rejected.
#[derive(Debug, Clone, Copy, PartialEq, Eq, Structural)]
pub enum ParseError {
    /// The line is empty once comments and whitespace are stripped.
    EmptyLine,
    /// The line's bare package name is empty once the extras list and
    /// the version spec are removed.
    EmptyName,
    /// The line looks like a bare URL requirement but is not a valid URL.
    InvalidUrl,
}

/// ASCII decimal digit.
pub open spec fn is_digit_char(c: char) -> bool {
    48 <= c as u32 <= 57
}

/// Index of the first non-digit character at or after `i`; `s.len()` if
/// every character from `i` on is a digit.
pub open spec fn scan_digits(s: Seq<char>, i: int) -> int
    decreases s.len() - i,
{
    if i < 0 || i >= s.len() {
        s.len() as int
    } else if is_digit_char(s[i]) {
        scan_digits(s, i + 1)
    } else {
        i
    }
}

/// Scans past decimal digits starting at `from`.
fn scan_digits_exec(s: &str, n: usize, from: usize) -> (r: usize)
    requires
        n == s@.len(),
        from <= n,
    ensures
        r == scan_digits(s@, from as int),
        from <= r <= n,
{
    let mut i: usize = from;
    while i < n && s.get_char(i) >= '0' && s.get_char(i) <= '9'
        invariant
            from <= i <= n,
            n == s@.len(),
            scan_digits(s@, from as int) == scan_digits(s@, i as int),
        decreases n - i,
    {
        i = i + 1;
    }
    proof {
        lemma_scan_digits_bounds(s@, i as int);
    }
    i
}

/// A digit scan stays within the sequence.
proof fn lemma_scan_digits_bounds(s: Seq<char>, i: int)
    requires
        0 <= i <= s.len(),
    ensures
        i <= scan_digits(s, i) <= s.len(),
    decreases s.len() - i,
{
    if i < s.len() && is_digit_char(s[i]) {
        lemma_scan_digits_bounds(s, i + 1);
    }
}

/// Whether `s` starts with `digits+ '.' digits+ '.' digits+` (anything may
/// follow the third run of digits).
pub open spec fn starts_three_part(s: Seq<char>) -> bool {
    let d1 = scan_digits(s, 0);
    d1 > 0 && d1 < s.len() && s[d1] == '.' && {
        let d2 = scan_digits(s, d1 + 1);
        d2 > d1 + 1 && d2 < s.len() && s[d2] == '.' && scan_digits(s, d2 + 1) > d2 + 1
    }
}

/// Whether `s` is exactly `digits+ '.' digits+`.
pub open spec fn is_two_part(s: Seq<char>) -> bool {
    let d1 = scan_digits(s, 0);
    d1 > 0 && d1 < s.len() && s[d1] == '.' && {
        let d2 = scan_digits(s, d1 + 1);
        d2 > d1 + 1 && d2 == s.len()
    }
}

/// Whether `s` is exactly `digits+`.
pub open spec fn is_one_part(s: Seq<char>) -> bool {
    s.len() > 0 && scan_digits(s, 0) == s.len()
}

/// The normalized form of a declared version: a version that already
/// starts with three dotted numeric components passes through unchanged,
/// two components gain `.0`, a single component gains `.0.0`, and anything
/// else passes through unchanged.
pub open spec fn normalize_spec(s: Seq<char>) -> Seq<char> {
    if starts_three_part(s) {
        s
    } else if is_two_part(s) {
        s + ".0"@
    } else if is_one_part(s) {
        s + ".0.0"@
    } else {
        s
    }
}

/// Pads a declared version out to three dotted numeric components where
/// one or two were given; leaves everything else unchanged.
pub fn normalize_version(version: &str) -> (r: String)
    ensures
        r@ == normalize_spec(version@),
{
    let n = version.unicode_len();
    let d1 = scan_digits_exec(version, n, 0);
    if d1 > 0 && d1 < n && version.get_char(d1) == '.' {
        let d2 = scan_digits_exec(version, n, d1 + 1);
        if d2 > d1 + 1 && d2 < n && version.get_char(d2) == '.' {
            let d3 = scan_digits_exec(version, n, d2 + 1);
            if d3 > d2 + 1 {
                return version.to_owned();
            }
            return version.to_owned();
        }
        if d2 > d1 + 1 && d2 == n {
            return version.to_owned().concat(".0");
        }
        return version.to_owned();
    }
    if d1 == n && n > 0 {
        return version.to_owned().concat(".0.0");
    }
    version.to_owned()
}

/// Where the line splits between name and version spec: the position of
/// the first version operator, taken in fixed priority order (`==`, `>=`,
/// `<=`, `~=`, `<`, `>`, `!=`), so that a two-character operator is never
/// mis-split by a later-occurring one-character operator.
pub open spec fn op_split_pos(line: Seq<char>) -> Option<int> {
    if find_sub_spec(line, "=="@) is Some {
        find_sub_spec(line, "=="@)
    } else if find_sub_spec(line, ">="@) is Some {
        find_sub_spec(line, ">="@)
    } else if find_sub_spec(line, "<="@) is Some {
        find_sub_spec(line, "<="@)
    } else if find_sub_spec(line, "~="@) is Some {
        find_sub_spec(line, "~="@)
    } else if find_sub_spec(line, "<"@) is Some {
        find_sub_spec(line, "<"@)
    } else if find_sub_spec(line, ">"@) is Some {
        find_sub_spec(line, ">"@)
    } else if find_sub_spec(line, "!="@) is Some {
        find_sub_spec(line, "!="@)
    } else {
        None
    }
}

/// The name part of an index requirement line: everything before the first
/// version operator, trimmed; the whole line when no operator occurs.
pub open spec fn name_part_spec(line: Seq<char>) -> Seq<char> {
    match op_split_pos(line) {
        Some(p) => trim_spec(line.take(p)),
        None => line,
    }
}

/// The version-spec part of an index requirement line: everything from the
/// first version operator on; empty when no operator occurs.
pub open spec fn spec_part_spec(line: Seq<char>) -> Seq<char> {
    match op_split_pos(line) {
        Some(p) => line.skip(p),
        None => Seq::empty(),
    }
}

/// Splits an index requirement line at the first version operator.
pub fn extract_version_spec(line: &str) -> (r: (String, String))
    ensures
        r.0@ == name_part_spec(line@),
        r.1@ == spec_part_spec(line@),
{
    let n = line.unicode_len();
    let pos: Option<usize> = if let Some(p) = find_sub(line, "==") {
        Some(p)
    } else if let Some(p) = find_sub(line, ">=") {
        Some(p)
    } else if let Some(p) = find_sub(line, "<=") {
        Some(p)
    } else if let Some(p) = find_sub(line, "~=") {
        Some(p)
    } else if let Some(p) = find_sub(line, "<") {
        Some(p)
    } else if let Some(p) = find_sub(line, ">") {
        Some(p)
    } else if let Some(p) = find_sub(line, "!=") {
        Some(p)
    } else {
        None
    };
    match pos {
        Some(p) => {
            proof {
                lemma_find_sub_in_range(line@, "=="@);
                lemma_find_sub_in_range(line@, ">="@);
                lemma_find_sub_in_range(line@, "<="@);
                lemma_find_sub_in_range(line@, "~="@);
                lemma_find_sub_in_range(line@, ">"@);
                lemma_find_sub_in_range(line@, "<"@);
                lemma_find_sub_in_range(line@, "!="@);
            }
            let head = substring(line, 0, p);
            let name = trim(head.as_str());
            let rest = substring(line, p, n);
            proof {
                assert(line@.take(p as int) =~= line@.subrange(0, p as int));
                assert(line@.skip(p as int) =~= line@.subrange(p as int, line@.len() as int));
            }
            (name, rest)
        },
        None => (line.to_owned(), String::new()),
    }
}

/// A found substring position lies within the text.
proof fn lemma_find_sub_in_range(s: Seq<char>, pat: Seq<char>)
    ensures
        find_sub_spec(s, pat) matches Some(i) ==> 0 <= i && i + pat.len() <= s.len(),
{
    lemma_find_sub_from_in_range(s, pat, 0);
}

/// A found substring position lies between the scan start and the end.
proof fn lemma_find_sub_from_in_range(s: Seq<char>, pat: Seq<char>, k: int)
    requires
        0 <= k,
    ensures
        find_sub_from(s, pat, k) matches Some(i) ==> k <= i && i + pat.len() <= s.len(),
    decreases s.len() - k,
{
    if !(k < 0 || k + pat.len() > s.len()) && pat.len() != 0 && s.subrange(
        k,
        k + pat.len() as int,
    ) != pat {
        lemma_find_sub_from_in_range(s, pat, k + 1);
    }
}

/// Every whitespace-trimmed piece of `ps`, in order.
pub open spec fn trim_all(ps: Seq<Seq<char>>) -> Seq<Seq<char>> {
    ps.map_values(|p: Seq<char>| trim_spec(p))
}

/// The bare name in a name part that may carry a bracketed extras list.
pub open spec fn extras_name_spec(name_part: Seq<char>) -> Seq<char> {
    match find_char_spec(name_part, '[') {
        Some(b) => name_part.take(b),
        None => name_part,
    }
}

/// The declared extras in a name part: the bracketed, comma-separated
/// list after the name, each entry trimmed; empty when no bracket occurs.
pub open spec fn extras_list_spec(name_part: Seq<char>) -> Seq<Seq<char>> {
    match find_char_spec(name_part, '[') {
        Some(b) => trim_all(
            split_char_spec(strip_trailing_spec(name_part.skip(b + 1), ']'), ','),
        ),
        None => Seq::empty(),
    }
}

/// Splits a name part into the bare name and its declared extras.
pub fn extract_extras(name_part: &str) -> (r: (String, Vec<String>))
    ensures
        r.0@ == extras_name_spec(name_part@),
        r.1.deep_view() == extras_list_spec(name_part@),
{
    let n = name_part.unicode_len();
    match find_char(name_part, '[') {
        Some(b) => {
            proof {
                lemma_find_char_in_range(name_part@, '[', 0);
            }
            let name = substring(name_part, 0, b);
            let inner = substring(name_part, b + 1, n);
            proof {
                assert(name_part@.take(b as int) =~= name_part@.subrange(0, b as int));
                assert(name_part@.skip(b + 1) =~= name_part@.subrange(
                    b + 1,
                    name_part@.len() as int,
                ));
            }
            let stripped = strip_trailing(inner.as_str(), ']');
            let pieces = split_char(stripped.as_str(), ',');
            let mut extras: Vec<String> = Vec::new();
            let mut i: usize = 0;
            proof {
                assert(extras.deep_view() =~~= trim_all(pieces.deep_view()).take(0));
            }
            while i < pieces.len()
                invariant
                    i <= pieces.len(),
                    extras.deep_view() == trim_all(pieces.deep_view()).take(i as int),
                decreases pieces.len() - i,
            {
                let ghost old_extras = extras;
                let t = trim(pieces[i].as_str());
                extras.push(t);
                proof {
                    assert(old_extras.deep_view().len() == i as int);
                    assert(old_extras@.len() == i as int);
                    assert(extras@.len() == i + 1);
                    let lhs = extras.deep_view();
                    let rhs = trim_all(pieces.deep_view()).take(i + 1);
                    assert(lhs.len() == i + 1);
                    assert forall|k: int| 0 <= k <= i as int implies lhs[k] == rhs[k] by {
                        assert(lhs[k] == extras@[k]@);
                        assert(rhs[k] == trim_spec(pieces.deep_view()[k]));
                        if k < i as int {
                            assert(old_extras.deep_view()[k] == trim_all(
                                pieces.deep_view(),
                            ).take(i as int)[k]);
                        } else {
                            assert(pieces.deep_view()[k] == pieces@[k]@);
                        }
                    }
                    assert(lhs =~= rhs);
                }
                i = i + 1;
            }
            proof {
                assert(trim_all(pieces.deep_view()).take(pieces.len() as int) =~~= trim_all(
                    pieces.deep_view(),
                ));
            }
            (name, extras)
        },
        None => (name_part.to_owned(), Vec::new()),
    }
}

/// A found character position lies between the scan start and the end.
proof fn lemma_find_char_in_range(s: Seq<char>, c: char, k: int)
    requires
        0 <= k,
    ensures
        find_char_from(s, c, k) matches Some(i) ==> k <= i < s.len(),
    decreases s.len() - k,
{
    if k < s.len() && s[k] != c {
        lemma_find_char_in_range(s, c, k + 1);
    }
}

/// The normalized current version derived from a version-spec string:
/// `==`, `>=` and `~=` carry a usable version, normalized to three
/// components; `<` and anything else carry none, so the current version
/// defaults to `0.0.0`.
pub open spec fn current_version_spec(s: Seq<char>) -> Seq<char> {
    let t = trim_spec(s);
    if t.len() == 0 {
        "0.0.0"@
    } else if has_prefix(t, "=="@) {
        normalize_spec(trim_spec(t.skip(2)))
    } else if has_prefix(t, ">="@) {
        normalize_spec(trim_spec(t.skip(2)))
    } else if has_prefix(t, "~="@) {
        normalize_spec(trim_spec(t.skip(2)))
    } else {
        "0.0.0"@
    }
}

/// Parses the version-spec part of a requirement into its constraint and
/// the normalized current version.
pub fn parse_version_spec(spec: &str) -> (r: (VersionConstraint, String))
    ensures
        r.1@ == current_version_spec(spec@),
        ({
            let t = trim_spec(spec@);
            if t.len() == 0 {
                r.0 is Unspecified
            } else if has_prefix(t, "=="@) {
                r.0 matches VersionConstraint::Pinned(v) && v@ == trim_spec(t.skip(2))
            } else if has_prefix(t, ">="@) {
                r.0 matches VersionConstraint::GreaterEqual(v) && v@ == trim_spec(t.skip(2))
            } else if has_prefix(t, "~="@) {
                r.0 matches VersionConstraint::Compatible(v) && v@ == trim_spec(t.skip(2))
            } else if has_prefix(t, "<"@) {
                r.0 matches VersionConstraint::Less(v) && v@ == trim_spec(t.skip(1))
            } else {
                r.0 is Unspecified
            }
        }),
{
    proof {
        reveal_strlit("==");
        reveal_strlit(">=");
        reveal_strlit("~=");
        reveal_strlit("<");
    }
    let t = trim(spec);
    let n = t.as_str().unicode_len();
    if n == 0 {
        return (VersionConstraint::Unspecified, "0.0.0".to_owned());
    }
    if starts_with(t.as_str(), "==") {
        let v = trim(substring(t.as_str(), 2, n).as_str());
        proof {
            assert(t@.skip(2) =~= t@.subrange(2, t@.len() as int));
        }
        let norm = normalize_version(v.as_str());
        return (VersionConstraint::Pinned(v), norm);
    }
    if starts_with(t.as_str(), ">=") {
        let v = trim(substring(t.as_str(), 2, n).as_str());
        proof {
            assert(t@.skip(2) =~= t@.subrange(2, t@.len() as int));
        }
        let norm = normalize_version(v.as_str());
        return (VersionConstraint::GreaterEqual(v), norm);
    }
    if starts_with(t.as_str(), "~=") {
        let v = trim(substring(t.as_str(), 2, n).as_str());
        proof {
            assert(t@.skip(2) =~= t@.subrange(2, t@.len() as int));
        }
        let norm = normalize_version(v.as_str());
        return (VersionConstraint::Compatible(v), norm);
    }
    if starts_with(t.as_str(), "<") {
        let v = trim(substring(t.as_str(), 1, n).as_str());
        proof {
            assert(t@.skip(1) =~= t@.subrange(1, t@.len() as int));
        }
        return (VersionConstraint::Less(v), "0.0.0".to_owned());
    }
    (VersionConstraint::Unspecified, "0.0.0".to_owned())
}

/// Whether `c` is the constraint that the version-spec string `s`
/// declares.
pub open spec fn constraint_matches(c: VersionConstraint, s: Seq<char>) -> bool {
    let t = trim_spec(s);
    if t.len() == 0 {
        c is Unspecified
    } else if has_prefix(t, "=="@) {
        c matches VersionConstraint::Pinned(v) && v@ == trim_spec(t.skip(2))
    } else if has_prefix(t, ">="@) {
        c matches VersionConstraint::GreaterEqual(v) && v@ == trim_spec(t.skip(2))
    } else if has_prefix(t, "~="@) {
        c matches VersionConstraint::Compatible(v) && v@ == trim_spec(t.skip(2))
    } else if has_prefix(t, "<"@) {
        c matches VersionConstraint::Less(v) && v@ == trim_spec(t.skip(1))
    } else {
        c is Unspecified
    }
}

/// The fields every freshly parsed record starts out with: nothing
/// resolved, nothing enriched, nothing selected.
pub open spec fn fresh_record_defaults(p: Package) -> bool {
    &&& p.latest_version is None
    &&& p.status == VersionStatus::Unknown
    &&& !p.selected
    &&& p.error is None
    &&& p.security_status is Unknown
    &&& p.changelog is None
    &&& p.popularity is None
    &&& p.dependencies@.len() == 0
}

/// What parsing an index requirement line yields.
pub open spec fn is_pypi_parse_of(p: Package, line: Seq<char>) -> bool {
    &&& p.name@ == lower_of(extras_name_spec(name_part_spec(line)))
    &&& p.current_version@ == current_version_spec(spec_part_spec(line))
    &&& p.extras.deep_view() == extras_list_spec(name_part_spec(line))
    &&& constraint_matches(p.constraint, spec_part_spec(line))
    &&& p.source is PyPI
    &&& fresh_record_defaults(p)
}

/// Parses an index requirement line (`name[extras]<op><version>`),
/// rejecting a line whose bare name is empty: a record's name is never
/// empty.
pub fn parse_pypi_requirement(line: &str) -> (r: Result<Package, ParseError>)
    ensures
        r is Ok <==> extras_name_spec(name_part_spec(line@)).len() > 0,
        r matches Ok(p) ==> is_pypi_parse_of(p, line@) && p.wf(),
        r matches Err(e) ==> e == ParseError::EmptyName,
{
    let (name_part, version_spec) = extract_version_spec(line);
    let (name, extras) = extract_extras(name_part.as_str());
    if name.as_str().unicode_len() == 0 {
        return Err(ParseError::EmptyName);
    }
    let (constraint, current_version) = parse_version_spec(version_spec.as_str());
    let lowered = lowercase(name.as_str());
    Ok(Package {
        name: lowered,
        current_version,
        latest_version: None,
        status: VersionStatus::Unknown,
        selected: false,
        extras,
        constraint,
        error: None,
        source: DependencySource::PyPI,
        security_status: SecurityStatus::Unknown,
        changelog: None,
        popularity: None,
        dependencies: Vec::new(),
    })
}

/// Relies on `uuid::Uuid::new_v4` and its `Display` form: a fresh random
/// identifier in the hyphenated format, 36 characters long.
#[verifier::external_body]
fn random_uuid_string() -> (r: String)
    ensures
        r@.len() == 36,
{
    uuid::Uuid::new_v4().to_string()
}

/// A synthesized record name: the given prefix followed by the first
/// eight characters of a fresh random identifier.
fn synth_name(prefix: &str) -> (r: String)
    ensures
        r@.len() == prefix@.len() + 8,
        has_prefix(r@, prefix@),
{
    let u = random_uuid_string();
    let first8 = substring(u.as_str(), 0, 8);
    let r = prefix.to_owned().concat(first8.as_str());
    proof {
        assert(r@.subrange(0, prefix@.len() as int) =~= prefix@);
    }
    r
}

/// The repository URL of a Git requirement: everything before the first
/// `@`.
pub open spec fn git_url_spec(rest: Seq<char>) -> Seq<char> {
    match find_char_spec(rest, '@') {
        Some(i) => rest.take(i),
        None => rest,
    }
}

/// The declared Git reference: the piece between the first `@` and the
/// next one, when an `@` occurs at all.
pub open spec fn git_ref_spec(rest: Seq<char>) -> Option<Seq<char>> {
    match find_char_spec(rest, '@') {
        Some(i) => {
            let tail = rest.skip(i + 1);
            match find_char_spec(tail, '@') {
                Some(j) => Some(tail.take(j)),
                None => Some(tail),
            }
        },
        None => None,
    }
}

/// The name inferred from a Git URL: the last `/`-separated piece with a
/// non-empty stem before a `.git` suffix; `None` when no name can be
/// inferred and a random one must be synthesized.
pub open spec fn git_name_seed_spec(url: Seq<char>) -> Option<Seq<char>> {
    let seg = split_char_spec(url, '/').last();
    if has_suffix(seg, ".git"@) && seg.len() > 4 {
        Some(seg.take(seg.len() - 4))
    } else {
        None
    }
}

/// What parsing a Git requirement (after the `git+` prefix) yields.
pub open spec fn is_git_parse_of(p: Package, rest: Seq<char>) -> bool {
    &&& match git_name_seed_spec(git_url_spec(rest)) {
        Some(seed) => p.name@ == lower_of(seed),
        None => has_prefix(p.name@, "git-"@) && p.name@.len() == 12,
    }
    &&& p.current_version@ == "git-source"@
    &&& p.constraint is Unspecified
    &&& (p.source matches DependencySource::Git { url, ref_spec } && url@ == git_url_spec(rest)
        && match ref_spec {
        Some(rs) => git_ref_spec(rest) == Some(rs@),
        None => git_ref_spec(rest) is None,
    })
    &&& p.extras@.len() == 0
    &&& fresh_record_defaults(p)
}

/// Parses a Git requirement: `git+<url>[@ref]`, with the name inferred
/// from the repository path or synthesized at random.
pub fn parse_git_requirement(rest: &str) -> (r: Package)
    ensures
        is_git_parse_of(r, rest@),
        r.wf(),
{
    let n = rest.unicode_len();
    let (url, ref_spec): (String, Option<String>) = match find_char(rest, '@') {
        Some(i) => {
            proof {
                lemma_find_char_in_range(rest@, '@', 0);
            }
            let url = substring(rest, 0, i);
            let tail = substring(rest, i + 1, n);
            proof {
                assert(rest@.take(i as int) =~= rest@.subrange(0, i as int));
                assert(rest@.skip(i + 1) =~= rest@.subrange(i + 1, rest@.len() as int));
            }
            let tn = tail.as_str().unicode_len();
            let rs = match find_char(tail.as_str(), '@') {
                Some(j) => {
                    proof {
                        lemma_find_char_in_range(tail@, '@', 0);
                        assert(tail@.take(j as int) =~= tail@.subrange(0, j as int));
                    }
                    substring(tail.as_str(), 0, j)
                },
                None => tail,
            };
            (url, Some(rs))
        },
        None => (rest.to_owned(), None),
    };
    let pieces = split_char(url.as_str(), '/');
    let seg = &pieces[pieces.len() - 1];
    proof {
        assert(pieces.deep_view()[pieces.deep_view().len() - 1] == seg@);
        reveal_strlit(".git");
    }
    let sn = seg.as_str().unicode_len();
    let name = if ends_with(seg.as_str(), ".git") && sn > 4 {
        let stem = substring(seg.as_str(), 0, sn - 4);
        lowercase(stem.as_str())
    } else {
        proof {
            reveal_strlit("git-");
        }
        synth_name("git-")
    };
    Package {
        name,
        current_version: "git-source".to_owned(),
        latest_version: None,
        status: VersionStatus::Unknown,
        selected: false,
        extras: Vec::new(),
        constraint: VersionConstraint::Unspecified,
        error: None,
        source: DependencySource::Git { url, ref_spec },
        security_status: SecurityStatus::Unknown,
        changelog: None,
        popularity: None,
        dependencies: Vec::new(),
    }
}

/// The declared path of an editable requirement: the text after `-e`,
/// with leading dashes and surrounding whitespace removed.
pub open spec fn editable_path_spec(rest: Seq<char>) -> Seq<char> {
    trim_spec(strip_leading_spec(rest, '-'))
}

/// The name inferred from a local path: its last non-empty
/// `/`-separated piece, after dropping trailing slashes; `None` when no
/// piece remains.
pub open spec fn file_name_seed_spec(path: Seq<char>) -> Option<Seq<char>> {
    let seg = split_char_spec(strip_trailing_spec(path, '/'), '/').last();
    if seg.len() > 0 {
        Some(seg)
    } else {
        None
    }
}

/// What parsing an editable requirement (after `-e`) yields.
pub open spec fn is_editable_parse_of(p: Package, rest: Seq<char>) -> bool {
    &&& match file_name_seed_spec(editable_path_spec(rest)) {
        Some(seed) => p.name@ == lower_of(seed),
        None => has_prefix(p.name@, "local-"@) && p.name@.len() == 14,
    }
    &&& p.current_version@ == "local"@
    &&& p.constraint is Unspecified
    &&& (p.source matches DependencySource::LocalPath { path, editable } && path@
        == editable_path_spec(rest) && editable)
    &&& p.extras@.len() == 0
    &&& fresh_record_defaults(p)
}

/// Parses an editable requirement: `-e <local-path>`, with the name taken
/// from the file name or synthesized at random.
pub fn parse_editable_requirement(rest: &str) -> (r: Package)
    ensures
        is_editable_parse_of(r, rest@),
        r.wf(),
{
    let stripped = strip_leading(rest, '-');
    let path = trim(stripped.as_str());
    let no_slash = strip_trailing(path.as_str(), '/');
    let pieces = split_char(no_slash.as_str(), '/');
    let seg = &pieces[pieces.len() - 1];
    proof {
        assert(pieces.deep_view()[pieces.deep_view().len() - 1] == seg@);
    }
    let name = if seg.as_str().unicode_len() > 0 {
        lowercase(seg.as_str())
    } else {
        proof {
            reveal_strlit("local-");
        }
        synth_name("local-")
    };
    Package {
        name,
        current_version: "local".to_owned(),
        latest_version: None,
        status: VersionStatus::Unknown,
        selected: false,
        extras: Vec::new(),
        constraint: VersionConstraint::Unspecified,
        error: None,
        source: DependencySource::LocalPath { path, editable: true },
        security_status: SecurityStatus::Unknown,
        changelog: None,
        popularity: None,
        dependencies: Vec::new(),
    }
}

/// What `url::Url::parse` followed by `Url::path_segments` yields for a
/// given character sequence: `None` when the text is not a valid URL,
/// `Some(None)` for a URL without a segmented path, and otherwise the
/// first path segment.
pub uninterp spec fn url_first_segment(s: Seq<char>) -> Option<Option<Seq<char>>>;

/// Relies on `url::Url::parse` and `Url::path_segments`: validates the
/// URL and hands back its first path segment, when it has one.
#[verifier::external_body]
fn parse_url_segment(line: &str) -> (r: Option<Option<String>>)
    ensures
        match r {
            Some(seg) => match seg {
                Some(s) => url_first_segment(line@) == Some(Some(s@)),
                None => url_first_segment(line@) == Some(None::<Seq<char>>),
            },
            None => url_first_segment(line@) is None,
        },
{
    match url::Url::parse(line) {
        Ok(u) => Some(u.path_segments().and_then(|mut it| it.next()).map(|s| s.to_string())),
        Err(_) => None,
    }
}

/// The name inferred from a URL requirement: the first path segment up to
/// its first `.`, when that stem is non-empty.
pub open spec fn url_name_seed_spec(line: Seq<char>) -> Option<Seq<char>> {
    match url_first_segment(line) {
        Some(Some(seg)) => {
            let stem = match find_char_spec(seg, '.') {
                Some(i) => seg.take(i),
                None => seg,
            };
            if stem.len() > 0 {
                Some(stem)
            } else {
                None
            }
        },
        _ => None,
    }
}

/// What parsing a bare URL requirement yields.
pub open spec fn is_url_parse_of(p: Package, line: Seq<char>) -> bool {
    &&& match url_name_seed_spec(line) {
        Some(seed) => p.name@ == lower_of(seed),
        None => has_prefix(p.name@, "url-"@) && p.name@.len() == 12,
    }
    &&& p.current_version@ == "url-source"@
    &&& p.constraint is Unspecified
    &&& (p.source matches DependencySource::Url { url } && url@ == line)
    &&& p.extras@.len() == 0
    &&& fresh_record_defaults(p)
}

/// Parses a bare URL requirement. Fails exactly when the text is not a
/// valid URL; the name comes from the first path segment's stem or is
/// synthesized at random.
pub fn parse_url_requirement(line: &str) -> (r: Result<Package, ParseError>)
    ensures
        r is Ok <==> url_first_segment(line@) is Some,
        r matches Ok(p) ==> is_url_parse_of(p, line@) && p.wf(),
        r matches Err(e) ==> e == ParseError::InvalidUrl,
{
    match parse_url_segment(line) {
        None => Err(ParseError::InvalidUrl),
        Some(seg) => {
            let name = match seg {
                Some(seg_str) => {
                    let sn = seg_str.as_str().unicode_len();
                    let stem = match find_char(seg_str.as_str(), '.') {
                        Some(i) => {
                            proof {
                                lemma_find_char_in_range(seg_str@, '.', 0);
                                assert(seg_str@.take(i as int) =~= seg_str@.subrange(
                                    0,
                                    i as int,
                                ));
                            }
                            substring(seg_str.as_str(), 0, i)
                        },
                        None => seg_str,
                    };
                    if stem.as_str().unicode_len() > 0 {
                        lowercase(stem.as_str())
                    } else {
                        proof {
                            reveal_strlit("url-");
                        }
                        synth_name("url-")
                    }
                },
                None => {
                    proof {
                        reveal_strlit("url-");
                    }
                    synth_name("url-")
                },
            };
            Ok(Package {
                name,
                current_version: "url-source".to_owned(),
                latest_version: None,
                status: VersionStatus::Unknown,
                selected: false,
                extras: Vec::new(),
                constraint: VersionConstraint::Unspecified,
                error: None,
                source: DependencySource::Url { url: line.to_owned() },
                security_status: SecurityStatus::Unknown,
                changelog: None,
                popularity: None,
                dependencies: Vec::new(),
            })
        },
    }
}

/// A requirement line with its comment removed: everything before the
/// first `#`.
pub open spec fn strip_comment_spec(line: Seq<char>) -> Seq<char> {
    match find_char_spec(line, '#') {
        Some(i) => line.take(i),
        None => line,
    }
}

/// The effective text of a requirement line: comment stripped, trimmed.
pub open spec fn line_head_spec(line: Seq<char>) -> Seq<char> {
    trim_spec(strip_comment_spec(line))
}

/// Which sub-parser a requirement line routes to.
pub enum LineKind {
    Empty,
    Git,
    Editable,
    UrlLine,
    Index,
}

/// Classifies the effective text of a line by its prefix.
pub open spec fn line_kind_spec(head: Seq<char>) -> LineKind {
    if head.len() == 0 {
        LineKind::Empty
    } else if has_prefix(head, "git+"@) {
        LineKind::Git
    } else if has_prefix(head, "-e"@) {
        LineKind::Editable
    } else if has_prefix(head, "http://"@) || has_prefix(head, "https://"@) || has_prefix(
        head,
        "file://"@,
    ) {
        LineKind::UrlLine
    } else {
        LineKind::Index
    }
}

/// Whether a requirement line parses into a record.
pub open spec fn line_ok(line: Seq<char>) -> bool {
    let head = line_head_spec(line);
    match line_kind_spec(head) {
        LineKind::Empty => false,
        LineKind::UrlLine => url_first_segment(head) is Some,
        LineKind::Index => extras_name_spec(name_part_spec(head)).len() > 0,
        _ => true,
    }
}

/// What parsing a whole requirement line yields, over the effective text
/// of the line.
pub open spec fn is_line_parse_of(p: Package, line: Seq<char>) -> bool {
    let head = line_head_spec(line);
    match line_kind_spec(head) {
        LineKind::Empty => false,
        LineKind::Git => is_git_parse_of(p, head.skip(4)),
        LineKind::Editable => is_editable_parse_of(p, trim_spec(head.skip(2))),
        LineKind::UrlLine => is_url_parse_of(p, head),
        LineKind::Index => is_pypi_parse_of(p, head),
    }
}

/// Parses one manifest line into a record, routing on its prefix: a
/// `git+` URL, an editable install, a bare URL, or an index requirement.
pub fn parse_requirement_line(line: &str) -> (r: Result<Package, ParseError>)
    ensures
        r is Ok <==> line_ok(line@),
        r matches Ok(p) ==> is_line_parse_of(p, line@) && p.wf(),
        line_head_spec(line@).len() == 0 ==> r == Err::<Package, ParseError>(
            ParseError::EmptyLine,
        ),
{
    proof {
        reveal_strlit("git+");
        reveal_strlit("-e");
        reveal_strlit("http://");
        reveal_strlit("https://");
        reveal_strlit("file://");
    }
    let n = line.unicode_len();
    let no_comment = match find_char(line, '#') {
        Some(i) => {
            proof {
                lemma_find_char_in_range(line@, '#', 0);
                assert(line@.take(i as int) =~= line@.subrange(0, i as int));
            }
            substring(line, 0, i)
        },
        None => line.to_owned(),
    };
    let head = trim(no_comment.as_str());
    let hn = head.as_str().unicode_len();
    if hn == 0 {
        return Err(ParseError::EmptyLine);
    }
    if starts_with(head.as_str(), "git+") {
        proof {
            assert(head@.skip(4) =~= head@.subrange(4, head@.len() as int));
        }
        let rest = substring(head.as_str(), 4, hn);
        return Ok(parse_git_requirement(rest.as_str()));
    }
    if starts_with(head.as_str(), "-e") {
        proof {
            assert(head@.skip(2) =~= head@.subrange(2, head@.len() as int));
        }
        let rest = substring(head.as_str(), 2, hn);
        let trimmed = trim(rest.as_str());
        return Ok(parse_editable_requirement(trimmed.as_str()));
    }
    if starts_with(head.as_str(), "http://") || starts_with(head.as_str(), "https://")
        || starts_with(head.as_str(), "file://") {
        return parse_url_requirement(head.as_str());
    }
    parse_pypi_requirement(head.as_str())
}

/// Decides which manifest the run works on: an explicitly provided path
/// wins; else the default `requirements.txt` is used when it exists;
/// else the run fails before any processing begins.
pub fn determine_requirements_path(provided: Option<&str>, default_exists: bool) -> (r: Result<
    String,
    String,
>)
    ensures
        match provided {
            Some(p) => r matches Ok(s) && s@ == p@,
            None => if default_exists {
                r matches Ok(s) && s@ == "requirements.txt"@
            } else {
                r matches Err(e) && e@
                    == "Could not find requirements.txt. Please specify with --requirements <path>"@
            },
        },
{
    match provided {
        Some(p) => Ok(p.to_owned()),
        None => {
            if default_exists {
                Ok("requirements.txt".to_owned())
            } else {
                Err(
                    "Could not find requirements.txt. Please specify with --requirements <path>".to_owned(),
                )
            }
        },
    }
}

/// A line with one trailing carriage return removed.
pub open spec fn drop_cr_spec(s: Seq<char>) -> Seq<char> {
    if s.len() > 0 && s[s.len() - 1] == '\r' {
        s.drop_last()
    } else {
        s
    }
}

/// Every line of `ps` with one trailing carriage return removed.
pub open spec fn drop_cr_all(ps: Seq<Seq<char>>) -> Seq<Seq<char>> {
    ps.map_values(|p: Seq<char>| drop_cr_spec(p))
}

/// The lines of a manifest text: split on newline, one trailing carriage
/// return removed per line, and no final empty line after a terminal
/// newline.
pub open spec fn lines_spec(content: Seq<char>) -> Seq<Seq<char>> {
    let ps = split_char_spec(content, '\n');
    let kept = if ps.last().len() == 0 {
        ps.drop_last()
    } else {
        ps
    };
    drop_cr_all(kept)
}

/// Splits a manifest text into its lines.
fn split_lines(content: &str) -> (r: Vec<String>)
    ensures
        r.deep_view() == lines_spec(content@),
{
    let pieces = split_char(content, '\n');
    let last_len = pieces[pieces.len() - 1].as_str().unicode_len();
    let m = if last_len == 0 {
        pieces.len() - 1
    } else {
        pieces.len()
    };
    let ghost kept = if pieces.deep_view().last().len() == 0 {
        pieces.deep_view().drop_last()
    } else {
        pieces.deep_view()
    };
    proof {
        assert(pieces.deep_view()[pieces.deep_view().len() - 1] == pieces@[pieces@.len() - 1]@);
        assert(kept =~= pieces.deep_view().take(m as int));
    }
    let mut out: Vec<String> = Vec::new();
    let mut i: usize = 0;
    proof {
        assert(out.deep_view() =~~= drop_cr_all(kept).take(0));
    }
    while i < m
        invariant
            i <= m <= pieces@.len(),
            kept == pieces.deep_view().take(m as int),
            out.deep_view() == drop_cr_all(kept).take(i as int),
        decreases m - i,
    {
        let ghost old_out = out;
        let piece = &pieces[i];
        let n = piece.as_str().unicode_len();
        let line = if n > 0 && piece.as_str().get_char(n - 1) == '\r' {
            substring(piece.as_str(), 0, n - 1)
        } else {
            piece.as_str().to_owned()
        };
        proof {
            assert(pieces.deep_view()[i as int] == piece@);
            assert(kept[i as int] == piece@);
            if piece@.len() > 0 && piece@[piece@.len() - 1] == '\r' {
                assert(piece@.subrange(0, piece@.len() - 1) =~= piece@.drop_last());
            }
            assert(line@ == drop_cr_spec(kept[i as int]));
        }
        out.push(line);
        proof {
            assert(old_out.deep_view().len() == i as int);
            assert(old_out@.len() == i as int);
            assert(out@.len() == i + 1);
            let lhs = out.deep_view();
            let rhs = drop_cr_all(kept).take(i + 1);
            assert(lhs.len() == i + 1);
            assert forall|k: int| 0 <= k <= i as int implies lhs[k] == rhs[k] by {
                assert(lhs[k] == out@[k]@);
                assert(rhs[k] == drop_cr_spec(kept[k]));
                if k < i as int {
                    assert(old_out.deep_view()[k] == drop_cr_all(kept).take(i as int)[k]);
                }
            }
            assert(lhs =~= rhs);
        }
        i = i + 1;
    }
    proof {
        assert(drop_cr_all(kept).take(m as int) =~= drop_cr_all(kept));
        assert(out.deep_view() =~= lines_spec(content@));
    }
    out
}

/// Number of lines that parse into a record.
/// The lines that parse into a record, in order.
pub open spec fn good_lines(lines: Seq<Seq<char>>) -> Seq<Seq<char>>
    decreases lines.len(),
{
    if lines.len() == 0 {
        Seq::empty()
    } else {
        good_lines(lines.drop_last()) + if line_ok(lines.last()) {
            seq![lines.last()]
        } else {
            Seq::empty()
        }
    }
}

/// Whether each record is exactly the parse of the line at its position:
/// one record per parsing line, in order.
pub open spec fn parses_lines(packages: Seq<Package>, glines: Seq<Seq<char>>) -> bool {
    &&& packages.len() == glines.len()
    &&& forall|k: int|
        0 <= k < packages.len() ==> is_line_parse_of(#[trigger] packages[k], glines[k])
}

/// Whether `p` is the parse of some line of `lines` that parses.
pub open spec fn from_some_line(p: Package, lines: Seq<Seq<char>>) -> bool {
    exists|j: int| 0 <= j < lines.len() && line_ok(lines[j]) && is_line_parse_of(p, lines[j])
}

/// Every record in `packages` is the parse of some line of `lines` that
/// parses.
pub open spec fn all_from_lines(packages: Seq<Package>, lines: Seq<Seq<char>>) -> bool {
    forall|k: int| 0 <= k < packages.len() ==> from_some_line(#[trigger] packages[k], lines)
}

/// Appending the parse of one more good line keeps the correspondence.
proof fn lemma_all_from_lines_push(
    packages: Seq<Package>,
    lines: Seq<Seq<char>>,
    p: Package,
    j: int,
)
    requires
        all_from_lines(packages, lines),
        0 <= j < lines.len(),
        line_ok(lines[j]),
        is_line_parse_of(p, lines[j]),
    ensures
        all_from_lines(packages.push(p), lines),
{
    let pushed = packages.push(p);
    assert forall|k: int| 0 <= k < pushed.len() implies from_some_line(
        #[trigger] pushed[k],
        lines,
    ) by {
        if k < packages.len() {
            assert(pushed[k] == packages[k]);
        } else {
            assert(pushed[k] == p);
            assert(line_ok(lines[j]) && is_line_parse_of(p, lines[j]));
            assert(from_some_line(p, lines));
        }
    }
}

/// Rearranging the records keeps the correspondence.
proof fn lemma_all_from_lines_perm(a: Seq<Package>, b: Seq<Package>, lines: Seq<Seq<char>>)
    requires
        all_from_lines(a, lines),
        a.to_multiset() == b.to_multiset(),
    ensures
        all_from_lines(b, lines),
{
    a.to_multiset_ensures();
    b.to_multiset_ensures();
    assert forall|k: int| 0 <= k < b.len() implies from_some_line(#[trigger] b[k], lines) by {
        assert(b.to_multiset().count(b[k]) > 0);
        assert(a.contains(b[k]));
        let m = choose|m: int| 0 <= m < a.len() && a[m] == b[k];
        assert(from_some_line(a[m], lines));
    }
}

/// Well-formedness survives rearranging the records.
proof fn lemma_all_wf_perm(a: Seq<Package>, b: Seq<Package>)
    requires
        forall|k: int| 0 <= k < a.len() ==> (#[trigger] a[k]).wf(),
        a.to_multiset() == b.to_multiset(),
    ensures
        forall|k: int| 0 <= k < b.len() ==> (#[trigger] b[k]).wf(),
{
    a.to_multiset_ensures();
    b.to_multiset_ensures();
    assert forall|k: int| 0 <= k < b.len() implies (#[trigger] b[k]).wf() by {
        assert(b.to_multiset().count(b[k]) > 0);
        assert(a.contains(b[k]));
        let m = choose|m: int| 0 <= m < a.len() && a[m] == b[k];
        assert(a[m].wf());
    }
}

/// Parses a whole manifest text: one record per line that parses, in
/// best-effort fashion, and the records come back ordered by name. The
/// records are, up to the name ordering, exactly the parses of the
/// parsing lines, one each, and every name is non-empty.
pub fn parse_requirements_content(path: &str, content: &str) -> (r: RequirementsFile)
    ensures
        r.path@ == path@,
        r.raw_lines.deep_view() == lines_spec(content@),
        r.packages@.len() == good_lines(lines_spec(content@)).len(),
        crate::app::sorted_by(r.packages@, crate::app::SortBy::Name),
        forall|k: int| 0 <= k < r.packages@.len() ==> (#[trigger] r.packages@[k]).wf(),
        all_from_lines(r.packages@, lines_spec(content@)),
        exists|pre: Seq<Package>|
            parses_lines(pre, good_lines(lines_spec(content@))) && r.packages@.to_multiset()
                == pre.to_multiset(),
{
    let ghost lines = lines_spec(content@);
    let raw_lines = split_lines(content);
    let mut packages: Vec<Package> = Vec::new();
    let mut i: usize = 0;
    proof {
        assert(good_lines(lines.take(0)) =~~= Seq::<Seq<char>>::empty());
    }
    while i < raw_lines.len()
        invariant
            i <= raw_lines@.len(),
            raw_lines.deep_view() == lines,
            parses_lines(packages@, good_lines(lines.take(i as int))),
            forall|k: int| 0 <= k < packages@.len() ==> (#[trigger] packages@[k]).wf(),
            all_from_lines(packages@, lines),
        decreases raw_lines@.len() - i,
    {
        proof {
            assert(raw_lines.deep_view()[i as int] == raw_lines@[i as int]@);
            assert(lines.take(i + 1).drop_last() =~= lines.take(i as int));
            assert(lines.take(i + 1).last() == lines[i as int]);
        }
        let ghost old_packages = packages@;
        let ghost old_good = good_lines(lines.take(i as int));
        match parse_requirement_line(raw_lines[i].as_str()) {
            Ok(p) => {
                proof {
                    lemma_all_from_lines_push(old_packages, lines, p, i as int);
                    assert(good_lines(lines.take(i + 1)) =~~= old_good.push(lines[i as int]));
                }
                packages.push(p);
                proof {
                    let glines = good_lines(lines.take(i + 1));
                    assert forall|k: int|
                        0 <= k < packages@.len() implies is_line_parse_of(
                        #[trigger] packages@[k],
                        glines[k],
                    ) by {
                        if k < old_packages.len() {
                            assert(packages@[k] == old_packages[k]);
                            assert(glines[k] == old_good[k]);
                        } else {
                            assert(packages@[k] == p);
                            assert(glines[k] == lines[i as int]);
                        }
                    }
                }
            },
            Err(_) => {
                proof {
                    assert(good_lines(lines.take(i + 1)) =~~= old_good);
                }
            },
        }
        i = i + 1;
    }
    proof {
        assert(lines.take(raw_lines@.len() as int) =~= lines);
    }
    let ghost before_sort = packages@;
    crate::app::sort_packages(&mut packages, crate::app::SortBy::Name);
    proof {
        lemma_all_from_lines_perm(before_sort, packages@, lines);
        lemma_all_wf_perm(before_sort, packages@);
        assert(parses_lines(before_sort, good_lines(lines)) && packages@.to_multiset()
            == before_sort.to_multiset());
    }
    RequirementsFile { path: path.to_owned(), packages, raw_lines }
}

} // verus!
