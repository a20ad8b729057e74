//! Trusted JSON extraction: the `serde_json` call chains the response
//! parsers are built on. Each chain takes the response text and hands
//! back plain values, pinned by an uninterpreted name for what that
//! chain extracts from the text — the extraction is a function of the
//! text alone.

use vstd::prelude::*;

verus! {

/// Whether `serde_json` accepts the text as a JSON document.
pub uninterp spec fn json_ok(s: Seq<char>) -> bool;

/// The `info.version` string of a JSON document; `None` when the
/// document does not parse or carries no such string.
pub uninterp spec fn info_version_of(s: Seq<char>) -> Option<Seq<char>>;

/// Relies on `serde_json::from_str::<Value>`, `Value::get` and
/// `Value::as_str`: reads the document's `info.version` string.
#[verifier::external_body]
pub(crate) fn json_info_version(body: &str) -> (r: Option<String>)
    ensures
        match r {
            Some(v) => info_version_of(body@) == Some(v@),
            None => info_version_of(body@) is None,
        },
{
    let root: serde_json::Value = serde_json::from_str(body).ok()?;
    let version = root.get("info")?.get("version")?.as_str()?;
    Some(version.to_string())
}

/// The `info.version` string paired with the `info.yanked` flag, which
/// defaults to false when absent; `None` when the document does not
/// parse or carries no version.
pub uninterp spec fn info_package_of(s: Seq<char>) -> Option<(Seq<char>, bool)>;

/// Relies on `serde_json::from_str::<Value>`, `Value::get`,
/// `Value::as_str` and `Value::as_bool`: reads the document's
/// `info.version` string and `info.yanked` flag.
#[verifier::external_body]
pub(crate) fn json_info_package(body: &str) -> (r: Option<(String, bool)>)
    ensures
        match r {
            Some(p) => info_package_of(body@) == Some((p.0@, p.1)),
            None => info_package_of(body@) is None,
        },
{
    let root: serde_json::Value = serde_json::from_str(body).ok()?;
    let info = root.get("info")?;
    let version = info.get("version")?.as_str()?.to_string();
    let yanked = info.get("yanked").and_then(|v| v.as_bool()).unwrap_or(false);
    Some((version, yanked))
}

/// The `info.summary` string of a JSON document: `None` when the
/// document does not parse, `Some(None)` when it parses without such a
/// string.
pub uninterp spec fn info_summary_of(s: Seq<char>) -> Option<Option<Seq<char>>>;

/// Relies on `serde_json::from_str::<Value>`, `Value::get` and
/// `Value::as_str`: reads the document's `info.summary` string,
/// distinguishing an unparseable document from a missing summary.
#[verifier::external_body]
pub(crate) fn json_info_summary(body: &str) -> (r: Option<Option<String>>)
    ensures
        r is Some <==> json_ok(body@),
        match r {
            Some(Some(v)) => info_summary_of(body@) == Some(Some(v@)),
            Some(None) => info_summary_of(body@) == Some(None::<Seq<char>>),
            None => info_summary_of(body@) is None,
        },
{
    let root: serde_json::Value = serde_json::from_str(body).ok()?;
    let summary = root.get("info").and_then(|i| i.get("summary")).and_then(|s| s.as_str());
    Some(summary.map(|s| s.to_string()))
}

/// The well-formed rows of a JSON document's `vulns` array: the id,
/// summary and severity label (defaulting to `MEDIUM`) of every entry
/// that carries an id and a summary; an absent or non-array `vulns`
/// gives no rows, and an unparseable document gives `None`.
pub uninterp spec fn vuln_rows_of(s: Seq<char>) -> Option<Seq<(Seq<char>, Seq<char>, Seq<char>)>>;

/// Relies on `serde_json::from_str::<Value>`, `Value::get`,
/// `Value::as_array` and `Value::as_str`: reads the document's `vulns`
/// rows, one (id, summary, severity) triple per well-formed entry.
#[verifier::external_body]
pub(crate) fn json_vuln_rows(body: &str) -> (r: Option<Vec<(String, String, String)>>)
    ensures
        r is Some <==> json_ok(body@),
        match r {
            Some(rows) => vuln_rows_of(body@) == Some(rows.deep_view()),
            None => vuln_rows_of(body@) is None,
        },
{
    let root: serde_json::Value = serde_json::from_str(body).ok()?;
    let rows = root.get("vulns").and_then(|v| v.as_array()).map_or(Vec::new(), |entries| {
        entries.iter().filter_map(|e| {
            let sev = e.get("severity").and_then(|s| s.as_str()).unwrap_or("MEDIUM");
            let id = e.get("id")?.as_str()?.to_string();
            Some((id, e.get("summary")?.as_str()?.to_string(), sev.to_string()))
        }).collect()
    });
    Some(rows)
}

/// The well-formed rows of a JSON document's `data` array: the date and
/// download count of every entry that carries both; an absent or
/// non-array `data` gives no rows, and an unparseable document gives
/// `None`.
pub uninterp spec fn download_rows_of(s: Seq<char>) -> Option<Seq<(Seq<char>, u64)>>;

/// Relies on `serde_json::from_str::<Value>`, `Value::get`,
/// `Value::as_array`, `Value::as_str` and `Value::as_u64`: reads the
/// document's `data` rows, one (date, downloads) pair per well-formed
/// entry.
#[verifier::external_body]
pub(crate) fn json_download_rows(body: &str) -> (r: Option<Vec<(String, u64)>>)
    ensures
        r is Some <==> json_ok(body@),
        match r {
            Some(rows) => download_rows_of(body@) == Some(rows.deep_view()),
            None => download_rows_of(body@) is None,
        },
{
    let root: serde_json::Value = serde_json::from_str(body).ok()?;
    let rows = root.get("data").and_then(|v| v.as_array()).map_or(Vec::new(), |entries| {
        entries.iter().filter_map(|e| {
            Some((e.get("date")?.as_str()?.to_string(), e.get("downloads")?.as_u64()?))
        }).collect()
    });
    Some(rows)
}

} // verus!
