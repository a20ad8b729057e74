//! The popularity fetcher: turns a download-statistics response into a
//! short recent trend, a weekly total, and a coarse monthly estimate.

use vstd::prelude::*;
use vstd::string::*;
use crate::jsonval::{download_rows_of, json_download_rows, json_ok};
use crate::models::PopularityData;

verus! {

/// Saturating addition on `u64`.
pub open spec fn sat_add(a: u64, b: u64) -> u64 {
    if a + b > u64::MAX {
        u64::MAX
    } else {
        (a + b) as u64
    }
}

/// The saturating sum of the download counts in a trend.
pub open spec fn trend_sum(trend: Seq<(String, u64)>) -> u64
    decreases trend.len(),
{
    if trend.len() == 0 {
        0
    } else {
        sat_add(trend_sum(trend.drop_last()), trend.last().1)
    }
}

/// Four weeks of downloads, saturating: the monthly estimate.
pub open spec fn monthly_estimate(weekly: u64) -> u64 {
    if weekly * 4 > u64::MAX {
        u64::MAX
    } else {
        (weekly * 4) as u64
    }
}

/// How many of the response's rows make the trend: the seven most
/// recent, or all of them when fewer.
pub open spec fn trend_len(rows: Seq<(Seq<char>, u64)>) -> int {
    if rows.len() < 7 {
        rows.len() as int
    } else {
        7
    }
}

/// Parses a download-statistics response: `None` on unparseable JSON;
/// otherwise the first (most recent) rows of the body's `data` array, at
/// most seven, become the trend; the weekly total is their (saturating)
/// sum, and the monthly figure is four times the weekly one — an
/// explicit approximation.
pub fn parse_popularity(body: &str) -> (r: Option<PopularityData>)
    ensures
        r is Some <==> json_ok(body@),
        r matches Some(p) ==> {
            &&& (download_rows_of(body@) matches Some(rows) && p.downloads_trend.deep_view()
                == rows.take(trend_len(rows)))
            &&& p.weekly_downloads == trend_sum(p.downloads_trend@)
            &&& p.downloads_last_month == monthly_estimate(p.weekly_downloads)
            &&& p.package_rank is None
        },
{
    let rows = match json_download_rows(body) {
        Some(rows) => rows,
        None => {
            return None;
        },
    };
    let ghost row_views = rows.deep_view();
    let mut trend: Vec<(String, u64)> = Vec::new();
    let mut weekly: u64 = 0;
    let mut i: usize = 0;
    proof {
        assert(trend.deep_view() =~= row_views.take(0));
    }
    while i < rows.len() && i < 7
        invariant
            i <= rows@.len(),
            i <= 7,
            row_views == rows.deep_view(),
            trend@.len() == i,
            trend.deep_view() == row_views.take(i as int),
            weekly == trend_sum(trend@),
        decreases rows@.len() - i,
    {
        proof {
            assert(row_views[i as int] == (rows@[i as int].0@, rows@[i as int].1));
        }
        let row = &rows[i];
        let count = row.1;
        let ghost old_trend = trend@;
        trend.push((row.0.clone(), count));
        if weekly <= u64::MAX - count {
            weekly = weekly + count;
        } else {
            weekly = u64::MAX;
        }
        proof {
            assert(trend@.drop_last() =~= old_trend);
            assert(trend.deep_view() =~= row_views.take(i + 1));
        }
        i = i + 1;
    }
    proof {
        if i < 7 {
            assert(row_views.take(i as int) =~= row_views.take(trend_len(row_views)));
        }
    }
    let downloads_last_month = if weekly <= u64::MAX / 4 {
        weekly * 4
    } else {
        u64::MAX
    };
    Some(
        PopularityData {
            downloads_last_month,
            downloads_trend: trend,
            weekly_downloads: weekly,
            package_rank: None,
        },
    )
}

/// The first cached popularity result for a name, searching from `i`.
pub open spec fn popularity_lookup(
    cache: Seq<(Seq<char>, Option<PopularityData>)>,
    name: Seq<char>,
    i: int,
) -> Option<Option<PopularityData>>
    decreases cache.len() - i,
{
    if i < 0 || i >= cache.len() {
        None
    } else if cache[i].0 == name {
        Some(cache[i].1)
    } else {
        popularity_lookup(cache, name, i + 1)
    }
}

/// The popularity fetcher and its per-name response cache.
pub struct PopularityChecker {
    cache: Vec<(String, Option<PopularityData>)>,
}

impl PopularityChecker {
    /// The cache contents: name views with their cached results.
    pub closed spec fn spec_cache(self) -> Seq<(Seq<char>, Option<PopularityData>)> {
        Seq::new(self.cache@.len(), |i: int| (self.cache@[i].0@, self.cache@[i].1))
    }

    /// A fresh checker with an empty cache.
    pub fn new() -> (r: PopularityChecker)
        ensures
            r.spec_cache() == Seq::<(Seq<char>, Option<PopularityData>)>::empty(),
    {
        let r = PopularityChecker { cache: Vec::new() };
        proof {
            assert(r.spec_cache() =~= Seq::<(Seq<char>, Option<PopularityData>)>::empty());
        }
        r
    }

    /// The cached result for a name, if it was fetched before; the cached
    /// value itself may be `None` for a fetch that failed.
    pub fn lookup(&self, package: &str) -> (r: Option<&Option<PopularityData>>)
        ensures
            match r {
                Some(v) => popularity_lookup(self.spec_cache(), package@, 0) == Some(*v),
                None => popularity_lookup(self.spec_cache(), package@, 0) is None,
            },
    {
        let mut i: usize = 0;
        while i < self.cache.len()
            invariant
                i <= self.cache@.len(),
                popularity_lookup(self.spec_cache(), package@, 0) == popularity_lookup(
                    self.spec_cache(),
                    package@,
                    i as int,
                ),
            decreases self.cache@.len() - i,
        {
            proof {
                assert(self.spec_cache()[i as int] == (self.cache@[i as int].0@, self.cache@[
                    i as int].1));
            }
            if crate::text::str_eq(self.cache[i].0.as_str(), package) {
                return Some(&self.cache[i].1);
            }
            i = i + 1;
        }
        None
    }

    /// Records a fetched (or failed) popularity result for an uncached
    /// name.
    pub fn record(&mut self, package: &str, popularity: Option<PopularityData>)
        ensures
            final(self).spec_cache() == old(self).spec_cache().push((package@, popularity)),
    {
        let ghost before = self.spec_cache();
        let ghost value = popularity;
        let entry = (package.to_owned(), popularity);
        self.cache.push(entry);
        proof {
            assert(self.spec_cache() =~= before.push((package@, value)));
        }
    }
}


impl Default for PopularityChecker {
    /// Same as `new`: a checker with an empty cache.
    fn default() -> (r: PopularityChecker)
        ensures
            r.spec_cache() == Seq::<(Seq<char>, Option<PopularityData>)>::empty(),
    {
        PopularityChecker::new()
    }
}

} // verus!
