//! The catalog: every track the engine can find.

use vstd::prelude::*;

use crate::query::RangeQuery;
use crate::search::{distances_comparable, is_search_result, search};
use crate::track::Track;
use crate::value::ordinal;

verus! {

/// The earliest year of the tracks (`ts` not empty).
pub open spec fn min_year(ts: Seq<Track>) -> int
    decreases ts.len(),
{
    if ts.len() <= 1 {
        ts[0].year as int
    } else {
        let rest = min_year(ts.drop_last());
        if ts.last().year < rest {
            ts.last().year as int
        } else {
            rest
        }
    }
}

/// The latest year of the tracks (`ts` not empty).
pub open spec fn max_year(ts: Seq<Track>) -> int
    decreases ts.len(),
{
    if ts.len() <= 1 {
        ts[0].year as int
    } else {
        let rest = max_year(ts.drop_last());
        if ts.last().year > rest {
            ts.last().year as int
        } else {
            rest
        }
    }
}

/// The span of years the catalog covers, or 1960 to 2030 when it is empty.
pub open spec fn spec_year_bounds(ts: Seq<Track>) -> (int, int) {
    if ts.len() == 0 {
        (1960, 2030)
    } else {
        (min_year(ts), max_year(ts))
    }
}

/// Law: the earliest and latest years bound every track's year and are
/// the years of some track.
pub proof fn lemma_year_bounds_tight(ts: Seq<Track>)
    requires
        ts.len() > 0,
    ensures
        forall|i: int| 0 <= i < ts.len() ==> min_year(ts) <= #[trigger] ts[i].year <= max_year(ts),
        exists|i: int| 0 <= i < ts.len() && ts[i].year == min_year(ts),
        exists|i: int| 0 <= i < ts.len() && ts[i].year == max_year(ts),
    decreases ts.len(),
{
    if ts.len() == 1 {
        assert(ts[0].year == min_year(ts));
        assert(ts[0].year == max_year(ts));
    } else {
        let rest = ts.drop_last();
        lemma_year_bounds_tight(rest);
        assert forall|i: int| 0 <= i < ts.len() implies min_year(ts) <= #[trigger] ts[i].year <= max_year(ts) by {
            if i < ts.len() - 1 {
                assert(ts[i] == rest[i]);
            }
        }
        let last = ts.len() - 1;
        if ts.last().year < min_year(rest) {
            assert(ts[last].year == min_year(ts));
        } else {
            let i = choose|i: int| 0 <= i < rest.len() && rest[i].year == min_year(rest);
            assert(ts[i].year == min_year(ts));
        }
        if ts.last().year > max_year(rest) {
            assert(ts[last].year == max_year(ts));
        } else {
            let i = choose|i: int| 0 <= i < rest.len() && rest[i].year == max_year(rest);
            assert(ts[i].year == max_year(ts));
        }
    }
}

/// Law: the year bounds of a non-empty list of tracks are its earliest and
/// latest years: every track's year lies between them, and each is the year
/// of some track. An empty list has the bounds 1960 and 2030.
pub proof fn lemma_year_bounds_are_extremes(ts: Seq<Track>)
    ensures
        ts.len() == 0 ==> spec_year_bounds(ts) == (1960int, 2030int),
        forall|i: int|
            0 <= i < ts.len() ==> spec_year_bounds(ts).0 <= #[trigger] ts[i].year <= spec_year_bounds(ts).1,
        ts.len() > 0 ==> exists|i: int| 0 <= i < ts.len() && ts[i].year == spec_year_bounds(ts).0,
        ts.len() > 0 ==> exists|i: int| 0 <= i < ts.len() && ts[i].year == spec_year_bounds(ts).1,
{
    if ts.len() > 0 {
        lemma_year_bounds_tight(ts);
    }
}

/// All the tracks the engine searches.
#[derive(Clone)]
pub struct Catalog {
    tracks: Vec<Track>,
}

impl View for Catalog {
    type V = Seq<Track>;

    closed spec fn view(&self) -> Seq<Track> {
        self.tracks@
    }
}

impl Catalog {
    /// The catalog of the given tracks (as read from the catalog data).
    pub fn load(tracks: Vec<Track>) -> (c: Catalog)
        ensures
            c@ == tracks@,
    {
        Catalog { tracks }
    }

    pub fn tracks(&self) -> (r: &[Track])
        ensures
            r@ == self@,
    {
        self.tracks.as_slice()
    }

    pub fn track_count(&self) -> (n: usize)
        ensures
            n == self@.len(),
    {
        self.tracks.len()
    }

    /// The earliest and latest year in the catalog; 1960 and 2030 when it
    /// is empty.
    pub fn year_bounds(&self) -> (r: (u16, u16))
        ensures
            (r.0 as int, r.1 as int) == spec_year_bounds(self@),
            self@.len() == 0 ==> r == (1960u16, 2030u16),
            forall|i: int| 0 <= i < self@.len() ==> r.0 <= #[trigger] self@[i].year <= r.1,
            self@.len() > 0 ==> exists|i: int| 0 <= i < self@.len() && self@[i].year == r.0,
            self@.len() > 0 ==> exists|i: int| 0 <= i < self@.len() && self@[i].year == r.1,
    {
        let n = self.tracks.len();
        if n == 0 {
            return (1960, 2030);
        }
        let mut lo: u16 = self.tracks[0].year;
        let mut hi: u16 = self.tracks[0].year;
        let mut i: usize = 1;
        while i < n
            invariant
                n == self@.len(),
                1 <= i <= n,
                lo == min_year(self@.take(i as int)),
                hi == max_year(self@.take(i as int)),
            decreases n - i,
        {
            let y = self.tracks[i].year;
            assert(self@.take(i as int + 1).drop_last() =~= self@.take(i as int));
            if y < lo {
                lo = y;
            }
            if y > hi {
                hi = y;
            }
            i = i + 1;
        }
        assert(self@.take(n as int) =~= self@);
        proof {
            lemma_year_bounds_are_extremes(self@);
        }
        (lo, hi)
    }

    /// Run a query against the catalog (see `search`): `dists[i]` is the
    /// bit pattern of the distance of track `i` to the query's target.
    pub fn search(&self, query: &RangeQuery, dists: &[u32]) -> (r: Vec<usize>)
        requires
            dists@.len() == self@.len(),
            distances_comparable(self@, *query, dists@),
        ensures
            is_search_result(self@, *query, dists@, r@),
            forall|a: int, b: int|
                0 <= a < b < r@.len() ==> {
                    ||| ordinal(dists@[#[trigger] r@[a] as int]) < ordinal(dists@[#[trigger] r@[b] as int])
                    ||| ordinal(dists@[r@[a] as int]) == ordinal(dists@[r@[b] as int]) && r@[a] < r@[b]
                },
            forall|j: int|
            0 <= j < self@.len() && query.spec_passes_filters(#[trigger] self@[j]) && !r@.contains(j as usize) ==> {
                &&& r@.len() == query.top_k
                &&& forall|k: int| 0 <= k < r@.len() ==> {
                    &&& ordinal(dists@[#[trigger] r@[k] as int]) <= ordinal(dists@[j])
                    &&& ordinal(dists@[r@[k] as int]) == ordinal(dists@[j]) ==> r@[k] < j
                }
            },
    {
        search(self.tracks.as_slice(), query, dists)
    }
}

} // verus!
