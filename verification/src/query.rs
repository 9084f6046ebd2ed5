//! Range queries: what the slider panel produces.

use vstd::prelude::*;

use crate::genre::Genre;
use crate::track::{Dimensions, Track};
use crate::value::{ordinal, spec_is_nan, spec_value_le, value_le, ONE_BITS, ZERO_BITS};

verus! {

/// A closed range `[lo, hi]` on one dimension, from a two-handled slider.
/// Tracks outside it are excluded; the search target is its midpoint.
/// Both ends are binary32 bit patterns.
#[derive(Debug, Clone, Copy)]
pub struct DimRange {
    pub lo: u32,
    pub hi: u32,
}

impl DimRange {
    /// `lo <= v && v <= hi` on the numbers the patterns stand for.
    pub open spec fn spec_contains(self, v: u32) -> bool {
        spec_value_le(self.lo, v) && spec_value_le(v, self.hi)
    }

    /// The whole normalised range, from zero to one.
    pub open spec fn full_spec() -> DimRange {
        DimRange { lo: ZERO_BITS, hi: ONE_BITS }
    }

    /// The whole normalised range, from zero to one.
    pub fn full() -> (r: DimRange)
        ensures
            r == DimRange::full_spec(),
    {
        DimRange { lo: ZERO_BITS, hi: ONE_BITS }
    }

    /// Whether `v` lies in the range (ends included). False when `v` or an
    /// end is NaN.
    pub fn contains(&self, v: u32) -> (r: bool)
        ensures
            r == self.spec_contains(v),
    {
        value_le(self.lo, v) && value_le(v, self.hi)
    }
}

impl Default for DimRange {
    fn default() -> (r: DimRange)
        ensures
            r == DimRange::full_spec(),
    {
        Self::full()
    }
}

/// `v` is a number from zero to one (either zero included).
pub open spec fn in_unit_interval(v: u32) -> bool {
    !spec_is_nan(v) && 0 <= ordinal(v) <= ordinal(ONE_BITS)
}

/// Law: the full range holds every value from zero to one, and nothing else.
pub proof fn lemma_full_range_is_unit_interval(v: u32)
    ensures
        DimRange::full_spec().spec_contains(v) <==> in_unit_interval(v),
{
}

/// What the slider panel produces. Each emotional dimension is a DimRange;
/// tracks outside any range are excluded before scoring.
#[derive(Debug)]
pub struct RangeQuery {
    pub joy: DimRange,
    pub sorrow: DimRange,
    pub intensity: DimRange,
    pub density: DimRange,
    pub velocity: DimRange,
    pub year_range: (u16, u16),
    pub genre_filter: Option<Genre>,
    /// How many results to return (default 10)
    pub top_k: usize,
    /// Per-dimension importance weights (default all one)
    pub weights: Dimensions,
}

/// The query before the user has moved anything: every range full, the
/// years 1960 to 2030, any genre, ten results, equal weights.
pub open spec fn spec_default_query() -> RangeQuery {
    let full = DimRange::full_spec();
    RangeQuery {
        joy: full,
        sorrow: full,
        intensity: full,
        density: full,
        velocity: full,
        year_range: (1960, 2030),
        genre_filter: None,
        top_k: 10,
        weights: Dimensions {
            joy: ONE_BITS,
            sorrow: ONE_BITS,
            intensity: ONE_BITS,
            density: ONE_BITS,
            velocity: ONE_BITS,
        },
    }
}

impl Default for RangeQuery {
    fn default() -> (r: RangeQuery)
        ensures
            r == spec_default_query(),
    {
        RangeQuery {
            joy: DimRange::full(),
            sorrow: DimRange::full(),
            intensity: DimRange::full(),
            density: DimRange::full(),
            velocity: DimRange::full(),
            year_range: (1960, 2030),
            genre_filter: None,
            top_k: 10,
            weights: Dimensions::unit_weight(),
        }
    }
}

impl Clone for RangeQuery {
    fn clone(&self) -> (r: RangeQuery)
        ensures
            r == *self,
    {
        let genre_filter = match &self.genre_filter {
            Some(g) => Some(g.copied()),
            None => None,
        };
        RangeQuery {
            joy: self.joy,
            sorrow: self.sorrow,
            intensity: self.intensity,
            density: self.density,
            velocity: self.velocity,
            year_range: (self.year_range.0, self.year_range.1),
            genre_filter,
            top_k: self.top_k,
            weights: self.weights,
        }
    }
}

impl RangeQuery {
    /// The hard filters: every dimension in its range, the year in the
    /// window (ends included), and the genre, where one is asked for.
    pub open spec fn spec_passes_filters(self, track: Track) -> bool {
        let d = track.dims;
        &&& self.joy.spec_contains(d.joy)
        &&& self.sorrow.spec_contains(d.sorrow)
        &&& self.intensity.spec_contains(d.intensity)
        &&& self.density.spec_contains(d.density)
        &&& self.velocity.spec_contains(d.velocity)
        &&& self.year_range.0 <= track.year
        &&& track.year <= self.year_range.1
        &&& match self.genre_filter {
            Some(g) => track.genre == g,
            None => true,
        }
    }

    /// Returns true if the track passes all hard filters.
    pub fn passes_filters(&self, track: &Track) -> (r: bool)
        ensures
            r == self.spec_passes_filters(*track),
            r ==> spec_value_le(self.joy.lo, track.dims.joy) && spec_value_le(track.dims.joy, self.joy.hi),
            r ==> spec_value_le(self.sorrow.lo, track.dims.sorrow) && spec_value_le(track.dims.sorrow, self.sorrow.hi),
            r ==> spec_value_le(self.intensity.lo, track.dims.intensity) && spec_value_le(track.dims.intensity, self.intensity.hi),
            r ==> spec_value_le(self.density.lo, track.dims.density) && spec_value_le(track.dims.density, self.density.hi),
            r ==> spec_value_le(self.velocity.lo, track.dims.velocity) && spec_value_le(track.dims.velocity, self.velocity.hi),
            r ==> self.year_range.0 <= track.year <= self.year_range.1,
            r ==> (self.genre_filter matches Some(g) ==> track.genre == g),
    {
        let d = &track.dims;
        let genre_ok = match &self.genre_filter {
            Some(g) => track.genre == *g,
            None => true,
        };
        self.joy.contains(d.joy) && self.sorrow.contains(d.sorrow) && self.intensity.contains(
            d.intensity,
        ) && self.density.contains(d.density) && self.velocity.contains(d.velocity)
            && track.year >= self.year_range.0 && track.year <= self.year_range.1 && genre_ok
    }
}

/// Law: a track passes a query's filters exactly when each of its five
/// dimensions lies in that dimension's own range (no end, and not the value,
/// being NaN), its year lies in the window (ends included), and its genre is
/// the one asked for, if any.
pub proof fn lemma_passes_filters_meaning(q: RangeQuery, t: Track)
    ensures
        q.spec_passes_filters(t) <==> {
            &&& !spec_is_nan(q.joy.lo) && !spec_is_nan(q.joy.hi) && !spec_is_nan(t.dims.joy)
            &&& ordinal(q.joy.lo) <= ordinal(t.dims.joy) <= ordinal(q.joy.hi)
            &&& !spec_is_nan(q.sorrow.lo) && !spec_is_nan(q.sorrow.hi) && !spec_is_nan(t.dims.sorrow)
            &&& ordinal(q.sorrow.lo) <= ordinal(t.dims.sorrow) <= ordinal(q.sorrow.hi)
            &&& !spec_is_nan(q.intensity.lo) && !spec_is_nan(q.intensity.hi) && !spec_is_nan(t.dims.intensity)
            &&& ordinal(q.intensity.lo) <= ordinal(t.dims.intensity) <= ordinal(q.intensity.hi)
            &&& !spec_is_nan(q.density.lo) && !spec_is_nan(q.density.hi) && !spec_is_nan(t.dims.density)
            &&& ordinal(q.density.lo) <= ordinal(t.dims.density) <= ordinal(q.density.hi)
            &&& !spec_is_nan(q.velocity.lo) && !spec_is_nan(q.velocity.hi) && !spec_is_nan(t.dims.velocity)
            &&& ordinal(q.velocity.lo) <= ordinal(t.dims.velocity) <= ordinal(q.velocity.hi)
            &&& q.year_range.0 <= t.year <= q.year_range.1
            &&& (q.genre_filter matches Some(g) ==> t.genre == g)
        },
{
}

/// Law: the default query keeps exactly the tracks from 1960 to 2030 whose
/// dimensions all lie between zero and one.
pub proof fn lemma_default_query_filters(track: Track)
    ensures
        spec_default_query().spec_passes_filters(track) <==> {
            &&& in_unit_interval(track.dims.joy)
            &&& in_unit_interval(track.dims.sorrow)
            &&& in_unit_interval(track.dims.intensity)
            &&& in_unit_interval(track.dims.density)
            &&& in_unit_interval(track.dims.velocity)
            &&& 1960 <= track.year <= 2030
        },
{
}

} // verus!
