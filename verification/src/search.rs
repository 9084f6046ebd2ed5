//! Ranking: the hard filters, then the matches closest to the target first.
//!
//! The distance of each track to the query's target is binary32 arithmetic
//! done by the caller; the search takes those distances by their bit
//! patterns (`dists[i]` for `tracks[i]`) and decides everything else: which
//! tracks pass the filters, their order, and how many are returned.

use vstd::prelude::*;

use crate::query::RangeQuery;
use crate::track::Track;
use crate::value::{ordinal, ordinal_of, spec_is_nan};

verus! {

/// Track `i` ranks before track `j`: it is closer to the target, or as
/// close and earlier in the catalog (the sort is stable).
pub open spec fn ranks_before(dists: Seq<u32>, i: int, j: int) -> bool {
    ||| ordinal(dists[i]) < ordinal(dists[j])
    ||| ordinal(dists[i]) == ordinal(dists[j]) && i < j
}

/// `tracks[i]` exists and passes the query's hard filters.
pub open spec fn is_match(tracks: Seq<Track>, query: RangeQuery, i: int) -> bool {
    0 <= i < tracks.len() && query.spec_passes_filters(tracks[i])
}

/// The distances can be ordered: where two or more tracks match, no match
/// has a NaN distance (the ranking sort could not compare it).
pub open spec fn distances_comparable(tracks: Seq<Track>, query: RangeQuery, dists: Seq<u32>) -> bool {
    forall|i: int, j: int|
        #![trigger is_match(tracks, query, i), is_match(tracks, query, j)]
        is_match(tracks, query, i) && is_match(tracks, query, j) && i != j ==> !spec_is_nan(dists[i])
}

/// `r` is the answer to `query` over `tracks`: matches only, at most
/// `top_k` of them, best first, and no match left out that ranks before one
/// taken (a match is left out only when `top_k` are taken, and then it ranks
/// after all of them).
pub open spec fn is_search_result(
    tracks: Seq<Track>,
    query: RangeQuery,
    dists: Seq<u32>,
    r: Seq<usize>,
) -> bool {
    &&& r.len() <= query.top_k
    &&& forall|k: int| 0 <= k < r.len() ==> #[trigger] is_match(tracks, query, r[k] as int)
    &&& forall|a: int, b: int|
        0 <= a < b < r.len() ==> ranks_before(dists, #[trigger] r[a] as int, #[trigger] r[b] as int)
    &&& forall|j: int|
        #[trigger] is_match(tracks, query, j) && !r.contains(j as usize) ==> {
            &&& r.len() == query.top_k
            &&& forall|k: int| 0 <= k < r.len() ==> ranks_before(dists, #[trigger] r[k] as int, j)
        }
}

/// `j` may come next after the ranking so far: it ranks after the last one
/// taken (any match may come first).
pub open spec fn after_last(dists: Seq<u32>, r: Seq<usize>, j: int) -> bool {
    r.len() == 0 || ranks_before(dists, r.last() as int, j)
}

fn ranks_before_exec(dists: &[u32], i: usize, j: usize) -> (b: bool)
    requires
        i < dists@.len(),
        j < dists@.len(),
    ensures
        b == ranks_before(dists@, i as int, j as int),
{
    let oi = ordinal_of(dists[i]);
    let oj = ordinal_of(dists[j]);
    oi < oj || (oi == oj && i < j)
}

/// Run a query against a slice of tracks. Returns the indices of up to
/// `query.top_k` matches, sorted by ascending distance (best first).
pub fn search(tracks: &[Track], query: &RangeQuery, dists: &[u32]) -> (r: Vec<usize>)
    requires
        dists@.len() == tracks@.len(),
        distances_comparable(tracks@, *query, dists@),
    ensures
        is_search_result(tracks@, *query, dists@, r@),
        forall|a: int, b: int|
            0 <= a < b < r@.len() ==> {
                ||| ordinal(dists@[#[trigger] r@[a] as int]) < ordinal(dists@[#[trigger] r@[b] as int])
                ||| ordinal(dists@[r@[a] as int]) == ordinal(dists@[r@[b] as int]) && r@[a] < r@[b]
            },
        forall|j: int|
            0 <= j < tracks@.len() && query.spec_passes_filters(#[trigger] tracks@[j]) && !r@.contains(j as usize) ==> {
                &&& r@.len() == query.top_k
                &&& forall|k: int| 0 <= k < r@.len() ==> {
                    &&& ordinal(dists@[#[trigger] r@[k] as int]) <= ordinal(dists@[j])
                    &&& ordinal(dists@[r@[k] as int]) == ordinal(dists@[j]) ==> r@[k] < j
                }
            },
{
    let n = tracks.len();
    let mut matches: Vec<bool> = Vec::new();
    for i in 0..n
        invariant
            n == tracks@.len(),
            matches@.len() == i,
            forall|k: int| 0 <= k < i ==> matches@[k] == is_match(tracks@, *query, k),
    {
        matches.push(query.passes_filters(&tracks[i]));
    }
    let mut r: Vec<usize> = Vec::new();
    while r.len() < query.top_k
        invariant
            n == tracks@.len(),
            n == dists@.len(),
            matches@.len() == n,
            forall|k: int| 0 <= k < n ==> matches@[k] == is_match(tracks@, *query, k),
            r@.len() <= query.top_k,
            forall|k: int| 0 <= k < r@.len() ==> #[trigger] is_match(tracks@, *query, r@[k] as int),
            forall|a: int, b: int|
                0 <= a < b < r@.len() ==> ranks_before(dists@, #[trigger] r@[a] as int, #[trigger] r@[b] as int),
            forall|j: int|
                #[trigger] is_match(tracks@, *query, j) && !after_last(dists@, r@, j) ==> r@.contains(j as usize),
        ensures
            is_search_result(tracks@, *query, dists@, r@),
        decreases query.top_k - r@.len(),
    {
        let ghost prev = r@;
        assert forall|k: int| 0 <= k < r@.len() implies r@[k] < n by {
            assert(is_match(tracks@, *query, r@[k] as int));
        }
        let mut best: Option<usize> = None;
        for j in 0..n
            invariant
                n == tracks@.len(),
                n == dists@.len(),
                matches@.len() == n,
                forall|k: int| 0 <= k < n ==> matches@[k] == is_match(tracks@, *query, k),
                r@ == prev,
                forall|k: int| 0 <= k < r@.len() ==> r@[k] < n,
                match best {
                    Some(b) => {
                        &&& b < j
                        &&& is_match(tracks@, *query, b as int)
                        &&& after_last(dists@, r@, b as int)
                        &&& forall|m: int|
                            0 <= m < j && #[trigger] is_match(tracks@, *query, m) && after_last(dists@, r@, m)
                                ==> m == b || ranks_before(dists@, b as int, m)
                    },
                    None => forall|m: int|
                        0 <= m < j && #[trigger] is_match(tracks@, *query, m) ==> !after_last(dists@, r@, m),
                },
        {
            let eligible = matches[j] && (r.len() == 0 || ranks_before_exec(dists, r[r.len() - 1], j));
            if eligible {
                match best {
                    None => {
                        best = Some(j);
                    },
                    Some(b) => {
                        if ranks_before_exec(dists, j, b) {
                            best = Some(j);
                        }
                    },
                }
            }
        }
        match best {
            None => {
                assert forall|j: int| #[trigger]
                    is_match(tracks@, *query, j) && !r@.contains(j as usize) implies {
                    &&& r@.len() == query.top_k
                    &&& forall|k: int| 0 <= k < r@.len() ==> ranks_before(dists@, #[trigger] r@[k] as int, j)
                } by {
                    assert(!after_last(dists@, r@, j));
                }
                proof {
                    lemma_search_closest_first(tracks@, *query, dists@, r@);
                }
                return r;
            },
            Some(b) => {
                r.push(b);
                assert forall|j: int|
                    #[trigger] is_match(tracks@, *query, j) && !after_last(dists@, r@, j) implies r@.contains(
                    j as usize,
                ) by {
                    if j == b as int {
                        assert(r@[r@.len() - 1] == b);
                    } else if after_last(dists@, prev, j) {
                        assert(ranks_before(dists@, b as int, j));
                    } else {
                        assert(prev.contains(j as usize));
                        let k = choose|k: int| 0 <= k < prev.len() && prev[k] == j as usize;
                        assert(r@[k] == prev[k]);
                    }
                }
            },
        }
    }
    proof {
        assert forall|j: int| #[trigger]
            is_match(tracks@, *query, j) && !r@.contains(j as usize) implies {
            &&& r@.len() == query.top_k
            &&& forall|k: int| 0 <= k < r@.len() ==> ranks_before(dists@, #[trigger] r@[k] as int, j)
        } by {
            assert(after_last(dists@, r@, j));
            assert forall|k: int| 0 <= k < r@.len() implies ranks_before(dists@, #[trigger] r@[k] as int, j) by {
                if k < r@.len() - 1 {
                    assert(ranks_before(dists@, r@[k] as int, r@[r@.len() - 1] as int));
                }
            }
        }
        lemma_search_closest_first(tracks@, *query, dists@, r@);
    }
    r
}

/// Law: an answer lists its tracks by ascending distance to the target
/// (ties in catalog order), and a match it leaves out is left out only when
/// `top_k` tracks are taken, and is no closer than any of them (when as
/// close, it comes later in the catalog).
pub proof fn lemma_search_closest_first(
    tracks: Seq<Track>,
    query: RangeQuery,
    dists: Seq<u32>,
    r: Seq<usize>,
)
    requires
        is_search_result(tracks, query, dists, r),
    ensures
        r.len() <= query.top_k,
        forall|k: int| 0 <= k < r.len() ==> #[trigger] r[k] < tracks.len() && query.spec_passes_filters(
            tracks[r[k] as int],
        ),
        forall|a: int, b: int|
            0 <= a < b < r.len() ==> {
                ||| ordinal(dists[#[trigger] r[a] as int]) < ordinal(dists[#[trigger] r[b] as int])
                ||| ordinal(dists[r[a] as int]) == ordinal(dists[r[b] as int]) && r[a] < r[b]
            },
        forall|j: int|
            0 <= j < tracks.len() && query.spec_passes_filters(#[trigger] tracks[j]) && !r.contains(j as usize) ==> {
                &&& r.len() == query.top_k
                &&& forall|k: int| 0 <= k < r.len() ==> {
                    &&& ordinal(dists[#[trigger] r[k] as int]) <= ordinal(dists[j])
                    &&& ordinal(dists[r[k] as int]) == ordinal(dists[j]) ==> r[k] < j
                }
            },
{
    assert forall|k: int| 0 <= k < r.len() implies #[trigger] r[k] < tracks.len()
        && query.spec_passes_filters(tracks[r[k] as int]) by {
        assert(is_match(tracks, query, r[k] as int));
    }
    assert forall|j: int|
            0 <= j < tracks.len() && query.spec_passes_filters(#[trigger] tracks[j]) && !r.contains(j as usize) implies {
                &&& r.len() == query.top_k
                &&& forall|k: int| 0 <= k < r.len() ==> {
                    &&& ordinal(dists[#[trigger] r[k] as int]) <= ordinal(dists[j])
                    &&& ordinal(dists[r[k] as int]) == ordinal(dists[j]) ==> r[k] < j
                }
            } by {
        assert(is_match(tracks, query, j));
        assert forall|k: int| 0 <= k < r.len() implies {
            &&& ordinal(dists[#[trigger] r[k] as int]) <= ordinal(dists[j])
            &&& ordinal(dists[r[k] as int]) == ordinal(dists[j]) ==> r[k] < j
        } by {
            assert(ranks_before(dists, r[k] as int, j));
        }
    }
}

/// The two queries filter alike: they differ at most in `top_k` and
/// `weights` (the weights act only through the distances).
pub open spec fn same_filters(q1: RangeQuery, q2: RangeQuery) -> bool {
    &&& q1.joy == q2.joy
    &&& q1.sorrow == q2.sorrow
    &&& q1.intensity == q2.intensity
    &&& q1.density == q2.density
    &&& q1.velocity == q2.velocity
    &&& q1.year_range == q2.year_range
    &&& q1.genre_filter == q2.genre_filter
}

/// Two answers that agree before position `k` agree at `k` too.
proof fn lemma_results_agree_at(
    tracks: Seq<Track>,
    q1: RangeQuery,
    q2: RangeQuery,
    dists: Seq<u32>,
    r1: Seq<usize>,
    r2: Seq<usize>,
    k: int,
)
    requires
        same_filters(q1, q2),
        is_search_result(tracks, q1, dists, r1),
        is_search_result(tracks, q2, dists, r2),
        0 <= k < r1.len(),
        k < r2.len(),
        forall|i: int| 0 <= i < k ==> r1[i] == r2[i],
    ensures
        r1[k] == r2[k],
{
    let a = r1[k];
    let b = r2[k];
    if a != b {
        assert(is_match(tracks, q1, a as int));
        assert(is_match(tracks, q2, b as int));
        assert(is_match(tracks, q2, a as int));
        assert(is_match(tracks, q1, b as int));
        // a ranks before b
        if r1.contains(b) {
            let p = choose|p: int| 0 <= p < r1.len() && r1[p] == b;
            if p < k {
                assert(r2[p] == b);
                assert(ranks_before(dists, r2[p] as int, r2[k] as int));
            }
            assert(p > k);
            assert(ranks_before(dists, r1[k] as int, r1[p] as int));
        } else {
            assert(ranks_before(dists, r1[k] as int, b as int));
        }
        // b ranks before a
        if r2.contains(a) {
            let p = choose|p: int| 0 <= p < r2.len() && r2[p] == a;
            if p < k {
                assert(r1[p] == a);
                assert(ranks_before(dists, r1[p] as int, r1[k] as int));
            }
            assert(p > k);
            assert(ranks_before(dists, r2[k] as int, r2[p] as int));
        } else {
            assert(ranks_before(dists, r2[k] as int, a as int));
        }
        assert(false);
    }
}

/// Two answers agree on their first `k` positions.
proof fn lemma_results_agree_upto(
    tracks: Seq<Track>,
    q1: RangeQuery,
    q2: RangeQuery,
    dists: Seq<u32>,
    r1: Seq<usize>,
    r2: Seq<usize>,
    k: int,
)
    requires
        same_filters(q1, q2),
        is_search_result(tracks, q1, dists, r1),
        is_search_result(tracks, q2, dists, r2),
        0 <= k <= r1.len(),
        k <= r2.len(),
    ensures
        forall|i: int| 0 <= i < k ==> r1[i] == r2[i],
    decreases k,
{
    if k > 0 {
        lemma_results_agree_upto(tracks, q1, q2, dists, r1, r2, k - 1);
        lemma_results_agree_at(tracks, q1, q2, dists, r1, r2, k - 1);
    }
}

/// Law: with the same tracks, distances and filters, the answer for a
/// smaller `top_k` is the start of the answer for a larger one; with equal
/// `top_k` the two answers are equal (the ranking is determined).
pub proof fn lemma_search_top_k_prefix(
    tracks: Seq<Track>,
    q1: RangeQuery,
    q2: RangeQuery,
    dists: Seq<u32>,
    r1: Seq<usize>,
    r2: Seq<usize>,
)
    requires
        same_filters(q1, q2),
        q1.top_k <= q2.top_k,
        is_search_result(tracks, q1, dists, r1),
        is_search_result(tracks, q2, dists, r2),
    ensures
        r1.len() <= r2.len(),
        r1 == r2.take(r1.len() as int),
        q1.top_k == q2.top_k ==> r1 == r2,
{
    let m = if r1.len() <= r2.len() { r1.len() as int } else { r2.len() as int };
    lemma_results_agree_upto(tracks, q1, q2, dists, r1, r2, m);
    if r2.len() < r1.len() {
        let x = r1[r2.len() as int];
        assert(is_match(tracks, q1, x as int));
        assert(is_match(tracks, q2, x as int));
        if r2.contains(x) {
            let p = choose|p: int| 0 <= p < r2.len() && r2[p] == x;
            assert(r1[p] == x);
            assert(ranks_before(dists, r1[p] as int, r1[r2.len() as int] as int));
        }
        assert(false);
    }
    assert(r1 =~= r2.take(r1.len() as int));
    if q1.top_k == q2.top_k && r1.len() < r2.len() {
        let x = r2[r1.len() as int];
        assert(is_match(tracks, q2, x as int));
        assert(is_match(tracks, q1, x as int));
        if r1.contains(x) {
            let p = choose|p: int| 0 <= p < r1.len() && r1[p] == x;
            assert(r2[p] == x);
            assert(ranks_before(dists, r2[p] as int, r2[r1.len() as int] as int));
        }
        assert(false);
    }
}

} // verus!
