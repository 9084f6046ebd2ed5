use glass_engine::query::{DimRange, RangeQuery};
use glass_engine::search::search;
use glass_engine::track::{Dimensions, Track};
use glass_engine::Genre;

fn b(x: f32) -> u32 {
    x.to_bits()
}

fn make_track(id: u32, joy: f32, sorrow: f32, year: u16, genre: Genre) -> Track {
    Track {
        id,
        title: format!("Track {id}"),
        year,
        duration_secs: 300,
        genre,
        dims: Dimensions {
            joy: b(joy),
            sorrow: b(sorrow),
            intensity: b(0.5),
            density: b(0.5),
            velocity: b(0.5),
        },
        note: None,
    }
}

fn sample_catalog() -> Vec<Track> {
    vec![
        make_track(1, 0.9, 0.1, 1980, Genre::Chamber),   // very joyful
        make_track(2, 0.1, 0.9, 1985, Genre::Opera),     // very sorrowful
        make_track(3, 0.5, 0.5, 2000, Genre::FilmScore), // neutral
        make_track(4, 0.8, 0.2, 1990, Genre::Chamber),   // mostly joyful
    ]
}

fn f(bits: u32) -> f32 {
    f32::from_bits(bits)
}

fn mid(r: &DimRange) -> f32 {
    (f(r.lo) + f(r.hi)) * 0.5
}

/// The distance of each track to the query's target (midpoints of the
/// ranges, weighted Euclidean), as the caller of `search` computes it.
fn distances(tracks: &[Track], q: &RangeQuery) -> Vec<u32> {
    let term = |a: u32, t: f32, w: u32| f(w) * (f(a) - t).powi(2);
    tracks
        .iter()
        .map(|t| {
            let d = &t.dims;
            let sq = term(d.joy, mid(&q.joy), q.weights.joy)
                + term(d.sorrow, mid(&q.sorrow), q.weights.sorrow)
                + term(d.intensity, mid(&q.intensity), q.weights.intensity)
                + term(d.density, mid(&q.density), q.weights.density)
                + term(d.velocity, mid(&q.velocity), q.weights.velocity);
            sq.sqrt().to_bits()
        })
        .collect()
}

fn run(tracks: &[Track], q: &RangeQuery) -> Vec<usize> {
    let dists = distances(tracks, q);
    search(tracks, q, &dists)
}

#[test]
fn search_returns_closest_to_target() {
    let tracks = sample_catalog();
    let q = RangeQuery {
        joy: DimRange { lo: b(0.0), hi: b(1.0) },
        sorrow: DimRange { lo: b(0.0), hi: b(1.0) },
        ..RangeQuery::default()
    };
    // Targeting pure joy: should rank track 1 first
    let target_q = RangeQuery {
        joy: DimRange { lo: b(0.8), hi: b(1.0) },
        sorrow: DimRange { lo: b(0.0), hi: b(0.2) },
        ..q
    };
    let results = run(&tracks, &target_q);
    assert!(!results.is_empty());
    assert_eq!(tracks[results[0]].id, 1);
}

#[test]
fn genre_filter_excludes_non_matching() {
    let tracks = sample_catalog();
    let q = RangeQuery {
        genre_filter: Some(Genre::Opera),
        ..RangeQuery::default()
    };
    let results = run(&tracks, &q);
    assert!(results.iter().all(|&r| tracks[r].genre == Genre::Opera));
}

#[test]
fn year_range_filter_works() {
    let tracks = sample_catalog();
    let q = RangeQuery {
        year_range: (1984, 1992),
        ..RangeQuery::default()
    };
    let results = run(&tracks, &q);
    assert!(results.iter().all(|&r| tracks[r].year >= 1984 && tracks[r].year <= 1992));
    // tracks 2 and 4 are in range; track 1 (1980) and 3 (2000) are not
    let ids: Vec<u32> = results.iter().map(|&r| tracks[r].id).collect();
    assert!(ids.contains(&2));
    assert!(ids.contains(&4));
    assert!(!ids.contains(&1));
    assert!(!ids.contains(&3));
}

#[test]
fn top_k_limits_results() {
    let tracks = sample_catalog();
    let q = RangeQuery { top_k: 2, ..RangeQuery::default() };
    let results = run(&tracks, &q);
    assert!(results.len() <= 2);
}

#[test]
fn default_query_ranks_every_sample_track_by_distance() {
    // Target is the neutral point: track 3 sits on it, track 4 is next
    // (0.3, 0.3 away), then track 1 (0.4, 0.4), then track 2 (0.4, 0.4 the
    // other way, later in the catalog).
    let tracks = sample_catalog();
    let results = run(&tracks, &RangeQuery::default());
    assert_eq!(results, vec![2, 3, 0, 1]);
}

#[test]
fn search_top_k_takes_a_prefix() {
    let tracks = sample_catalog();
    let all = run(&tracks, &RangeQuery::default());
    for k in 0..6 {
        let q = RangeQuery { top_k: k, ..RangeQuery::default() };
        let r = run(&tracks, &q);
        assert_eq!(r.len(), k.min(4));
        assert_eq!(&r[..], &all[..r.len()]);
    }
}

#[test]
fn search_with_top_k_zero_is_empty() {
    let tracks = sample_catalog();
    let q = RangeQuery { top_k: 0, ..RangeQuery::default() };
    assert!(run(&tracks, &q).is_empty());
}

#[test]
fn search_over_no_tracks_is_empty() {
    let q = RangeQuery::default();
    assert!(search(&[], &q, &[]).is_empty());
}

#[test]
fn search_keeps_catalog_order_on_equal_distances() {
    let tracks = vec![
        make_track(10, 0.5, 0.5, 1990, Genre::Other),
        make_track(11, 0.5, 0.5, 1990, Genre::Other),
        make_track(12, 0.5, 0.5, 1990, Genre::Other),
    ];
    let q = RangeQuery::default();
    // Equal distances, given in different bit forms of zero.
    let dists = vec![b(0.0), b(-0.0), b(0.0)];
    assert_eq!(search(&tracks, &q, &dists), vec![0, 1, 2]);
    let dists = vec![b(0.3), b(0.1), b(0.1)];
    assert_eq!(search(&tracks, &q, &dists), vec![1, 2, 0]);
}

#[test]
fn search_excludes_tracks_outside_a_dimension_range() {
    let tracks = sample_catalog();
    let q = RangeQuery {
        sorrow: DimRange { lo: b(0.0), hi: b(0.2) },
        ..RangeQuery::default()
    };
    let results = run(&tracks, &q);
    let ids: Vec<u32> = results.iter().map(|&r| tracks[r].id).collect();
    // Track 1 (sorrow 0.1) and track 4 (sorrow 0.2) pass.
    assert_eq!(ids.len(), 2);
    assert!(ids.contains(&1));
    assert!(ids.contains(&4));
}

#[test]
fn search_single_match_with_nan_distance_is_returned() {
    let tracks = sample_catalog();
    let q = RangeQuery { year_range: (1980, 1980), ..RangeQuery::default() };
    let dists = vec![f32::NAN.to_bits(), b(0.0), b(0.0), b(0.0)];
    assert_eq!(search(&tracks, &q, &dists), vec![0]);
}
