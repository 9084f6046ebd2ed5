use glass_engine::catalog::Catalog;
use glass_engine::query::{DimRange, RangeQuery};
use glass_engine::timeline::{move_year_hi, move_year_lo};
use glass_engine::track::{Dimensions, Track};
use glass_engine::value::{is_nan, ordinal_of, value_le, HALF_BITS, ONE_BITS, ZERO_BITS};
use glass_engine::Genre;

fn b(x: f32) -> u32 {
    x.to_bits()
}

fn track(id: u32, year: u16, secs: u32, genre: Genre, dims: [f32; 5]) -> Track {
    Track {
        id,
        title: format!("Track {id}"),
        year,
        duration_secs: secs,
        genre,
        dims: Dimensions {
            joy: b(dims[0]),
            sorrow: b(dims[1]),
            intensity: b(dims[2]),
            density: b(dims[3]),
            velocity: b(dims[4]),
        },
        note: None,
    }
}

#[test]
fn genre_labels() {
    assert_eq!(Genre::Opera.label(), "Opera");
    assert_eq!(Genre::FilmScore.label(), "Film Score");
    assert_eq!(Genre::Chamber.label(), "Chamber");
    assert_eq!(Genre::Orchestral.label(), "Orchestral");
    assert_eq!(Genre::Keyboard.label(), "Keyboard");
    assert_eq!(Genre::Choral.label(), "Choral");
    assert_eq!(Genre::Other.label(), "Other");
}

#[test]
fn genre_all_lists_each_genre_once() {
    let all = Genre::all();
    assert_eq!(all.len(), 7);
    assert_eq!(
        all,
        &[
            Genre::Opera,
            Genre::FilmScore,
            Genre::Chamber,
            Genre::Orchestral,
            Genre::Keyboard,
            Genre::Choral,
            Genre::Other
        ]
    );
    for i in 0..all.len() {
        for j in 0..all.len() {
            assert_eq!(i == j, all[i] == all[j]);
            assert_eq!(i == j, all[i].label() == all[j].label());
        }
    }
}

#[test]
fn duration_str_formats_minutes_and_padded_seconds() {
    let cases: [(u32, &str); 8] = [
        (272, "4:32"),
        (300, "5:00"),
        (5, "0:05"),
        (0, "0:00"),
        (59, "0:59"),
        (60, "1:00"),
        (3661, "61:01"),
        (u32::MAX, "71582788:15"),
    ];
    for (secs, want) in cases {
        let t = track(1, 2000, secs, Genre::Other, [0.5; 5]);
        assert_eq!(t.duration_str(), want);
        assert_eq!(t.duration_str(), format!("{}:{:02}", secs / 60, secs % 60));
    }
}

#[test]
fn dimension_constants_are_half_and_one() {
    let n = Dimensions::neutral();
    for v in [n.joy, n.sorrow, n.intensity, n.density, n.velocity] {
        assert_eq!(f32::from_bits(v), 0.5);
    }
    let w = Dimensions::unit_weight();
    for v in [w.joy, w.sorrow, w.intensity, w.density, w.velocity] {
        assert_eq!(f32::from_bits(v), 1.0);
    }
    assert_eq!(f32::from_bits(HALF_BITS), 0.5);
    assert_eq!(f32::from_bits(ONE_BITS), 1.0);
    assert_eq!(f32::from_bits(ZERO_BITS), 0.0);
}

fn sample_values() -> Vec<f32> {
    vec![
        0.0,
        -0.0,
        0.1,
        0.2,
        0.5,
        0.8,
        1.0,
        -1.0,
        -0.5,
        f32::MIN_POSITIVE,
        -f32::MIN_POSITIVE,
        f32::from_bits(1),
        f32::from_bits(0x8000_0001),
        f32::MAX,
        f32::MIN,
        f32::INFINITY,
        f32::NEG_INFINITY,
        f32::NAN,
        -f32::NAN,
        f32::from_bits(0x7f80_0001),
        f32::from_bits(0xffc0_0000),
        1.0e-30,
        123456.0,
    ]
}

#[test]
fn value_order_agrees_with_binary32_comparison() {
    let vals = sample_values();
    for &x in &vals {
        assert_eq!(is_nan(b(x)), x.is_nan());
        for &y in &vals {
            assert_eq!(value_le(b(x), b(y)), x <= y, "{x} <= {y}");
            if !x.is_nan() && !y.is_nan() {
                assert_eq!(ordinal_of(b(x)) < ordinal_of(b(y)), x < y, "{x} < {y}");
                assert_eq!(ordinal_of(b(x)) == ordinal_of(b(y)), x == y, "{x} == {y}");
            }
        }
    }
}

#[test]
fn dim_range_contains_matches_binary32_comparison() {
    let vals = sample_values();
    for &lo in &vals {
        for &hi in &vals {
            let r = DimRange { lo: b(lo), hi: b(hi) };
            for &v in &vals {
                assert_eq!(r.contains(b(v)), v >= lo && v <= hi);
            }
        }
    }
}

#[test]
fn full_range_is_zero_to_one() {
    let r = DimRange::full();
    assert_eq!(f32::from_bits(r.lo), 0.0);
    assert_eq!(f32::from_bits(r.hi), 1.0);
    let d = DimRange::default();
    assert_eq!((d.lo, d.hi), (r.lo, r.hi));
    assert!(r.contains(b(0.0)));
    assert!(r.contains(b(-0.0)));
    assert!(r.contains(b(0.5)));
    assert!(r.contains(b(1.0)));
    assert!(!r.contains(b(1.0000001)));
    assert!(!r.contains(b(-0.1)));
    assert!(!r.contains(f32::NAN.to_bits()));
}

#[test]
fn default_query_values() {
    let q = RangeQuery::default();
    for r in [q.joy, q.sorrow, q.intensity, q.density, q.velocity] {
        assert_eq!((f32::from_bits(r.lo), f32::from_bits(r.hi)), (0.0, 1.0));
    }
    assert_eq!(q.year_range, (1960, 2030));
    assert_eq!(q.genre_filter, None);
    assert_eq!(q.top_k, 10);
    let w = q.weights;
    for v in [w.joy, w.sorrow, w.intensity, w.density, w.velocity] {
        assert_eq!(f32::from_bits(v), 1.0);
    }
    let c = q.clone();
    assert_eq!(c.year_range, q.year_range);
    assert_eq!(c.top_k, q.top_k);
}

#[test]
fn passes_filters_checks_every_filter() {
    let q = RangeQuery {
        joy: DimRange { lo: b(0.2), hi: b(0.8) },
        year_range: (1980, 1990),
        genre_filter: Some(Genre::Choral),
        ..RangeQuery::default()
    };
    let ok = track(1, 1985, 60, Genre::Choral, [0.5; 5]);
    assert!(q.passes_filters(&ok));
    assert!(q.passes_filters(&track(1, 1980, 60, Genre::Choral, [0.2, 0.0, 0.0, 1.0, 1.0])));
    assert!(q.passes_filters(&track(1, 1990, 60, Genre::Choral, [0.8, 0.5, 0.5, 0.5, 0.5])));
    assert!(!q.passes_filters(&track(1, 1979, 60, Genre::Choral, [0.5; 5])));
    assert!(!q.passes_filters(&track(1, 1991, 60, Genre::Choral, [0.5; 5])));
    assert!(!q.passes_filters(&track(1, 1985, 60, Genre::Opera, [0.5; 5])));
    assert!(!q.passes_filters(&track(1, 1985, 60, Genre::Choral, [0.9, 0.5, 0.5, 0.5, 0.5])));
    assert!(!q.passes_filters(&track(1, 1985, 60, Genre::Choral, [0.5, 1.5, 0.5, 0.5, 0.5])));
    assert!(!q.passes_filters(&track(1, 1985, 60, Genre::Choral, [0.5, 0.5, -0.5, 0.5, 0.5])));
    assert!(!q.passes_filters(&track(1, 1985, 60, Genre::Choral, [0.5, 0.5, 0.5, f32::NAN, 0.5])));
    assert!(!q.passes_filters(&track(1, 1985, 60, Genre::Choral, [0.5, 0.5, 0.5, 0.5, 2.0])));
    let any_genre = RangeQuery { genre_filter: None, ..q };
    assert!(any_genre.passes_filters(&track(1, 1985, 60, Genre::Opera, [0.5; 5])));
}

#[test]
fn catalog_accessors_and_year_bounds() {
    let empty = Catalog::load(vec![]);
    assert_eq!(empty.track_count(), 0);
    assert!(empty.tracks().is_empty());
    assert_eq!(empty.year_bounds(), (1960, 2030));

    let tracks = vec![
        track(1, 1980, 60, Genre::Chamber, [0.5; 5]),
        track(2, 1975, 60, Genre::Opera, [0.5; 5]),
        track(3, 2005, 60, Genre::Other, [0.5; 5]),
        track(4, 1990, 60, Genre::Choral, [0.5; 5]),
    ];
    let c = Catalog::load(tracks);
    assert_eq!(c.track_count(), 4);
    let ids: Vec<u32> = c.tracks().iter().map(|t| t.id).collect();
    assert_eq!(ids, vec![1, 2, 3, 4]);
    assert_eq!(c.year_bounds(), (1975, 2005));

    let one = Catalog::load(vec![track(9, 2001, 1, Genre::Other, [0.5; 5])]);
    assert_eq!(one.year_bounds(), (2001, 2001));
}

#[test]
fn catalog_search_ranks_matches() {
    let tracks = vec![
        track(1, 1980, 60, Genre::Chamber, [0.5; 5]),
        track(2, 1975, 60, Genre::Opera, [0.5; 5]),
        track(3, 2005, 60, Genre::Chamber, [0.5; 5]),
        track(4, 1990, 60, Genre::Chamber, [0.5; 5]),
    ];
    let c = Catalog::load(tracks);
    let q = RangeQuery { genre_filter: Some(Genre::Chamber), top_k: 2, ..RangeQuery::default() };
    let dists = [b(0.3), b(0.0), b(0.2), b(0.1)];
    assert_eq!(c.search(&q, &dists), vec![3, 2]);
    let q = RangeQuery { top_k: 10, ..q };
    assert_eq!(c.search(&q, &dists), vec![3, 2, 0]);
}

#[test]
fn year_slider_handles_stop_at_each_other() {
    let bounds = (1960, 2030);
    assert_eq!(move_year_lo((1970, 1990), bounds, Some(1980)), (1980, 1990));
    assert_eq!(move_year_lo((1970, 1990), bounds, Some(1995)), (1990, 1990));
    assert_eq!(move_year_lo((1970, 1990), bounds, None), (1960, 1990));
    assert_eq!(move_year_hi((1970, 1990), bounds, Some(1985)), (1970, 1985));
    assert_eq!(move_year_hi((1970, 1990), bounds, Some(1965)), (1970, 1970));
    assert_eq!(move_year_hi((1970, 1990), bounds, None), (1970, 2030));
    // A window that was inside out is put right by either handle.
    assert_eq!(move_year_lo((2000, 1990), bounds, Some(2010)), (1990, 1990));
    assert_eq!(move_year_hi((2000, 1990), bounds, Some(1995)), (2000, 2000));
}
