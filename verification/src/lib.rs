//! Multi-dimensional music metadata indexing and similarity search.
//!
//! Each track is a point in a five-dimensional emotional/structural space
//! (joy, sorrow, intensity, density, velocity). A query gives a range per
//! dimension, a year window, an optional genre and a result count; tracks
//! outside any range are excluded and the rest are ranked by their distance
//! to the query's target, closest first.
//!
//! Dimension values are single-precision IEEE-754 numbers. This crate holds
//! them by their bit patterns and decides everything that needs only their
//! order; the arithmetic on them (range midpoints, weighted distances,
//! score normalisation) is done by the caller.

pub mod catalog;
pub mod genre;
pub mod query;
pub mod search;
pub mod timeline;
pub mod track;
pub mod value;

pub use catalog::Catalog;
pub use genre::Genre;
pub use query::{DimRange, RangeQuery};
pub use search::search;
pub use track::{Dimensions, Track};
