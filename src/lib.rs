//! Piecewise-linear interpolation over sorted single-precision samples.
//!
//! Samples and queries are handed to the library as the IEEE-754 binary32
//! bit patterns of their values (`f32::to_bits`). The library decides which
//! queries lie in the sample domain and which pair of consecutive samples
//! encloses each query; the caller evaluates the linear formula
//! `y[k] + (q - x[k]) * ((y[k + 1] - y[k]) / (x[k + 1] - x[k]))` on the
//! interval `k` that was found. The library also builds the coordinate
//! grids of one axis in three dimensions.

pub mod bracket;
pub mod error;
pub mod float_order;
pub mod grid;
pub mod laws;

pub use bracket::{check_domain, lerp_intervals, lerp_intervals_unchecked, locate};
pub use error::InterpError;
pub use float_order::{bits_is_nan, bits_le, order_key};
pub use grid::{meshgrid, Grid3};
