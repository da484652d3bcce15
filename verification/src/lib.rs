//! Exact sampling of a function over an interval.
//!
//! An interval is cut into `n` equal steps and a function is evaluated at the
//! right edge of every step. All numbers are exact rationals, so the last
//! sample is the interval's upper end itself and the samples are strictly
//! ordered, with no rounding anywhere.

mod algebra;
pub mod grid;
pub mod laws;
pub mod ratio;
pub mod sample;

pub use grid::range;
pub use grid::DivisionError;
pub use ratio::Ratio;
pub use sample::sample_function;
pub use sample::SampleError;
pub use sample::DEFAULT_SAMPLES;
