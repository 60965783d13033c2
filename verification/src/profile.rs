//! Piecewise-linear scalar fields over depth.

pub mod interpolation;
pub mod point;
pub mod profile_trait;
pub mod sorting;

pub use point::Point;
pub use profile_trait::Profile;
