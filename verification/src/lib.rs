//! One-dimensional consolidation settlement of a layered soil column under
//! a change of pore pressure.
//!
//! A column is a stack of layers, each with a thickness and a constitutive
//! model, under a pore pressure that varies with depth. Lowering the pore
//! pressure raises the effective stress; each layer answers with a strain,
//! and the strains, integrated over depth, are the settlement.
//!
//! All quantities are fixed-point numbers with six decimals, held in `i64`
//! (see [`fixed`]): a depth of 2.5 is `2_500_000`. The library's own
//! arithmetic rounds downwards, and each such rounding is part of the
//! contract of the function that makes it. Powers, logarithms and
//! exponentials come from decimal arithmetic (see [`decimal`]) and are
//! rounded to the nearest millionth. No function panics; what cannot be
//! computed is an [`error::Error`].

pub mod decimal;
pub mod error;
pub mod fixed;
pub mod hydro;
pub mod profile;
pub mod sampling;
pub mod soil;

pub use hydro::ProfilePorePressure;
pub use sampling::delta;
pub use sampling::linspace;
