//! Failures that the queries of this crate report.

use vstd::prelude::*;

verus! {

/// Why a query could not be answered.
#[derive(Debug, Clone, Copy, PartialEq, Eq, Structural)]
pub enum Error {
    /// The profile holds too few samples for the operation.
    EmptyOrInsufficientProfile,
    /// The depth lies above the surface or below the bedrock.
    DepthOutOfRange,
    /// The depth lies within the bedrock depth, but no layer reaches it.
    InternalInconsistency,
    /// A modulus of zero leaves the strain undefined.
    ZeroModulus,
    /// The power law has no value: a fractional power of a stress that is
    /// not positive, a negative power of zero, or a value too large for a
    /// quantity.
    UndefinedPower,
    /// The result does not fit a fixed-point quantity.
    Overflow,
}

} // verus!
