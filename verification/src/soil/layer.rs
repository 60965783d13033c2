//! A stratum of the column.

use vstd::prelude::*;
use crate::soil::model::SoilModel;

verus! {

/// Largest total thickness of a column: ten thousand.
pub const MAX_DEPTH: i64 = 10_000_000_000;

/// A stratum: its thickness and the law of its soil.
#[derive(Debug, Clone, Copy)]
#[allow(clippy::module_name_repetitions)]
pub struct SoilLayer {
    pub thickness: i64,
    pub soil_model: SoilModel,
}

impl SoilLayer {
    /// The layer has a thickness, no larger than a column may have, and a
    /// model within its limits.
    pub open spec fn valid(&self) -> bool {
        &&& 0 < self.thickness <= MAX_DEPTH
        &&& self.soil_model.valid()
    }

    #[must_use]
    pub fn new(thickness: i64, soil_model: SoilModel) -> (layer: Self)
        ensures
            layer.thickness == thickness,
            layer.soil_model == soil_model,
    {
        Self { thickness, soil_model }
    }

    pub fn is_valid(&self) -> (valid: bool)
        ensures
            valid == self.valid(),
    {
        0 < self.thickness && self.thickness <= MAX_DEPTH && self.soil_model.is_valid()
    }
}

} // verus!
