//! The soil column: constitutive models, layers and the integration of
//! strain into settlement.

pub mod column;
pub mod layer;
pub mod model;
pub mod profile;
