//! What the engine guarantees, stated over the model and proved from its
//! definitions.

pub mod joins;
pub mod pipeline;
pub mod resolution;
pub mod round_trip;
