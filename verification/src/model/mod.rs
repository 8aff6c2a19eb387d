//! Physical-model interfaces and the composition of models.

pub mod composite;
pub mod traits;
