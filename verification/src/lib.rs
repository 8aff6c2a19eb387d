//! Generic engine for transport–reaction–diffusion problems: the typed keys,
//! identifiers, classification enums, containers and index logic of the
//! engine, with their contracts.

pub mod boundary;
pub mod context;
pub mod coupling;
pub mod model;
pub mod operators;
pub mod solver;
pub mod text;
