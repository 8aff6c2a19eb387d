//! Scenario-level identifiers.

pub mod scenario;
