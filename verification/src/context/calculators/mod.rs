//! Built-in calculators and the choices that configure them.

use vstd::prelude::*;

use crate::context::error::OxiflowError;

pub mod integral;
pub mod tabulated;
pub mod time;

pub use tabulated::Interpolation;
pub use time::{TimeCalculator, TimeStepCalculator};

verus! {

/// Finite-difference scheme of a gradient calculator.
///
/// | Variant | Stencil | Boundary fallback |
/// |---|---|---|
/// | `Forward` | `(u[i+1] − u[i]) / dx` | `Backward` at the last node |
/// | `Backward` | `(u[i] − u[i−1]) / dx` | `Forward` at the first node |
/// | `Central` | `(u[i+1] − u[i−1]) / (2 dx)` | one-sided at both ends |
#[non_exhaustive]
#[derive(Debug, Clone, PartialEq, Eq)]
pub enum FDScheme {
    /// Forward difference, first order.
    Forward,
    /// Backward difference, first order.
    Backward,
    /// Central difference, second order.
    Central,
}

/// The error a calculator reports when a stencil rejects the mesh: an
/// invalid-domain error becomes a precondition failure attributed to the
/// calculator; every other error passes through unchanged.
pub open spec fn translated_domain_error(err: OxiflowError, context: &'static str) -> OxiflowError {
    match err {
        OxiflowError::InvalidDomain(message) => OxiflowError::PreconditionFailed { context, message },
        other => other,
    }
}

/// Attributes a stencil's invalid-domain error to the calculator `context`.
pub fn translate_domain_error(err: OxiflowError, context: &'static str) -> (r: OxiflowError)
    ensures
        r == translated_domain_error(err, context),
{
    match err {
        OxiflowError::InvalidDomain(message) => OxiflowError::PreconditionFailed { context, message },
        other => other,
    }
}

} // verus!
