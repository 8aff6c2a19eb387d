//! Slope limiters of the flux-limited (MUSCL) scheme.
//!
//! The limiter functions `φ(r)` are floating-point formulas evaluated by the
//! numerical layer around this library; this module names the choices.

use vstd::prelude::*;

verus! {

/// Slope limiter of the MUSCL reconstruction.
#[non_exhaustive]
#[derive(Debug, Clone, Copy, PartialEq, Eq)]
pub enum Limiter {
    /// `φ(r) = max(0, min(1, r))`: the most diffusive.
    MinMod,
    /// `φ(r) = (r + |r|) / (1 + |r|)`: smooth, between the other two.
    VanLeer,
    /// `φ(r) = max(0, min(2r, 1), min(r, 2))`: the least diffusive.
    Superbee,
}

} // verus!
