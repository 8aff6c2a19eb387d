//! Preconditions of the trapezoidal integral of a nodal field.
//!
//! The integral `∫u dx ≈ Σ (u[i] + u[i+1]) / 2 · (x[i+1] − x[i])` is
//! floating-point arithmetic carried out by the numerical layer around this
//! library; this module decides whether it can be taken at all.

use vstd::prelude::*;

use crate::context::error::OxiflowError;
use crate::text::{decimal, push_decimal};

verus! {

/// The message of an integral over a mesh that is not one-dimensional.
pub open spec fn dimension_message(dimension: nat) -> Seq<char> {
    "only 1D meshes are supported at J2, got spatial_dimension = "@ + decimal(dimension)
}

/// The message of an integral over a field with fewer than two nodes.
pub open spec fn short_field_message(n: nat) -> Seq<char> {
    "field must have at least 2 nodes, got "@ + decimal(n)
}

/// Checks that the trapezoidal rule applies: the mesh is one-dimensional
/// (checked first) and the field has at least two nodes. Each failure is a
/// precondition failure of `TrapezoidalIntegral`.
pub fn check_trapezoid_domain(spatial_dimension: usize, n: usize) -> (r: Result<(), OxiflowError>)
    ensures
        r is Ok <==> spatial_dimension == 1 && n >= 2,
        spatial_dimension != 1 ==> (r matches Err(
            OxiflowError::PreconditionFailed { context, message },
        ) && context@ == "TrapezoidalIntegral"@ && message@ == dimension_message(
            spatial_dimension as nat,
        )),
        spatial_dimension == 1 && n < 2 ==> (r matches Err(
            OxiflowError::PreconditionFailed { context, message },
        ) && context@ == "TrapezoidalIntegral"@ && message@ == short_field_message(n as nat)),
{
    if spatial_dimension != 1 {
        proof {
            reveal_strlit("only 1D meshes are supported at J2, got spatial_dimension = ");
        }
        let mut message = String::from_str(
            "only 1D meshes are supported at J2, got spatial_dimension = ",
        );
        push_decimal(&mut message, spatial_dimension);
        return Err(OxiflowError::PreconditionFailed { context: "TrapezoidalIntegral", message });
    }
    if n < 2 {
        proof {
            reveal_strlit("field must have at least 2 nodes, got ");
        }
        let mut message = String::from_str("field must have at least 2 nodes, got ");
        push_decimal(&mut message, n);
        return Err(OxiflowError::PreconditionFailed { context: "TrapezoidalIntegral", message });
    }
    Ok(())
}

} // verus!
