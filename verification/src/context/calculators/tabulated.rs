//! Interpolation strategies for tabulated external data, and the size check
//! of a table.
//!
//! The interpolation itself, and the check that the abscissae ascend, are
//! floating-point work of the numerical layer around this library.

use vstd::prelude::*;

use crate::context::error::OxiflowError;
use crate::text::{decimal, push_decimal};

verus! {

/// Interpolation strategy between two tabulated points.
#[non_exhaustive]
#[derive(Debug, Clone, PartialEq, Eq)]
pub enum Interpolation {
    /// Piecewise linear interpolation between the two bracketing points.
    Linear,
}

/// The message of a table with too few points to interpolate.
pub open spec fn too_few_points_message(len: nat) -> Seq<char> {
    "ExternalTabulated requires at least 2 data points, got "@ + decimal(len)
}

/// Checks that a table has the two points linear interpolation needs;
/// fails with an external-data error otherwise.
pub fn check_table_len(len: usize) -> (r: Result<(), OxiflowError>)
    ensures
        r is Ok <==> len >= 2,
        r is Err ==> (r matches Err(OxiflowError::ExternalData(message)) && message@
            == too_few_points_message(len as nat)),
{
    if len >= 2 {
        return Ok(());
    }
    proof {
        reveal_strlit("ExternalTabulated requires at least 2 data points, got ");
    }
    let mut message = String::from_str("ExternalTabulated requires at least 2 data points, got ");
    push_decimal(&mut message, len);
    Err(OxiflowError::ExternalData(message))
}

} // verus!
