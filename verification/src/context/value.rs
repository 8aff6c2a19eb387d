//! The variants of context values, and the type check of the typed
//! accessors.
//!
//! A context value is a scalar, a boolean, a vector, a matrix, or a nodal
//! field; its payload is floating-point and lives in the numerical layer
//! around this library. What the accessors decide depends on the variant
//! alone: [`ValueKind`] names it, and [`expect_kind`] is the check every
//! typed accessor performs before handing out the payload.

use vstd::prelude::*;

use crate::context::error::OxiflowError;

verus! {

/// The variant of a context value.
#[derive(Debug, Clone, Copy, PartialEq, Eq, Structural)]
pub enum ValueKind {
    /// A single scalar.
    Scalar,
    /// A boolean flag.
    Boolean,
    /// A vector of reals.
    Vector,
    /// A matrix of reals.
    Matrix,
    /// One scalar per mesh node.
    ScalarField,
    /// One vector per mesh node.
    VectorField,
}

/// The variant name used in type-mismatch errors.
pub open spec fn kind_name(k: ValueKind) -> Seq<char> {
    match k {
        ValueKind::Scalar => "Scalar"@,
        ValueKind::Boolean => "Boolean"@,
        ValueKind::Vector => "Vector"@,
        ValueKind::Matrix => "Matrix"@,
        ValueKind::ScalarField => "ScalarField"@,
        ValueKind::VectorField => "VectorField"@,
    }
}

impl ValueKind {
    /// The variant name.
    pub fn variant_name(&self) -> (r: &'static str)
        ensures
            r@ == kind_name(*self),
    {
        match self {
            ValueKind::Scalar => "Scalar",
            ValueKind::Boolean => "Boolean",
            ValueKind::Vector => "Vector",
            ValueKind::Matrix => "Matrix",
            ValueKind::ScalarField => "ScalarField",
            ValueKind::VectorField => "VectorField",
        }
    }
}

/// The check of a typed accessor: succeeds when the value has the expected
/// variant, and otherwise fails with a type mismatch naming both variants.
pub fn expect_kind(expected: ValueKind, actual: ValueKind) -> (r: Result<(), OxiflowError>)
    ensures
        r is Ok <==> expected == actual,
        r is Err ==> (r matches Err(OxiflowError::TypeMismatch { expected: e, actual: a }) && e@
            == kind_name(expected) && a@ == kind_name(actual)),
{
    if expected == actual {
        Ok(())
    } else {
        Err(OxiflowError::TypeMismatch { expected: expected.variant_name(), actual: actual.variant_name() })
    }
}

/// The check before two contributions are summed: both must have the same
/// variant, and a boolean cannot be summed. Otherwise the sum fails with a
/// type mismatch naming the left variant as expected and the right one as
/// actual.
pub fn check_addable(left: ValueKind, right: ValueKind) -> (r: Result<(), OxiflowError>)
    ensures
        r is Ok <==> left == right && left != ValueKind::Boolean,
        r is Err ==> (r matches Err(OxiflowError::TypeMismatch { expected: e, actual: a }) && e@
            == kind_name(left) && a@ == kind_name(right)),
{
    if left == right && left != ValueKind::Boolean {
        Ok(())
    } else {
        Err(OxiflowError::TypeMismatch { expected: left.variant_name(), actual: right.variant_name() })
    }
}

/// What a type mismatch reports as expected when a value cannot be negated.
pub open spec fn negatable_description() -> Seq<char> {
    "negatable ContextValue (Scalar/Vector/Matrix/ScalarField/VectorField)"@
}

/// The check before a value is negated: every variant but a boolean can be.
pub fn check_negatable(kind: ValueKind) -> (r: Result<(), OxiflowError>)
    ensures
        r is Ok <==> kind != ValueKind::Boolean,
        r is Err ==> (r matches Err(OxiflowError::TypeMismatch { expected: e, actual: a }) && e@
            == negatable_description() && a@ == kind_name(kind)),
{
    if kind != ValueKind::Boolean {
        Ok(())
    } else {
        Err(
            OxiflowError::TypeMismatch {
                expected: "negatable ContextValue (Scalar/Vector/Matrix/ScalarField/VectorField)",
                actual: kind.variant_name(),
            },
        )
    }
}

} // verus!
