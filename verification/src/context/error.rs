//! Typed engine errors.
//!
//! Every failure of the engine's own logic is a matchable variant, never a
//! bare string. Failures that carry a floating-point payload (a solver
//! divergence time) or a boxed foreign error are raised by the numerical
//! layer around this library, which wraps these variants.

use vstd::prelude::*;

use crate::context::variable::{variable_display, ContextVariable};

verus! {

/// Typed error enum of the engine.
#[derive(Debug, Clone)]
pub enum OxiflowError {
    /// No calculator registered for the required variable.
    MissingCalculator(ContextVariable),
    /// A circular dependency was detected among calculators.
    CircularDependency(ContextVariable),
    /// A context accessor was called with the wrong value variant.
    TypeMismatch { expected: &'static str, actual: &'static str },
    /// The mesh or domain configuration is invalid.
    InvalidDomain(String),
    /// An external data source returned an error or is unavailable.
    ExternalData(String),
    /// A component's precondition on its input does not hold.
    PreconditionFailed { context: &'static str, message: String },
}

/// The rendering of an error.
pub open spec fn error_message(e: OxiflowError) -> Seq<char> {
    match e {
        OxiflowError::MissingCalculator(v) => "missing calculator for variable: "@
            + variable_display(v@),
        OxiflowError::CircularDependency(v) => "circular dependency detected involving: "@
            + variable_display(v@),
        OxiflowError::TypeMismatch { expected, actual } => "type mismatch: expected "@
            + expected@ + ", actual "@ + actual@,
        OxiflowError::InvalidDomain(reason) => "invalid domain: "@ + reason@,
        OxiflowError::ExternalData(reason) => "external data error: "@ + reason@,
        OxiflowError::PreconditionFailed { context, message } => "precondition failed in "@
            + context@ + ": "@ + message@,
    }
}

impl OxiflowError {
    /// The rendering of the error (its `Display` form).
    pub fn to_string(&self) -> (r: String)
        ensures
            r@ == error_message(*self),
    {
        proof {
            reveal_strlit("missing calculator for variable: ");
            reveal_strlit("circular dependency detected involving: ");
            reveal_strlit("type mismatch: expected ");
            reveal_strlit(", actual ");
            reveal_strlit("invalid domain: ");
            reveal_strlit("external data error: ");
            reveal_strlit("precondition failed in ");
            reveal_strlit(": ");
        }
        match self {
            OxiflowError::MissingCalculator(v) => {
                let s = String::from_str("missing calculator for variable: ");
                let d = v.to_string();
                s.concat(d.as_str())
            },
            OxiflowError::CircularDependency(v) => {
                let s = String::from_str("circular dependency detected involving: ");
                let d = v.to_string();
                s.concat(d.as_str())
            },
            OxiflowError::TypeMismatch { expected, actual } => {
                let mut s = String::from_str("type mismatch: expected ");
                s.append(expected);
                s.append(", actual ");
                s.append(actual);
                s
            },
            OxiflowError::InvalidDomain(reason) => {
                let s = String::from_str("invalid domain: ");
                s.concat(reason.as_str())
            },
            OxiflowError::ExternalData(reason) => {
                let s = String::from_str("external data error: ");
                s.concat(reason.as_str())
            },
            OxiflowError::PreconditionFailed { context, message } => {
                let mut s = String::from_str("precondition failed in ");
                s.append(context);
                s.append(": ");
                s.append(message.as_str());
                s
            },
        }
    }
}

} // verus!
