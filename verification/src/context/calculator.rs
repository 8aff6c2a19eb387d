//! The calculator interface: a component that produces one context variable
//! before the physics is evaluated.
//!
//! A calculator declares the variable it provides and a name for
//! diagnostics; its `compute` step acts on floating-point fields and is
//! provided by the numerical layer around this library.

use vstd::prelude::*;

use crate::context::variable::ContextVariable;
use crate::model::traits::RequiresContext;

verus! {

/// A component that computes one context variable from the state.
pub trait ContextCalculator: RequiresContext + Send + Sync + std::fmt::Debug {
    /// The variable this calculator writes into the compute context.
    fn provides(&self) -> ContextVariable;

    /// Name used in diagnostics; the default is `"unnamed calculator"`.
    fn name(&self) -> (r: &str)
        default_ensures
            r@ == "unnamed calculator"@,
    {
        "unnamed calculator"
    }
}

} // verus!
