//! The interfaces that every context consumer implements.
//!
//! [`RequiresContext`] is the common supertrait of physical models, boundary
//! conditions, calculators, flux operators and coupling operators: it
//! declares which context variables an implementor needs, which it uses when
//! present, what it must run after, and in which order it is applied.
//!
//! [`PhysicalModel`] carries a model's identity; its numerical methods
//! (`compute_physics`, `initial_state`) act on floating-point fields and are
//! provided by the numerical layer around this library.

use vstd::prelude::*;

use crate::context::variable::ContextVariable;

verus! {

/// Declares the context dependencies of a model, boundary condition,
/// calculator or operator.
pub trait RequiresContext {
    /// Variables that must be present in the compute context before this
    /// component runs.
    fn required_variables(&self) -> Vec<ContextVariable>;

    /// Variables used if present; the default declares none.
    fn optional_variables(&self) -> (r: Vec<ContextVariable>)
        default_ensures
            r@.len() == 0,
    {
        Vec::new()
    }

    /// Variables this component must run after; the default declares none.
    fn depends_on(&self) -> (r: Vec<ContextVariable>)
        default_ensures
            r@.len() == 0,
    {
        Vec::new()
    }

    /// Execution order among components of the same kind: lower runs first.
    /// The default is `100`.
    fn priority(&self) -> (r: u32)
        default_ensures
            r == 100,
    {
        100
    }
}

/// Identity of a physical model (`∂u/∂t = F(u, ctx)`).
pub trait PhysicalModel: RequiresContext + Send + Sync {
    /// Short identifier of the model.
    fn name(&self) -> &str;

    /// Optional human-readable description; the default has none.
    fn description(&self) -> (r: Option<&str>)
        default_ensures
            r is None,
    {
        None
    }
}

} // verus!
