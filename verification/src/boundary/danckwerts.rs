//! The Danckwerts outlet boundary condition of axial-dispersion columns.
//!
//! At the outlet `z = L` the condition is `∂u/∂z = 0`, imposed by giving the
//! last node the value of the node before it.

use vstd::prelude::*;

use crate::boundary::{BoundaryCondition, BoundaryLocation, BoundaryType};
use crate::context::error::OxiflowError;
use crate::context::variable::ContextVariable;
use crate::model::traits::RequiresContext;

verus! {

/// Danckwerts outlet: zero gradient at the outflow boundary. Requires
/// nothing from the context and runs after the inlet (priority `60`).
#[non_exhaustive]
#[derive(Debug, Clone)]
pub struct DanckwertsOutlet;

impl DanckwertsOutlet {
    /// Creates the outlet condition.
    pub fn new() -> (r: Self)
        ensures
            r == DanckwertsOutlet,
    {
        DanckwertsOutlet
    }

    /// Imposes the zero-gradient condition on the first `n_dof` nodes of
    /// `state`: the last node takes the value of the node before it. Fails,
    /// leaving `state` unchanged, when there are fewer than two nodes.
    pub fn apply_zero_gradient<T: Copy>(&self, state: &mut Vec<T>, n_dof: usize) -> (r: Result<
        (),
        OxiflowError,
    >)
        requires
            n_dof >= 2 ==> n_dof <= old(state)@.len(),
        ensures
            n_dof < 2 ==> final(state)@ == old(state)@ && (r matches Err(
                OxiflowError::PreconditionFailed { context, message },
            ) && context@ == "DanckwertsOutlet"@ && message@ == "mesh must have at least 2 nodes"@),
            n_dof >= 2 ==> r is Ok && final(state)@ == old(state)@.update(
                n_dof - 1,
                old(state)@[n_dof - 2],
            ),
    {
        if n_dof < 2 {
            return Err(
                OxiflowError::PreconditionFailed {
                    context: "DanckwertsOutlet",
                    message: String::from_str("mesh must have at least 2 nodes"),
                },
            );
        }
        let v = state[n_dof - 2];
        state.set(n_dof - 1, v);
        Ok(())
    }
}

impl Default for DanckwertsOutlet {
    fn default() -> (r: Self)
        ensures
            r == DanckwertsOutlet,
    {
        DanckwertsOutlet::new()
    }
}

impl RequiresContext for DanckwertsOutlet {
    fn required_variables(&self) -> (r: Vec<ContextVariable>)
        ensures
            r@.len() == 0,
    {
        Vec::new()
    }

    fn priority(&self) -> (r: u32)
        ensures
            r == 60,
    {
        60
    }
}

impl BoundaryCondition for DanckwertsOutlet {
    fn boundary_type(&self) -> (r: BoundaryType)
        ensures
            r == BoundaryType::Neumann,
    {
        BoundaryType::Neumann
    }

    fn location(&self) -> (r: Option<BoundaryLocation>)
        ensures
            r == Some(BoundaryLocation::Outlet),
    {
        Some(BoundaryLocation::Outlet)
    }
}

} // verus!
