//! Built-in calculators for the simulation time and time step.
//!
//! Both run first (priority `0`) and require nothing from the context.

use vstd::prelude::*;

use crate::context::calculator::ContextCalculator;
use crate::context::variable::{ContextVariable, VariableModel};
use crate::model::traits::RequiresContext;

verus! {

/// Provides [`ContextVariable::Time`] from the current simulation time.
#[derive(Debug, Clone)]
pub struct TimeCalculator;

impl RequiresContext for TimeCalculator {
    fn required_variables(&self) -> (r: Vec<ContextVariable>)
        ensures
            r@.len() == 0,
    {
        Vec::new()
    }

    fn priority(&self) -> (r: u32)
        ensures
            r == 0,
    {
        0
    }
}

impl ContextCalculator for TimeCalculator {
    fn provides(&self) -> (r: ContextVariable)
        ensures
            r@ == VariableModel::Time,
    {
        ContextVariable::Time
    }

    fn name(&self) -> (r: &str)
        ensures
            r@ == "time (built-in)"@,
    {
        "time (built-in)"
    }
}

/// Provides [`ContextVariable::TimeStep`] from the current time step.
#[derive(Debug, Clone)]
pub struct TimeStepCalculator;

impl RequiresContext for TimeStepCalculator {
    fn required_variables(&self) -> (r: Vec<ContextVariable>)
        ensures
            r@.len() == 0,
    {
        Vec::new()
    }

    fn priority(&self) -> (r: u32)
        ensures
            r == 0,
    {
        0
    }
}

impl ContextCalculator for TimeStepCalculator {
    fn provides(&self) -> (r: ContextVariable)
        ensures
            r@ == VariableModel::TimeStep,
    {
        ContextVariable::TimeStep
    }

    fn name(&self) -> (r: &str)
        ensures
            r@ == "time_step (built-in)"@,
    {
        "time_step (built-in)"
    }
}

} // verus!
