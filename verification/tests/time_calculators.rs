use oxiflow::context::calculator::ContextCalculator;
use oxiflow::context::calculators::{TimeCalculator, TimeStepCalculator};
use oxiflow::context::variable::ContextVariable;
use oxiflow::model::traits::RequiresContext;

#[test]
fn time_calculator_provides_time() {
    assert_eq!(TimeCalculator.provides(), ContextVariable::Time);
}

#[test]
fn time_calculator_priority_is_zero() {
    assert_eq!(TimeCalculator.priority(), 0);
}

#[test]
fn time_calculator_has_no_required_variables() {
    assert!(TimeCalculator.required_variables().is_empty());
}

#[test]
fn time_calculator_name() {
    assert_eq!(TimeCalculator.name(), "time (built-in)");
}

#[test]
fn timestep_calculator_provides_timestep() {
    assert_eq!(TimeStepCalculator.provides(), ContextVariable::TimeStep);
}

#[test]
fn timestep_calculator_priority_is_zero() {
    assert_eq!(TimeStepCalculator.priority(), 0);
}

#[test]
fn timestep_calculator_has_no_required_variables() {
    assert!(TimeStepCalculator.required_variables().is_empty());
}

#[test]
fn timestep_calculator_name() {
    assert_eq!(TimeStepCalculator.name(), "time_step (built-in)");
}

#[test]
fn both_are_object_safe() {
    let calcs: Vec<Box<dyn ContextCalculator>> =
        vec![Box::new(TimeCalculator), Box::new(TimeStepCalculator)];
    assert_eq!(calcs[0].provides(), ContextVariable::Time);
    assert_eq!(calcs[1].provides(), ContextVariable::TimeStep);
}
