use oxiflow::context::calculator::ContextCalculator;
use oxiflow::context::calculators::integral::check_trapezoid_domain;
use oxiflow::context::calculators::tabulated::check_table_len;
use oxiflow::context::calculators::{translate_domain_error, FDScheme, Interpolation};
use oxiflow::context::error::OxiflowError;
use oxiflow::context::variable::ContextVariable;
use oxiflow::model::traits::RequiresContext;

#[derive(Debug)]
struct TimeCalculator;

impl RequiresContext for TimeCalculator {
    fn required_variables(&self) -> Vec<ContextVariable> {
        vec![]
    }
    fn priority(&self) -> u32 {
        0
    }
}

impl ContextCalculator for TimeCalculator {
    fn provides(&self) -> ContextVariable {
        ContextVariable::Time
    }
    fn name(&self) -> &str {
        "time"
    }
}

#[derive(Debug)]
struct ConstantCalculator {
    var: ContextVariable,
    #[allow(dead_code)]
    value: f64,
}

impl RequiresContext for ConstantCalculator {
    fn required_variables(&self) -> Vec<ContextVariable> {
        vec![]
    }
}

impl ContextCalculator for ConstantCalculator {
    fn provides(&self) -> ContextVariable {
        self.var.clone()
    }
}

#[derive(Debug)]
struct TimeDependentCalculator;

impl RequiresContext for TimeDependentCalculator {
    fn required_variables(&self) -> Vec<ContextVariable> {
        vec![ContextVariable::Time]
    }
    fn depends_on(&self) -> Vec<ContextVariable> {
        vec![ContextVariable::Time]
    }
    fn priority(&self) -> u32 {
        50
    }
}

impl ContextCalculator for TimeDependentCalculator {
    fn provides(&self) -> ContextVariable {
        ContextVariable::External { name: "double_time" }
    }
}

#[test]
fn provides_returns_declared_variable() {
    assert_eq!(TimeCalculator.provides(), ContextVariable::Time);
}

#[test]
fn provides_is_stable_across_calls() {
    let calc = ConstantCalculator {
        var: ContextVariable::TimeStep,
        value: 0.01,
    };
    assert_eq!(calc.provides(), calc.provides());
}

#[test]
fn name_returns_provided_string() {
    assert_eq!(TimeCalculator.name(), "time");
}

#[test]
fn default_name_is_unnamed() {
    let calc = ConstantCalculator {
        var: ContextVariable::TimeStep,
        value: 0.01,
    };
    assert_eq!(calc.name(), "unnamed calculator");
}

#[test]
fn time_calculator_has_no_requirements() {
    assert!(TimeCalculator.required_variables().is_empty());
    assert_eq!(TimeCalculator.priority(), 0);
}

#[test]
fn time_dependent_requires_time() {
    let calc = TimeDependentCalculator;
    assert!(calc.required_variables().contains(&ContextVariable::Time));
    assert!(calc.depends_on().contains(&ContextVariable::Time));
    assert_eq!(calc.priority(), 50);
}

#[test]
fn calculator_trait_is_object_safe() {
    let calcs: Vec<Box<dyn ContextCalculator>> = vec![
        Box::new(TimeCalculator),
        Box::new(ConstantCalculator {
            var: ContextVariable::TimeStep,
            value: 0.01,
        }),
    ];
    assert_eq!(calcs[0].provides(), ContextVariable::Time);
    assert_eq!(calcs[1].provides(), ContextVariable::TimeStep);
}

#[test]
fn fd_scheme_variants_are_distinct() {
    assert_ne!(FDScheme::Forward, FDScheme::Backward);
    assert_ne!(FDScheme::Backward, FDScheme::Central);
    assert_eq!(Interpolation::Linear.clone(), Interpolation::Linear);
}

#[test]
fn translate_domain_error_attributes_invalid_domain() {
    let err = OxiflowError::InvalidDomain("UpwindGradient requires at least 2 nodes, got 1".into());
    match translate_domain_error(err, "FDGradientCalculator") {
        OxiflowError::PreconditionFailed { context, message } => {
            assert_eq!(context, "FDGradientCalculator");
            assert_eq!(message, "UpwindGradient requires at least 2 nodes, got 1");
        }
        other => panic!("unexpected error: {other:?}"),
    }
}

#[test]
fn translate_domain_error_passes_other_errors_through() {
    let err = OxiflowError::MissingCalculator(ContextVariable::Time);
    assert!(matches!(
        translate_domain_error(err, "FDGradientCalculator"),
        OxiflowError::MissingCalculator(ContextVariable::Time)
    ));
}

#[test]
fn trapezoid_domain_checks() {
    assert!(check_trapezoid_domain(1, 2).is_ok());
    match check_trapezoid_domain(2, 10) {
        Err(OxiflowError::PreconditionFailed { context, message }) => {
            assert_eq!(context, "TrapezoidalIntegral");
            assert_eq!(message, "only 1D meshes are supported at J2, got spatial_dimension = 2");
        }
        other => panic!("unexpected: {other:?}"),
    }
    match check_trapezoid_domain(1, 1) {
        Err(OxiflowError::PreconditionFailed { message, .. }) => {
            assert_eq!(message, "field must have at least 2 nodes, got 1")
        }
        other => panic!("unexpected: {other:?}"),
    }
}

#[test]
fn table_needs_two_points() {
    assert!(check_table_len(2).is_ok());
    match check_table_len(1) {
        Err(OxiflowError::ExternalData(message)) => {
            assert_eq!(message, "ExternalTabulated requires at least 2 data points, got 1")
        }
        other => panic!("unexpected: {other:?}"),
    }
}
