use oxiflow::context::error::OxiflowError;
use oxiflow::context::variable::ContextVariable;
use oxiflow::model::composite::{merge_variables, CompositeModel};
use oxiflow::model::traits::{PhysicalModel, RequiresContext};

#[derive(Debug)]
struct ConstantSource(#[allow(dead_code)] f64);
impl RequiresContext for ConstantSource {
    fn required_variables(&self) -> Vec<ContextVariable> {
        vec![]
    }
}
impl PhysicalModel for ConstantSource {
    fn name(&self) -> &str {
        "constant_source"
    }
}

#[derive(Debug)]
struct NeedsTime;
impl RequiresContext for NeedsTime {
    fn required_variables(&self) -> Vec<ContextVariable> {
        vec![ContextVariable::Time]
    }
}
impl PhysicalModel for NeedsTime {
    fn name(&self) -> &str {
        "needs_time"
    }
}

#[derive(Debug)]
struct Declares {
    required: Vec<ContextVariable>,
    optional: Vec<ContextVariable>,
    depends: Vec<ContextVariable>,
}
impl RequiresContext for Declares {
    fn required_variables(&self) -> Vec<ContextVariable> {
        self.required.clone()
    }
    fn optional_variables(&self) -> Vec<ContextVariable> {
        self.optional.clone()
    }
    fn depends_on(&self) -> Vec<ContextVariable> {
        self.depends.clone()
    }
}
impl PhysicalModel for Declares {
    fn name(&self) -> &str {
        "declares"
    }
}

#[test]
fn rejects_empty_operator_list() {
    let err = CompositeModel::<ConstantSource>::new(vec![], "empty").unwrap_err();
    assert!(matches!(err, OxiflowError::PreconditionFailed { .. }));
}

#[test]
fn empty_operator_list_error_message() {
    match CompositeModel::<NeedsTime>::new(vec![], "empty") {
        Err(OxiflowError::PreconditionFailed { context, message }) => {
            assert_eq!(context, "CompositeModel::new");
            assert_eq!(message, "at least one operator is required");
        }
        _ => panic!("expected a precondition failure"),
    }
}

#[test]
fn required_variables_is_union_deduplicated() {
    let model = CompositeModel::new(vec![NeedsTime, NeedsTime], "dedup_test").unwrap();
    let vars = model.required_variables();
    assert_eq!(vars, vec![ContextVariable::Time]);
}

#[test]
fn len_reports_operator_count() {
    let model =
        CompositeModel::new(vec![ConstantSource(1.0), ConstantSource(2.0)], "len_test").unwrap();
    assert_eq!(model.len(), 2);
    assert!(!model.is_empty());
}

#[test]
fn composite_name_and_description() {
    let model = CompositeModel::new(vec![NeedsTime], "sum_test").unwrap();
    assert_eq!(model.name(), "sum_test");
    assert_eq!(
        model.description(),
        Some("composite model — sums multiple PhysicalModel contributions (DD-037)")
    );
    assert_eq!(model.operators().len(), 1);
}

#[test]
fn requirements_are_sorted_by_debug_form_and_merged() {
    let a = Declares {
        required: vec![
            ContextVariable::TimeStep,
            ContextVariable::External { name: "feed" },
        ],
        optional: vec![ContextVariable::External { name: "T_amb" }],
        depends: vec![],
    };
    let b = Declares {
        required: vec![
            ContextVariable::SpatialGradient { dimension: 0 },
            ContextVariable::TimeStep,
        ],
        optional: vec![],
        depends: vec![ContextVariable::Time],
    };
    let model = CompositeModel::new(vec![a, b], "merged").unwrap();
    assert_eq!(
        model.required_variables(),
        vec![
            ContextVariable::External { name: "feed" },
            ContextVariable::SpatialGradient { dimension: 0 },
            ContextVariable::TimeStep,
        ]
    );
    assert_eq!(
        model.optional_variables(),
        vec![ContextVariable::External { name: "T_amb" }]
    );
    assert_eq!(model.depends_on(), vec![ContextVariable::Time]);
    assert_eq!(model.priority(), 100);
}

#[test]
fn merge_variables_sorts_and_removes_duplicates() {
    let mut dest = vec![ContextVariable::TimeStep, ContextVariable::Time];
    merge_variables(
        &mut dest,
        vec![
            ContextVariable::Time,
            ContextVariable::SpatialGradient { dimension: 1 },
            ContextVariable::SpatialGradient { dimension: 0 },
        ],
    );
    assert_eq!(
        dest,
        vec![
            ContextVariable::SpatialGradient { dimension: 0 },
            ContextVariable::SpatialGradient { dimension: 1 },
            ContextVariable::Time,
            ContextVariable::TimeStep,
        ]
    );
}

#[test]
fn merge_variables_orders_like_debug_strings() {
    let vars = vec![
        ContextVariable::External { name: "zeta" },
        ContextVariable::TimeStep,
        ContextVariable::SpatialGradient { dimension: 10 },
        ContextVariable::SpatialGradient { dimension: 9 },
        ContextVariable::External { name: "alpha" },
        ContextVariable::Time,
    ];
    let mut expected = vars.clone();
    expected.sort_by(|a, b| format!("{a:?}").cmp(&format!("{b:?}")));
    expected.dedup();
    let mut dest = Vec::new();
    merge_variables(&mut dest, vars);
    assert_eq!(dest, expected);
}

#[test]
fn merge_variables_is_idempotent_on_merged_list() {
    let mut dest = vec![ContextVariable::TimeStep, ContextVariable::Time];
    merge_variables(&mut dest, vec![]);
    let once = dest.clone();
    merge_variables(&mut dest, once.clone());
    assert_eq!(dest, once);
}

#[test]
fn composite_debug_string_lists_operator_names() {
    let model = CompositeModel::new(vec![NeedsTime, NeedsTime], "sum \"test\"").unwrap();
    assert_eq!(
        model.debug_string(),
        "CompositeModel { name: \"sum \\\"test\\\"\", operator_names: [\"needs_time\", \"needs_time\"] }"
    );
    let names: Vec<&str> = model.operators().iter().map(|op| op.name()).collect();
    let expected = format!("CompositeModel {{ name: {:?}, operator_names: {:?} }}", "sum \"test\"", names);
    assert_eq!(model.debug_string(), expected);
}
