use oxiflow::context::compute::{copy_variable, VariableStore};
use oxiflow::context::error::OxiflowError;
use oxiflow::context::value::{check_addable, check_negatable, expect_kind, ValueKind};
use oxiflow::context::variable::ContextVariable;

#[test]
fn store_returns_inserted_value() {
    let mut store = VariableStore::new();
    store.insert(ContextVariable::External { name: "coeff" }, 42.0);
    assert_eq!(store.try_get(&ContextVariable::External { name: "coeff" }), Some(&42.0));
    assert_eq!(*store.get_value(&ContextVariable::External { name: "coeff" }).unwrap(), 42.0);
}

#[test]
fn store_insert_overwrites_previous_value() {
    let mut store = VariableStore::new();
    store.insert(ContextVariable::Time, 1.0);
    store.insert(ContextVariable::Time, 2.0);
    assert_eq!(store.try_get(&ContextVariable::Time), Some(&2.0));
}

#[test]
fn store_reports_missing_calculator() {
    let store: VariableStore<f64> = VariableStore::new();
    assert!(store.try_get(&ContextVariable::Time).is_none());
    match store.get_value(&ContextVariable::SpatialGradient { dimension: 1 }) {
        Err(OxiflowError::MissingCalculator(v)) => {
            assert_eq!(v, ContextVariable::SpatialGradient { dimension: 1 })
        }
        other => panic!("unexpected: {other:?}"),
    }
}

#[test]
fn store_keys_distinguish_dimensions_and_names() {
    let mut store = VariableStore::new();
    store.insert(ContextVariable::SpatialGradient { dimension: 0 }, "d0");
    store.insert(ContextVariable::SpatialGradient { dimension: 1 }, "d1");
    store.insert(ContextVariable::External { name: "a" }, "a");
    assert_eq!(store.try_get(&ContextVariable::SpatialGradient { dimension: 0 }), Some(&"d0"));
    assert_eq!(store.try_get(&ContextVariable::SpatialGradient { dimension: 1 }), Some(&"d1"));
    assert_eq!(store.try_get(&ContextVariable::External { name: "a" }), Some(&"a"));
    assert!(store.try_get(&ContextVariable::External { name: "b" }).is_none());
}

#[test]
fn copy_variable_is_equal() {
    let v = ContextVariable::External { name: "feed" };
    assert_eq!(copy_variable(&v), v);
}

#[test]
fn value_kind_names() {
    assert_eq!(ValueKind::Scalar.variant_name(), "Scalar");
    assert_eq!(ValueKind::Boolean.variant_name(), "Boolean");
    assert_eq!(ValueKind::Vector.variant_name(), "Vector");
    assert_eq!(ValueKind::Matrix.variant_name(), "Matrix");
    assert_eq!(ValueKind::ScalarField.variant_name(), "ScalarField");
    assert_eq!(ValueKind::VectorField.variant_name(), "VectorField");
}

#[test]
fn expect_kind_reports_both_variants() {
    assert!(expect_kind(ValueKind::Scalar, ValueKind::Scalar).is_ok());
    assert!(matches!(
        expect_kind(ValueKind::Scalar, ValueKind::Vector),
        Err(OxiflowError::TypeMismatch {
            expected: "Scalar",
            actual: "Vector"
        })
    ));
}

#[test]
fn addition_requires_same_non_boolean_variant() {
    assert!(check_addable(ValueKind::ScalarField, ValueKind::ScalarField).is_ok());
    assert!(matches!(
        check_addable(ValueKind::Boolean, ValueKind::Boolean),
        Err(OxiflowError::TypeMismatch {
            expected: "Boolean",
            actual: "Boolean"
        })
    ));
    assert!(matches!(
        check_addable(ValueKind::Scalar, ValueKind::Vector),
        Err(OxiflowError::TypeMismatch {
            expected: "Scalar",
            actual: "Vector"
        })
    ));
}

#[test]
fn negation_rejects_booleans_only() {
    for k in [
        ValueKind::Scalar,
        ValueKind::Vector,
        ValueKind::Matrix,
        ValueKind::ScalarField,
        ValueKind::VectorField,
    ] {
        assert!(check_negatable(k).is_ok());
    }
    assert!(matches!(
        check_negatable(ValueKind::Boolean),
        Err(OxiflowError::TypeMismatch {
            expected: "negatable ContextValue (Scalar/Vector/Matrix/ScalarField/VectorField)",
            actual: "Boolean"
        })
    ));
}
