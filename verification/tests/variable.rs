use std::collections::HashMap;

use oxiflow::context::variable::ContextVariable;

// ── Construction & equality ───────────────────────────────────────────────────

#[test]
fn time_equals_time() {
    assert_eq!(ContextVariable::Time, ContextVariable::Time);
}

#[test]
fn time_differs_from_timestep() {
    assert_ne!(ContextVariable::Time, ContextVariable::TimeStep);
}

#[test]
fn spatial_gradient_same_dimension_equal() {
    let a = ContextVariable::SpatialGradient { dimension: 0 };
    let b = ContextVariable::SpatialGradient { dimension: 0 };
    assert_eq!(a, b);
}

#[test]
fn spatial_gradient_different_dimension_not_equal() {
    let a = ContextVariable::SpatialGradient { dimension: 0 };
    let b = ContextVariable::SpatialGradient { dimension: 1 };
    assert_ne!(a, b);
}

#[test]
fn external_same_name_equal() {
    let a = ContextVariable::External { name: "temperature" };
    let b = ContextVariable::External { name: "temperature" };
    assert_eq!(a, b);
}

#[test]
fn external_different_name_not_equal() {
    let a = ContextVariable::External { name: "temperature" };
    let b = ContextVariable::External { name: "pressure" };
    assert_ne!(a, b);
}

// ── Clone ─────────────────────────────────────────────────────────────────────

#[test]
fn variable_clone_preserves_equality() {
    let vars = [
        ContextVariable::Time,
        ContextVariable::TimeStep,
        ContextVariable::SpatialGradient { dimension: 2 },
        ContextVariable::External { name: "feed" },
    ];
    for v in &vars {
        assert_eq!(v.clone(), *v);
    }
}

// ── Hash ──────────────────────────────────────────────────────────────────────

#[test]
fn variable_usable_as_hashmap_key() {
    let mut map: HashMap<ContextVariable, f64> = HashMap::new();
    map.insert(ContextVariable::Time, 1.5);
    map.insert(ContextVariable::TimeStep, 0.01);
    map.insert(ContextVariable::SpatialGradient { dimension: 0 }, 0.3);
    map.insert(ContextVariable::External { name: "T_amb" }, 298.15);

    assert_eq!(map[&ContextVariable::Time], 1.5);
    assert_eq!(map[&ContextVariable::TimeStep], 0.01);
    assert_eq!(map[&ContextVariable::SpatialGradient { dimension: 0 }], 0.3);
    assert_eq!(map[&ContextVariable::External { name: "T_amb" }], 298.15);
}

#[test]
fn gradient_dimensions_are_distinct_keys() {
    let mut map: HashMap<ContextVariable, f64> = HashMap::new();
    map.insert(ContextVariable::SpatialGradient { dimension: 0 }, 1.0);
    map.insert(ContextVariable::SpatialGradient { dimension: 1 }, 2.0);

    assert_eq!(map[&ContextVariable::SpatialGradient { dimension: 0 }], 1.0);
    assert_eq!(map[&ContextVariable::SpatialGradient { dimension: 1 }], 2.0);
}

// ── Display form ──────────────────────────────────────────────────────────────

#[test]
fn display_time() {
    assert_eq!(ContextVariable::Time.to_string(), "Time");
}

#[test]
fn display_timestep() {
    assert_eq!(ContextVariable::TimeStep.to_string(), "TimeStep");
}

#[test]
fn display_spatial_gradient() {
    let v = ContextVariable::SpatialGradient { dimension: 1 };
    assert_eq!(v.to_string(), "SpatialGradient(dim=1)");
}

#[test]
fn display_external() {
    let v = ContextVariable::External { name: "T_amb" };
    assert_eq!(v.to_string(), "External(T_amb)");
}

// ── Debug ─────────────────────────────────────────────────────────────────────

#[test]
fn debug_is_non_empty() {
    let s = format!("{:?}", ContextVariable::SpatialGradient { dimension: 0 });
    assert!(s.contains("SpatialGradient"));
    assert!(s.contains('0'));
}

#[test]
fn debug_string_matches_derived_debug() {
    let vars = [
        ContextVariable::Time,
        ContextVariable::TimeStep,
        ContextVariable::SpatialGradient { dimension: 12 },
        ContextVariable::External { name: "T_amb" },
        ContextVariable::External { name: "quote\"d" },
    ];
    for v in &vars {
        assert_eq!(v.debug_string(), format!("{:?}", v));
    }
}

#[test]
fn same_as_compares_variant_and_payload() {
    assert!(ContextVariable::External { name: "a" }.same_as(&ContextVariable::External { name: "a" }));
    assert!(!ContextVariable::External { name: "a" }.same_as(&ContextVariable::External { name: "b" }));
    assert!(!ContextVariable::SpatialGradient { dimension: 0 }
        .same_as(&ContextVariable::SpatialGradient { dimension: 1 }));
    assert!(!ContextVariable::Time.same_as(&ContextVariable::TimeStep));
}
