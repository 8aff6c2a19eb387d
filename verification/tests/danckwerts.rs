use oxiflow::boundary::{BoundaryCondition, BoundaryLocation, BoundaryType, DanckwertsOutlet};
use oxiflow::context::error::OxiflowError;
use oxiflow::model::traits::RequiresContext;

// ── boundary_type() and location() ────────────────────────────────────────────

#[test]
fn outlet_boundary_type_is_neumann() {
    assert_eq!(DanckwertsOutlet::new().boundary_type(), BoundaryType::Neumann);
}

#[test]
fn outlet_location_is_outlet() {
    assert_eq!(DanckwertsOutlet::new().location(), Some(BoundaryLocation::Outlet));
}

// ── RequiresContext ───────────────────────────────────────────────────────────

#[test]
fn outlet_required_variables_is_empty() {
    assert!(DanckwertsOutlet::new().required_variables().is_empty());
}

#[test]
fn outlet_priority_is_60() {
    assert_eq!(DanckwertsOutlet::new().priority(), 60);
}

#[test]
fn outlet_default_equals_new() {
    let d = DanckwertsOutlet::default();
    assert_eq!(d.priority(), 60);
    assert_eq!(d.boundary_type(), BoundaryType::Neumann);
}

// ── zero-gradient closure ─────────────────────────────────────────────────────

#[test]
fn outlet_apply_sets_last_node_to_predecessor() {
    let mut state: Vec<f64> = vec![1.0, 2.0, 3.0, 4.0, 9.9];
    DanckwertsOutlet::new().apply_zero_gradient(&mut state, 5).unwrap();
    assert!((state[4] - state[3]).abs() < 1e-12);
    assert!((state[4] - 4.0).abs() < 1e-12);
}

#[test]
fn outlet_apply_does_not_modify_other_nodes() {
    let values: Vec<f64> = vec![1.0, 2.0, 3.0, 4.0, 9.9];
    let mut state = values.clone();
    DanckwertsOutlet::new().apply_zero_gradient(&mut state, 5).unwrap();
    for i in 0..4 {
        assert!((state[i] - values[i]).abs() < 1e-12, "node {i} was modified");
    }
}

#[test]
fn outlet_apply_two_node_mesh() {
    let mut state: Vec<f64> = vec![3.0, 0.0];
    DanckwertsOutlet::new().apply_zero_gradient(&mut state, 2).unwrap();
    assert!((state[1] - 3.0).abs() < 1e-12);
}

#[test]
fn outlet_apply_single_node_returns_error() {
    let mut state = vec![5.0];
    let err = DanckwertsOutlet::new()
        .apply_zero_gradient(&mut state, 1)
        .unwrap_err();
    assert!(matches!(err, OxiflowError::PreconditionFailed { .. }));
    assert_eq!(state, vec![5.0]);
}

#[test]
fn outlet_apply_error_names_the_condition() {
    let mut state: Vec<f64> = vec![];
    match DanckwertsOutlet::new().apply_zero_gradient(&mut state, 0) {
        Err(OxiflowError::PreconditionFailed { context, message }) => {
            assert_eq!(context, "DanckwertsOutlet");
            assert_eq!(message, "mesh must have at least 2 nodes");
        }
        other => panic!("unexpected result: {other:?}"),
    }
}

#[test]
fn outlet_apply_uses_mesh_size_not_buffer_size() {
    let mut state = vec![1, 2, 3, 4, 5];
    DanckwertsOutlet::new().apply_zero_gradient(&mut state, 3).unwrap();
    assert_eq!(state, vec![1, 2, 2, 4, 5]);
}

// ── Object safety / Debug ─────────────────────────────────────────────────────

#[test]
fn debug_outlet_is_non_empty() {
    assert!(!format!("{:?}", DanckwertsOutlet::new()).is_empty());
}

#[test]
fn outlet_is_object_safe() {
    let bcs: Vec<Box<dyn BoundaryCondition>> = vec![Box::new(DanckwertsOutlet::new())];
    assert_eq!(bcs[0].boundary_type(), BoundaryType::Neumann);
}
