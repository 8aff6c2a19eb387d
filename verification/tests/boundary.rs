use oxiflow::boundary::{BoundaryCondition, BoundaryLocation, BoundaryType};
use oxiflow::context::variable::ContextVariable;
use oxiflow::model::traits::RequiresContext;

// ── Fixtures ──────────────────────────────────────────────────────────────────

#[derive(Debug)]
struct ZeroFluxBC;

impl RequiresContext for ZeroFluxBC {
    fn required_variables(&self) -> Vec<ContextVariable> {
        vec![]
    }
}

impl BoundaryCondition for ZeroFluxBC {
    fn boundary_type(&self) -> BoundaryType {
        BoundaryType::Neumann
    }
}

#[derive(Debug)]
struct FixedInletBC {
    #[allow(dead_code)]
    value: f64,
}

impl RequiresContext for FixedInletBC {
    fn required_variables(&self) -> Vec<ContextVariable> {
        vec![]
    }
    fn priority(&self) -> u32 {
        50
    }
}

impl BoundaryCondition for FixedInletBC {
    fn boundary_type(&self) -> BoundaryType {
        BoundaryType::Dirichlet
    }
    fn location(&self) -> Option<BoundaryLocation> {
        Some(BoundaryLocation::Inlet)
    }
}

#[derive(Debug)]
struct TimeDependentBC;

impl RequiresContext for TimeDependentBC {
    fn required_variables(&self) -> Vec<ContextVariable> {
        vec![ContextVariable::Time]
    }
}

impl BoundaryCondition for TimeDependentBC {
    fn boundary_type(&self) -> BoundaryType {
        BoundaryType::Dirichlet
    }
}

// ── BoundaryType ──────────────────────────────────────────────────────────────

#[test]
fn boundary_type_variants_are_distinct() {
    assert_ne!(BoundaryType::Dirichlet, BoundaryType::Neumann);
    assert_ne!(BoundaryType::Neumann, BoundaryType::Robin);
    assert_ne!(BoundaryType::Robin, BoundaryType::Periodic);
}

#[test]
fn boundary_type_clone_preserves_equality() {
    assert_eq!(BoundaryType::Robin.clone(), BoundaryType::Robin);
}

#[test]
fn boundary_type_debug_non_empty() {
    for t in [
        BoundaryType::Dirichlet,
        BoundaryType::Neumann,
        BoundaryType::Robin,
        BoundaryType::Periodic,
    ] {
        assert!(!format!("{:?}", t).is_empty());
    }
}

#[test]
fn boundary_type_name_matches_debug() {
    for t in [
        BoundaryType::Dirichlet,
        BoundaryType::Neumann,
        BoundaryType::Robin,
        BoundaryType::Periodic,
    ] {
        assert_eq!(t.name(), format!("{:?}", t));
    }
}

// ── BoundaryLocation ──────────────────────────────────────────────────────────

#[test]
fn boundary_location_variants_are_distinct() {
    assert_ne!(BoundaryLocation::Inlet, BoundaryLocation::Outlet);
    assert_ne!(BoundaryLocation::Wall, BoundaryLocation::Symmetry);
    assert_ne!(BoundaryLocation::Interface, BoundaryLocation::PhaseInterface);
    assert_ne!(BoundaryLocation::PhaseInterface, BoundaryLocation::CouplingInterface);
}

#[test]
fn boundary_location_custom_equality_by_name() {
    let a = BoundaryLocation::Custom("membrane".into());
    let b = BoundaryLocation::Custom("membrane".into());
    let c = BoundaryLocation::Custom("wall_left".into());
    assert_eq!(a, b);
    assert_ne!(a, c);
}

#[test]
fn boundary_location_clone_preserves_equality() {
    let loc = BoundaryLocation::Custom("top".into());
    assert_eq!(loc.clone(), loc);
}

#[test]
fn boundary_location_debug_non_empty() {
    let locations = [
        BoundaryLocation::Inlet,
        BoundaryLocation::Outlet,
        BoundaryLocation::Wall,
        BoundaryLocation::Symmetry,
        BoundaryLocation::Periodic,
        BoundaryLocation::Interface,
        BoundaryLocation::PhaseInterface,
        BoundaryLocation::CouplingInterface,
        BoundaryLocation::Custom("test".into()),
    ];
    for loc in &locations {
        assert!(!format!("{:?}", loc).is_empty());
    }
}

#[test]
fn boundary_location_same_as_agrees_with_eq() {
    let locations = [
        BoundaryLocation::Inlet,
        BoundaryLocation::Outlet,
        BoundaryLocation::Custom("membrane".into()),
        BoundaryLocation::Custom("wall_left".into()),
    ];
    for a in &locations {
        for b in &locations {
            assert_eq!(a.same_as(b), a == b);
        }
    }
}

// ── Object safety ─────────────────────────────────────────────────────────────

#[test]
fn mod_trait_is_object_safe() {
    let bcs: Vec<Box<dyn BoundaryCondition>> =
        vec![Box::new(ZeroFluxBC), Box::new(FixedInletBC { value: 1.0 })];
    assert_eq!(bcs.len(), 2);
}

// ── boundary_type() ───────────────────────────────────────────────────────────

#[test]
fn boundary_type_returned_correctly() {
    assert_eq!(ZeroFluxBC.boundary_type(), BoundaryType::Neumann);
    assert_eq!(FixedInletBC { value: 0.0 }.boundary_type(), BoundaryType::Dirichlet);
    assert_eq!(TimeDependentBC.boundary_type(), BoundaryType::Dirichlet);
}

#[test]
fn boundary_type_accessible_via_dyn() {
    let bc: &dyn BoundaryCondition = &ZeroFluxBC;
    assert_eq!(bc.boundary_type(), BoundaryType::Neumann);
}

// ── location() ────────────────────────────────────────────────────────────────

#[test]
fn location_default_is_none() {
    assert!(ZeroFluxBC.location().is_none());
    assert!(TimeDependentBC.location().is_none());
}

#[test]
fn location_override_returned_correctly() {
    assert_eq!(FixedInletBC { value: 0.0 }.location(), Some(BoundaryLocation::Inlet));
}

#[test]
fn location_accessible_via_dyn() {
    let bc: &dyn BoundaryCondition = &FixedInletBC { value: 0.0 };
    assert_eq!(bc.location(), Some(BoundaryLocation::Inlet));
}

// ── RequiresContext ───────────────────────────────────────────────────────────

#[test]
fn required_variables_forwarded_via_dyn() {
    let bc: &dyn BoundaryCondition = &TimeDependentBC;
    assert!(bc.required_variables().contains(&ContextVariable::Time));
}

#[test]
fn optional_variables_default_is_empty() {
    assert!(ZeroFluxBC.optional_variables().is_empty());
}

#[test]
fn depends_on_default_is_empty() {
    assert!(ZeroFluxBC.depends_on().is_empty());
}

#[test]
fn mod_priority_default_is_100() {
    assert_eq!(ZeroFluxBC.priority(), 100);
}

#[test]
fn priority_can_be_overridden() {
    assert_eq!(FixedInletBC { value: 0.0 }.priority(), 50);
}

#[test]
fn debug_output_is_non_empty() {
    let bc: &dyn BoundaryCondition = &ZeroFluxBC;
    assert!(!format!("{:?}", bc).is_empty());
}
