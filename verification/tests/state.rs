use oxiflow::context::error::OxiflowError;
use oxiflow::context::quantity::PhysicalQuantity;
use oxiflow::context::state::{check_dof_counts, MultiDomainState};
use oxiflow::solver::scenario::DomainId;

fn scalar_field(values: Vec<f64>) -> Vec<f64> {
    values
}

fn column() -> DomainId {
    DomainId::new("column")
}
fn lake() -> DomainId {
    DomainId::new("lake")
}

fn dof_count(field: &Vec<f64>) -> Option<usize> {
    Some(field.len())
}

// ── Basic get/set/remove ──────────────────────────────────────────────────────

#[test]
fn set_and_get() {
    let mut state = MultiDomainState::new();
    state.set(column(), PhysicalQuantity::concentration(), scalar_field(vec![1.0, 2.0]));
    assert!(state.get(&column(), &PhysicalQuantity::concentration()).is_some());
}

#[test]
fn get_absent_returns_none() {
    let state: MultiDomainState<Vec<f64>> = MultiDomainState::new();
    assert!(state.get(&column(), &PhysicalQuantity::concentration()).is_none());
}

#[test]
fn remove_returns_value() {
    let mut state = MultiDomainState::new();
    state.set(column(), PhysicalQuantity::concentration(), scalar_field(vec![1.0]));
    let removed = state.remove(&column(), &PhysicalQuantity::concentration());
    assert!(removed.is_some());
    assert!(state.is_empty());
}

#[test]
fn set_overwrites_existing() {
    let mut state = MultiDomainState::new();
    state.set(column(), PhysicalQuantity::concentration(), scalar_field(vec![1.0]));
    state.set(column(), PhysicalQuantity::concentration(), scalar_field(vec![9.0]));
    assert_eq!(state.len(), 1);
}

// ── Multi-component ───────────────────────────────────────────────────────────

#[test]
fn three_components_are_distinct_keys() {
    let mut state = MultiDomainState::new();
    for k in 0..3 {
        state.set(
            column(),
            PhysicalQuantity::Concentration { component: k },
            scalar_field(vec![k as f64]),
        );
    }
    assert_eq!(state.len(), 3);
    for k in 0..3 {
        let v = state.get(&column(), &PhysicalQuantity::Concentration { component: k });
        assert!(v.is_some());
    }
}

// ── Multi-domain ──────────────────────────────────────────────────────────────

#[test]
fn two_domains_same_quantity_are_distinct() {
    let mut state = MultiDomainState::new();
    state.set(column(), PhysicalQuantity::concentration(), scalar_field(vec![1.0]));
    state.set(lake(), PhysicalQuantity::concentration(), scalar_field(vec![2.0]));
    assert_eq!(state.len(), 2);
    assert!(state.get(&column(), &PhysicalQuantity::concentration()).is_some());
    assert!(state.get(&lake(), &PhysicalQuantity::concentration()).is_some());
}

#[test]
fn contains_domain() {
    let mut state = MultiDomainState::new();
    state.set(column(), PhysicalQuantity::concentration(), scalar_field(vec![1.0]));
    assert!(state.contains_domain(&column()));
    assert!(!state.contains_domain(&lake()));
}

#[test]
fn domain_fields_filters_correctly() {
    let mut state = MultiDomainState::new();
    state.set(column(), PhysicalQuantity::concentration(), scalar_field(vec![1.0]));
    state.set(column(), PhysicalQuantity::temperature(), scalar_field(vec![298.0]));
    state.set(lake(), PhysicalQuantity::concentration(), scalar_field(vec![0.5]));

    let col_id = column();
    let col_fields = state.domain_fields(&col_id);
    assert_eq!(col_fields.len(), 2);

    let lake_id = lake();
    let lake_fields = state.domain_fields(&lake_id);
    assert_eq!(lake_fields.len(), 1);
}

// ── validate_domain_consistency ───────────────────────────────────────────────

#[test]
fn consistent_domain_passes_validation() {
    let mut state = MultiDomainState::new();
    state.set(
        column(),
        PhysicalQuantity::Concentration { component: 0 },
        scalar_field(vec![1.0, 2.0, 3.0]),
    );
    state.set(
        column(),
        PhysicalQuantity::Concentration { component: 1 },
        scalar_field(vec![0.1, 0.2, 0.3]),
    );
    assert!(state.validate_domain_consistency(&column(), dof_count).is_ok());
}

#[test]
fn inconsistent_domain_fails_validation() {
    let mut state = MultiDomainState::new();
    state.set(
        column(),
        PhysicalQuantity::Concentration { component: 0 },
        scalar_field(vec![1.0, 2.0]),
    );
    state.set(
        column(),
        PhysicalQuantity::Concentration { component: 1 },
        scalar_field(vec![0.1, 0.2, 0.3]),
    );
    assert!(state.validate_domain_consistency(&column(), dof_count).is_err());
}

#[test]
fn inconsistent_domain_message_lists_counts() {
    match check_dof_counts(&column(), &vec![2, 3, 3]) {
        Err(OxiflowError::InvalidDomain(message)) => assert_eq!(
            message,
            "domain 'column' has fields with inconsistent DOF counts: [2, 3, 3]"
        ),
        other => panic!("unexpected result: {other:?}"),
    }
}

#[test]
fn validation_ignores_other_domains_and_non_field_values() {
    let mut state: MultiDomainState<Option<Vec<f64>>> = MultiDomainState::new();
    state.set(column(), PhysicalQuantity::concentration(), Some(vec![1.0, 2.0]));
    state.set(column(), PhysicalQuantity::temperature(), None);
    state.set(lake(), PhysicalQuantity::concentration(), Some(vec![1.0, 2.0, 3.0]));
    let count = |v: &Option<Vec<f64>>| v.as_ref().map(|f| f.len());
    assert!(state.validate_domain_consistency(&column(), count).is_ok());
    state.set(column(), PhysicalQuantity::pressure(), Some(vec![0.0]));
    match state.validate_domain_consistency(&column(), count) {
        Err(OxiflowError::InvalidDomain(message)) => assert_eq!(
            message,
            "domain 'column' has fields with inconsistent DOF counts: [2, 1]"
        ),
        other => panic!("unexpected result: {other:?}"),
    }
}

#[test]
fn empty_and_single_domains_are_consistent() {
    assert!(check_dof_counts(&column(), &vec![]).is_ok());
    assert!(check_dof_counts(&column(), &vec![7]).is_ok());
    assert!(check_dof_counts(&column(), &vec![4, 4, 4]).is_ok());
}

// ── Default ───────────────────────────────────────────────────────────────────

#[test]
fn default_is_empty() {
    let state: MultiDomainState<Vec<f64>> = MultiDomainState::default();
    assert!(state.is_empty());
    assert_eq!(state.len(), 0);
}

// ── Values, listing, clone ────────────────────────────────────────────────────

#[test]
fn get_returns_last_written_field() {
    let mut state = MultiDomainState::new();
    state.set(column(), PhysicalQuantity::concentration(), vec![1.0]);
    state.set(column(), PhysicalQuantity::concentration(), vec![9.0, 8.0]);
    assert_eq!(
        state.get(&column(), &PhysicalQuantity::concentration()),
        Some(&vec![9.0, 8.0])
    );
}

#[test]
fn remove_absent_key_returns_none_and_keeps_state() {
    let mut state = MultiDomainState::new();
    state.set(column(), PhysicalQuantity::concentration(), vec![1.0]);
    assert!(state.remove(&lake(), &PhysicalQuantity::concentration()).is_none());
    assert_eq!(state.len(), 1);
    assert_eq!(
        state.remove(&column(), &PhysicalQuantity::concentration()),
        Some(vec![1.0])
    );
    assert!(state.get(&column(), &PhysicalQuantity::concentration()).is_none());
}

#[test]
fn iter_lists_every_entry_once() {
    let mut state = MultiDomainState::new();
    state.set(column(), PhysicalQuantity::concentration(), 1);
    state.set(lake(), PhysicalQuantity::custom("WaterDepth"), 2);
    state.set(column(), PhysicalQuantity::temperature(), 3);
    let mut entries: Vec<(String, String, i32)> = state
        .iter()
        .into_iter()
        .map(|(d, q, v)| (d.as_str().to_string(), q.to_string(), *v))
        .collect();
    entries.sort();
    assert_eq!(
        entries,
        vec![
            ("column".to_string(), "Concentration(0)".to_string(), 1),
            ("column".to_string(), "Temperature".to_string(), 3),
            ("lake".to_string(), "WaterDepth(0)".to_string(), 2),
        ]
    );
}

#[test]
fn clone_keeps_every_field() {
    let mut state = MultiDomainState::new();
    state.set(column(), PhysicalQuantity::concentration(), vec![1.0, 2.0]);
    state.set(lake(), PhysicalQuantity::custom("WaterDepth"), vec![3.5]);
    let copy = state.clone();
    assert_eq!(copy.len(), 2);
    assert_eq!(
        copy.get(&lake(), &PhysicalQuantity::custom("WaterDepth")),
        Some(&vec![3.5])
    );
}

#[test]
fn get_mut_writes_through_to_the_stored_field() {
    let mut state = MultiDomainState::new();
    state.set(column(), PhysicalQuantity::concentration(), vec![1.0]);
    state.set(lake(), PhysicalQuantity::concentration(), vec![5.0]);
    if let Some(field) = state.get_mut(&column(), &PhysicalQuantity::concentration()) {
        field.push(2.0);
    }
    assert_eq!(
        state.get(&column(), &PhysicalQuantity::concentration()),
        Some(&vec![1.0, 2.0])
    );
    assert_eq!(state.get(&lake(), &PhysicalQuantity::concentration()), Some(&vec![5.0]));
    assert!(state.get_mut(&lake(), &PhysicalQuantity::temperature()).is_none());
    assert_eq!(state.len(), 2);
}
