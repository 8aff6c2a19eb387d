use oxiflow::context::variable::ContextVariable;
use oxiflow::coupling::{CouplingOperator, Interface};
use oxiflow::model::traits::RequiresContext;
use oxiflow::solver::scenario::DomainId;

fn lahar() -> DomainId {
    DomainId::new("lahar")
}
fn lake() -> DomainId {
    DomainId::new("lake")
}

#[test]
fn interface_new() {
    let iface = Interface::new(lahar(), lake());
    assert_eq!(iface.source(), &lahar());
    assert_eq!(iface.target(), &lake());
    assert!(iface.label().is_none());
}

#[test]
fn interface_with_label() {
    let iface = Interface::new(lahar(), lake()).with_label("lahar-lake");
    assert_eq!(iface.label(), Some("lahar-lake"));
}

#[test]
fn interface_display_no_label() {
    let iface = Interface::new(lahar(), lake());
    assert_eq!(iface.to_string(), "Interface(lahar → lake)");
}

#[test]
fn interface_display_with_label() {
    let iface = Interface::new(lahar(), lake()).with_label("lahar-lake");
    assert_eq!(iface.to_string(), "Interface(lahar → lake [lahar-lake])");
}

#[test]
fn interface_clone_equals_original() {
    let iface = Interface::new(lahar(), lake()).with_label("test");
    assert_eq!(iface.clone(), iface);
}

#[test]
fn with_label_replaces_previous_label() {
    let iface = Interface::new(lahar(), lake())
        .with_label("first")
        .with_label("second");
    assert_eq!(iface.label(), Some("second"));
    assert_eq!(iface.source().as_str(), "lahar");
}

#[test]
fn coupling_operator_is_object_safe() {
    fn assert_object_safe<T: CouplingOperator + ?Sized>() {}
    assert_object_safe::<dyn CouplingOperator>();
}

struct PassthroughCoupling {
    interface: Interface,
}

impl RequiresContext for PassthroughCoupling {
    fn required_variables(&self) -> Vec<ContextVariable> {
        vec![]
    }
}

impl CouplingOperator for PassthroughCoupling {
    fn interface(&self) -> &Interface {
        &self.interface
    }
}

#[test]
fn coupling_operator_interface_accessor() {
    let iface = Interface::new(lahar(), lake());
    let op = PassthroughCoupling {
        interface: iface.clone(),
    };
    assert_eq!(op.interface(), &iface);
}

#[test]
fn domain_id_display_and_comparison() {
    let a = DomainId::new("column");
    assert_eq!(a.to_string(), "column");
    assert_eq!(a.as_str(), "column");
    assert!(a.same_as(&DomainId::new("column")));
    assert!(!a.same_as(&DomainId::new("lake")));
}
