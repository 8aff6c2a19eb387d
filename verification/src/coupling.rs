//! Interfaces between coupled physical domains.
//!
//! An [`Interface`] names the source and target domains of an exchange,
//! optionally with a label; a [`CouplingOperator`] is bound to one. The
//! exchange itself acts on floating-point fields and is provided by the
//! numerical layer around this library.

use vstd::prelude::*;

use crate::model::traits::RequiresContext;
use crate::solver::scenario::DomainId;

verus! {

/// A directed interface from a source domain to a target domain.
#[non_exhaustive]
#[derive(Debug, Clone, PartialEq, Eq)]
pub struct Interface {
    source: DomainId,
    target: DomainId,
    label: Option<String>,
}

/// Mathematical model of an [`Interface`].
pub struct InterfaceModel {
    pub source: Seq<char>,
    pub target: Seq<char>,
    pub label: Option<Seq<char>>,
}

impl View for Interface {
    type V = InterfaceModel;

    closed spec fn view(&self) -> InterfaceModel {
        InterfaceModel {
            source: self.source@,
            target: self.target@,
            label: match self.label {
                Some(l) => Some(l@),
                None => None,
            },
        }
    }
}

/// The `Display` form: `Interface(<source> → <target>)`, with ` [<label>]`
/// before the closing bracket when there is a label.
pub open spec fn interface_display(i: InterfaceModel) -> Seq<char> {
    "Interface("@ + i.source + " → "@ + i.target + match i.label {
        Some(l) => " ["@ + l + "])"@,
        None => ")"@,
    }
}

impl Interface {
    /// An unlabelled interface from `source` to `target`.
    pub fn new(source: DomainId, target: DomainId) -> (r: Self)
        ensures
            r@ == (InterfaceModel { source: source@, target: target@, label: None }),
    {
        Interface { source, target, label: None }
    }

    /// The same interface with `label` attached, replacing any earlier one.
    pub fn with_label(self, label: &str) -> (r: Self)
        ensures
            r@ == (InterfaceModel { source: self@.source, target: self@.target, label: Some(label@) }),
    {
        Interface { source: self.source, target: self.target, label: Some(String::from_str(label)) }
    }

    /// The source domain.
    pub fn source(&self) -> (r: &DomainId)
        ensures
            r@ == self@.source,
    {
        &self.source
    }

    /// The target domain.
    pub fn target(&self) -> (r: &DomainId)
        ensures
            r@ == self@.target,
    {
        &self.target
    }

    /// The label, if any.
    pub fn label(&self) -> (r: Option<&str>)
        ensures
            match r {
                Some(l) => self@.label == Some(l@),
                None => self@.label is None,
            },
    {
        match &self.label {
            Some(l) => Some(l.as_str()),
            None => None,
        }
    }

    /// The rendering of the interface (its `Display` form).
    pub fn to_string(&self) -> (r: String)
        ensures
            r@ == interface_display(self@),
    {
        proof {
            reveal_strlit("Interface(");
            reveal_strlit(" → ");
            reveal_strlit(" [");
            reveal_strlit("])");
            reveal_strlit(")");
        }
        let mut s = String::from_str("Interface(");
        s.append(self.source.as_str());
        s.append(" → ");
        s.append(self.target.as_str());
        match &self.label {
            Some(l) => {
                s.append(" [");
                s.append(l.as_str());
                s.append("])");
            },
            None => {
                s.append(")");
            },
        }
        s
    }
}

/// An operator exchanging state across an [`Interface`].
pub trait CouplingOperator: RequiresContext + Send + Sync {
    /// The interface this operator is bound to.
    fn interface(&self) -> &Interface;
}

} // verus!
