//! Identifiers of the physical domains of a scenario.

use vstd::prelude::*;

use crate::text::str_eq;

verus! {

/// Name of a physical domain (`"column"`, `"lake"`, …).
#[derive(Debug, Clone, PartialEq, Eq, Hash)]
pub struct DomainId(String);

impl View for DomainId {
    type V = Seq<char>;

    closed spec fn view(&self) -> Seq<char> {
        self.0@
    }
}

impl DomainId {
    /// Creates an identifier from a domain name.
    pub fn new(name: &str) -> (r: Self)
        ensures
            r@ == name@,
    {
        DomainId(String::from_str(name))
    }

    /// The domain name.
    pub fn as_str(&self) -> (r: &str)
        ensures
            r@ == self@,
    {
        self.0.as_str()
    }

    /// The domain name, as the `Display` form shows it.
    pub fn to_string(&self) -> (r: String)
        ensures
            r@ == self@,
    {
        String::from_str(self.0.as_str())
    }

    /// `true` when both identifiers name the same domain.
    pub fn same_as(&self, other: &DomainId) -> (r: bool)
        ensures
            r == (self@ == other@),
    {
        str_eq(self.0.as_str(), other.0.as_str())
    }
}

} // verus!
