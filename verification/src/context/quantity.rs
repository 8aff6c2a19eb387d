//! Physical quantity identifiers for multi-component fields.
//!
//! A quantity names a field by its kind (concentration, temperature, …) and,
//! for multi-component systems, by a component index. `component: 0` is the
//! canonical index of single-component models. `Temperature` and `Pressure`
//! are intrinsically scalar and report component `0`.

use vstd::prelude::*;

use crate::context::error::OxiflowError;
use crate::text::{decimal, push_decimal, str_eq};

verus! {

/// Type-safe identifier for a physical field in a multi-component system.
#[non_exhaustive]
#[derive(Debug, Clone, PartialEq, Eq, Hash)]
pub enum PhysicalQuantity {
    /// Species concentration; `component` is the species index.
    Concentration {
        /// Species / component index (0-based).
        component: usize,
    },
    /// Temperature field (intrinsically scalar).
    Temperature,
    /// Pressure field (intrinsically scalar).
    Pressure,
    /// Velocity component; `component` is the spatial dimension.
    Velocity {
        /// Spatial dimension index (0-based).
        component: usize,
    },
    /// User-defined physical quantity (water depth, magnetic flux density, …).
    Custom {
        /// Field name.
        name: String,
        /// Component index (0-based); `0` for scalar custom fields.
        component: usize,
    },
}

/// Mathematical model of a [`PhysicalQuantity`]: a custom name is taken by
/// its characters.
pub enum QuantityModel {
    Concentration(nat),
    Temperature,
    Pressure,
    Velocity(nat),
    Custom(Seq<char>, nat),
}

impl View for PhysicalQuantity {
    type V = QuantityModel;

    open spec fn view(&self) -> QuantityModel {
        match self {
            PhysicalQuantity::Concentration { component } => QuantityModel::Concentration(
                *component as nat,
            ),
            PhysicalQuantity::Temperature => QuantityModel::Temperature,
            PhysicalQuantity::Pressure => QuantityModel::Pressure,
            PhysicalQuantity::Velocity { component } => QuantityModel::Velocity(
                *component as nat,
            ),
            PhysicalQuantity::Custom { name, component } => QuantityModel::Custom(
                name@,
                *component as nat,
            ),
        }
    }
}

/// Component index of a quantity; `0` for the intrinsically scalar kinds.
pub open spec fn component_of(q: QuantityModel) -> nat {
    match q {
        QuantityModel::Concentration(c) => c,
        QuantityModel::Temperature => 0,
        QuantityModel::Pressure => 0,
        QuantityModel::Velocity(c) => c,
        QuantityModel::Custom(_, c) => c,
    }
}

/// Name of a quantity's kind: the variant name, or the user-provided name of
/// a custom quantity.
pub open spec fn kind_of(q: QuantityModel) -> Seq<char> {
    match q {
        QuantityModel::Concentration(_) => "Concentration"@,
        QuantityModel::Temperature => "Temperature"@,
        QuantityModel::Pressure => "Pressure"@,
        QuantityModel::Velocity(_) => "Velocity"@,
        QuantityModel::Custom(name, _) => name,
    }
}

/// The user-facing rendering: `Concentration(<c>)`, `Temperature`,
/// `Pressure`, `Velocity(<c>)`, `<name>(<c>)`.
pub open spec fn quantity_display(q: QuantityModel) -> Seq<char> {
    match q {
        QuantityModel::Temperature => "Temperature"@,
        QuantityModel::Pressure => "Pressure"@,
        _ => kind_of(q) + "("@ + decimal(component_of(q)) + ")"@,
    }
}

/// `true` when `kind` is the name of one of the built-in kinds.
pub open spec fn is_builtin_kind(kind: Seq<char>) -> bool {
    kind == "Concentration"@ || kind == "Temperature"@ || kind == "Pressure"@ || kind
        == "Velocity"@
}

/// The quantity rebuilt from a kind name and a component index: a built-in
/// kind when the name is one, a custom quantity otherwise.
pub open spec fn parsed_quantity(kind: Seq<char>, component: nat) -> QuantityModel {
    if kind == "Concentration"@ {
        QuantityModel::Concentration(component)
    } else if kind == "Temperature"@ {
        QuantityModel::Temperature
    } else if kind == "Pressure"@ {
        QuantityModel::Pressure
    } else if kind == "Velocity"@ {
        QuantityModel::Velocity(component)
    } else {
        QuantityModel::Custom(kind, component)
    }
}

impl PhysicalQuantity {
    /// Concentration of a single-component model (`component: 0`).
    pub fn concentration() -> (r: Self)
        ensures
            r@ == QuantityModel::Concentration(0),
    {
        PhysicalQuantity::Concentration { component: 0 }
    }

    /// Temperature (scalar).
    pub fn temperature() -> (r: Self)
        ensures
            r@ == QuantityModel::Temperature,
    {
        PhysicalQuantity::Temperature
    }

    /// Pressure (scalar).
    pub fn pressure() -> (r: Self)
        ensures
            r@ == QuantityModel::Pressure,
    {
        PhysicalQuantity::Pressure
    }

    /// Velocity of a 1-D model (`component: 0`).
    pub fn velocity() -> (r: Self)
        ensures
            r@ == QuantityModel::Velocity(0),
    {
        PhysicalQuantity::Velocity { component: 0 }
    }

    /// Custom scalar field identified by `name` (`component: 0`).
    pub fn custom(name: &str) -> (r: Self)
        ensures
            r@ == QuantityModel::Custom(name@, 0),
    {
        PhysicalQuantity::Custom { name: String::from_str(name), component: 0 }
    }

    /// The component index; `Temperature` and `Pressure` report `0`.
    pub fn component(&self) -> (r: usize)
        ensures
            r == component_of(self@),
    {
        match self {
            PhysicalQuantity::Concentration { component } => *component,
            PhysicalQuantity::Temperature => 0,
            PhysicalQuantity::Pressure => 0,
            PhysicalQuantity::Velocity { component } => *component,
            PhysicalQuantity::Custom { component, .. } => *component,
        }
    }

    /// The kind name: the variant name, or the user-provided name of a custom
    /// quantity.
    pub fn kind_str(&self) -> (r: &str)
        ensures
            r@ == kind_of(self@),
    {
        proof {
            reveal_strlit("Concentration");
            reveal_strlit("Temperature");
            reveal_strlit("Pressure");
            reveal_strlit("Velocity");
        }
        match self {
            PhysicalQuantity::Concentration { .. } => "Concentration",
            PhysicalQuantity::Temperature => "Temperature",
            PhysicalQuantity::Pressure => "Pressure",
            PhysicalQuantity::Velocity { .. } => "Velocity",
            PhysicalQuantity::Custom { name, .. } => name.as_str(),
        }
    }

    /// The user-facing rendering of the quantity (its `Display` form).
    pub fn to_string(&self) -> (r: String)
        ensures
            r@ == quantity_display(self@),
    {
        proof {
            reveal_strlit("Temperature");
            reveal_strlit("Pressure");
            reveal_strlit("(");
            reveal_strlit(")");
        }
        match self {
            PhysicalQuantity::Temperature => String::from_str("Temperature"),
            PhysicalQuantity::Pressure => String::from_str("Pressure"),
            _ => {
                let mut s = String::from_str(self.kind_str());
                s.append("(");
                push_decimal(&mut s, self.component());
                s.append(")");
                s
            },
        }
    }

    /// `true` when both identifiers denote the same quantity.
    pub fn same_as(&self, other: &PhysicalQuantity) -> (r: bool)
        ensures
            r == (self@ == other@),
    {
        match (self, other) {
            (
                PhysicalQuantity::Concentration { component: a },
                PhysicalQuantity::Concentration { component: b },
            ) => *a == *b,
            (PhysicalQuantity::Temperature, PhysicalQuantity::Temperature) => true,
            (PhysicalQuantity::Pressure, PhysicalQuantity::Pressure) => true,
            (
                PhysicalQuantity::Velocity { component: a },
                PhysicalQuantity::Velocity { component: b },
            ) => *a == *b,
            (
                PhysicalQuantity::Custom { name: na, component: a },
                PhysicalQuantity::Custom { name: nb, component: b },
            ) => *a == *b && str_eq(na.as_str(), nb.as_str()),
            _ => false,
        }
    }
}

/// Rebuilds a quantity from its kind name (as `kind_str` gives it) and its
/// component index. Never fails: a name that is not a built-in kind denotes a
/// custom quantity.
pub fn parse_quantity(kind: &str, component: usize) -> (r: Result<PhysicalQuantity, OxiflowError>)
    ensures
        r matches Ok(q) && q@ == parsed_quantity(kind@, component as nat),
{
    if str_eq(kind, "Concentration") {
        Ok(PhysicalQuantity::Concentration { component })
    } else if str_eq(kind, "Temperature") {
        Ok(PhysicalQuantity::Temperature)
    } else if str_eq(kind, "Pressure") {
        Ok(PhysicalQuantity::Pressure)
    } else if str_eq(kind, "Velocity") {
        Ok(PhysicalQuantity::Velocity { component })
    } else {
        Ok(PhysicalQuantity::Custom { name: String::from_str(kind), component })
    }
}

/// Rebuilding a quantity from its kind name and component index gives the
/// quantity back, unless it is a custom quantity named like a built-in kind.
pub proof fn lemma_parse_quantity_round_trip(q: QuantityModel)
    requires
        !(q is Custom && is_builtin_kind(q->Custom_0)),
    ensures
        parsed_quantity(kind_of(q), component_of(q)) == q,
{
    reveal_strlit("Concentration");
    reveal_strlit("Temperature");
    reveal_strlit("Pressure");
    reveal_strlit("Velocity");
    // The four kind names already differ in their first character.
    assert("Concentration"@[0] != "Temperature"@[0]);
    assert("Concentration"@[0] != "Pressure"@[0]);
    assert("Concentration"@[0] != "Velocity"@[0]);
    assert("Temperature"@[0] != "Pressure"@[0]);
    assert("Temperature"@[0] != "Velocity"@[0]);
    assert("Pressure"@[0] != "Velocity"@[0]);
}

} // verus!
