//! Boundary conditions: their mathematical and geometric classification and
//! the interface every boundary condition implements.
//!
//! Two orthogonal enums characterise a boundary condition: [`BoundaryType`]
//! (the nature of the constraint) and [`BoundaryLocation`] (where it acts).
//! `boundary_type()` is required; `location()` defaults to `None`. The
//! numerical `apply` step acts on floating-point fields and is provided by
//! the numerical layer around this library.

use vstd::prelude::*;

use crate::model::traits::RequiresContext;
use crate::text::str_eq;

pub mod danckwerts;
pub use danckwerts::DanckwertsOutlet;

verus! {

/// Mathematical classification of a boundary condition.
///
/// | Variant | Constraint |
/// |---|---|
/// | `Dirichlet` | `u = g` on the boundary |
/// | `Neumann` | `∇u·n = g` |
/// | `Robin` | `αu + β∇u·n = g` |
/// | `Periodic` | `u(x₀) = u(x_L)` |
#[non_exhaustive]
#[derive(Debug, Clone, PartialEq, Eq, Structural, Hash)]
pub enum BoundaryType {
    /// Fixed value.
    Dirichlet,
    /// Fixed normal gradient.
    Neumann,
    /// Linear combination of value and normal gradient.
    Robin,
    /// Values at both ends identified.
    Periodic,
}

/// The debug rendering of a boundary type: its variant name.
pub open spec fn boundary_type_name(t: BoundaryType) -> Seq<char> {
    match t {
        BoundaryType::Dirichlet => "Dirichlet"@,
        BoundaryType::Neumann => "Neumann"@,
        BoundaryType::Robin => "Robin"@,
        BoundaryType::Periodic => "Periodic"@,
    }
}

impl BoundaryType {
    /// The variant name, as the debug rendering shows it.
    pub fn name(&self) -> (r: &'static str)
        ensures
            r@ == boundary_type_name(*self),
    {
        match self {
            BoundaryType::Dirichlet => "Dirichlet",
            BoundaryType::Neumann => "Neumann",
            BoundaryType::Robin => "Robin",
            BoundaryType::Periodic => "Periodic",
        }
    }
}

/// Geometric location of a boundary condition in the domain.
#[non_exhaustive]
#[derive(Debug, Clone, PartialEq, Eq, Hash)]
pub enum BoundaryLocation {
    /// Inflow boundary.
    Inlet,
    /// Outflow boundary.
    Outlet,
    /// Impermeable wall.
    Wall,
    /// Symmetry plane.
    Symmetry,
    /// Periodic boundary.
    Periodic,
    /// Interface between two sub-domains.
    Interface,
    /// Interface between two phases.
    PhaseInterface,
    /// Interface between two coupled physical domains.
    CouplingInterface,
    /// User-defined location, identified by its name.
    Custom(String),
}

/// Mathematical model of a [`BoundaryLocation`]: a custom location is taken
/// by the characters of its name.
pub enum LocationModel {
    Inlet,
    Outlet,
    Wall,
    Symmetry,
    Periodic,
    Interface,
    PhaseInterface,
    CouplingInterface,
    Custom(Seq<char>),
}

impl View for BoundaryLocation {
    type V = LocationModel;

    open spec fn view(&self) -> LocationModel {
        match self {
            BoundaryLocation::Inlet => LocationModel::Inlet,
            BoundaryLocation::Outlet => LocationModel::Outlet,
            BoundaryLocation::Wall => LocationModel::Wall,
            BoundaryLocation::Symmetry => LocationModel::Symmetry,
            BoundaryLocation::Periodic => LocationModel::Periodic,
            BoundaryLocation::Interface => LocationModel::Interface,
            BoundaryLocation::PhaseInterface => LocationModel::PhaseInterface,
            BoundaryLocation::CouplingInterface => LocationModel::CouplingInterface,
            BoundaryLocation::Custom(name) => LocationModel::Custom(name@),
        }
    }
}

impl BoundaryLocation {
    /// `true` when both denote the same location: the same variant, and for
    /// custom locations the same name.
    pub fn same_as(&self, other: &BoundaryLocation) -> (r: bool)
        ensures
            r == (self@ == other@),
    {
        match (self, other) {
            (BoundaryLocation::Inlet, BoundaryLocation::Inlet) => true,
            (BoundaryLocation::Outlet, BoundaryLocation::Outlet) => true,
            (BoundaryLocation::Wall, BoundaryLocation::Wall) => true,
            (BoundaryLocation::Symmetry, BoundaryLocation::Symmetry) => true,
            (BoundaryLocation::Periodic, BoundaryLocation::Periodic) => true,
            (BoundaryLocation::Interface, BoundaryLocation::Interface) => true,
            (BoundaryLocation::PhaseInterface, BoundaryLocation::PhaseInterface) => true,
            (BoundaryLocation::CouplingInterface, BoundaryLocation::CouplingInterface) => true,
            (BoundaryLocation::Custom(a), BoundaryLocation::Custom(b)) => str_eq(
                a.as_str(),
                b.as_str(),
            ),
            _ => false,
        }
    }
}

/// A boundary condition: its classification and location.
pub trait BoundaryCondition: RequiresContext + std::fmt::Debug + Send + Sync {
    /// The mathematical nature of the constraint.
    fn boundary_type(&self) -> BoundaryType;

    /// Where the condition acts; the default is `None` (unspecified).
    fn location(&self) -> (r: Option<BoundaryLocation>)
        default_ensures
            r is None,
    {
        None
    }
}

} // verus!
