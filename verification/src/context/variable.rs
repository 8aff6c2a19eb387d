//! Typed keys identifying the context variables that calculators produce and
//! that models, boundary conditions and operators require.
//!
//! A key carries no floating-point field, so that it can serve as a map key:
//! the whole spatial gradient field lives under one
//! `SpatialGradient { dimension }` key.

use vstd::prelude::*;

use crate::text::{decimal, lemma_decimal_injective, push_decimal, str_eq};

verus! {

/// Typed key identifying a context variable in the compute context.
#[derive(Debug, Clone, PartialEq, Eq, Hash)]
pub enum ContextVariable {
    /// Current simulation time `t`.
    Time,
    /// Current time step `dt`.
    TimeStep,
    /// Spatial gradient of the primary field along `dimension`
    /// (`0` → ∂u/∂x, `1` → ∂u/∂y, …), stored as one value per mesh node.
    SpatialGradient {
        /// Spatial dimension index (0-based).
        dimension: usize,
    },
    /// External scalar provided by the user, identified by its name.
    External {
        /// Unique name of the external variable.
        name: &'static str,
    },
}

/// Mathematical model of a [`ContextVariable`]: an external name is taken by
/// its characters.
pub enum VariableModel {
    Time,
    TimeStep,
    SpatialGradient(nat),
    External(Seq<char>),
}

impl View for ContextVariable {
    type V = VariableModel;

    open spec fn view(&self) -> VariableModel {
        match self {
            ContextVariable::Time => VariableModel::Time,
            ContextVariable::TimeStep => VariableModel::TimeStep,
            ContextVariable::SpatialGradient { dimension } => VariableModel::SpatialGradient(
                *dimension as nat,
            ),
            ContextVariable::External { name } => VariableModel::External(name@),
        }
    }
}

/// The user-facing rendering of a variable: `Time`, `TimeStep`,
/// `SpatialGradient(dim=<d>)`, `External(<name>)`.
pub open spec fn variable_display(v: VariableModel) -> Seq<char> {
    match v {
        VariableModel::Time => "Time"@,
        VariableModel::TimeStep => "TimeStep"@,
        VariableModel::SpatialGradient(d) => "SpatialGradient(dim="@ + decimal(d) + ")"@,
        VariableModel::External(name) => "External("@ + name + ")"@,
    }
}

/// What `format!("{:?}", s)` gives for a string slice `s`: its quoted,
/// escaped form.
pub uninterp spec fn str_debug_repr(s: Seq<char>) -> Seq<char>;

/// The debug rendering of a variable, which orders variables when requirement
/// lists are merged: `Time`, `TimeStep`, `SpatialGradient { dimension: <d> }`,
/// `External { name: <quoted name> }`.
pub open spec fn variable_debug(v: VariableModel) -> Seq<char> {
    match v {
        VariableModel::Time => "Time"@,
        VariableModel::TimeStep => "TimeStep"@,
        VariableModel::SpatialGradient(d) => "SpatialGradient { dimension: "@ + decimal(d)
            + " }"@,
        VariableModel::External(name) => "External { name: "@ + str_debug_repr(name) + " }"@,
    }
}

proof fn lemma_affix_cancel(p: Seq<char>, x: Seq<char>, y: Seq<char>, q: Seq<char>)
    requires
        p + x + q == p + y + q,
    ensures
        x == y,
{
    let l = p + x + q;
    assert(l.len() == p.len() + x.len() + q.len());
    assert((p + y + q).len() == p.len() + y.len() + q.len());
    assert(x.len() == y.len());
    assert(x =~= l.subrange(p.len() as int, (p.len() + x.len()) as int));
    assert(y =~= (p + y + q).subrange(p.len() as int, (p.len() + y.len()) as int));
}

/// Distinct variables have distinct debug renderings, provided the quoted
/// forms of distinct external names differ.
pub proof fn lemma_debug_injective(a: VariableModel, b: VariableModel)
    requires
        a is External && b is External && str_debug_repr(a->External_0) == str_debug_repr(
            b->External_0,
        ) ==> a->External_0 == b->External_0,
    ensures
        variable_debug(a) == variable_debug(b) ==> a == b,
{
    reveal_strlit("Time");
    reveal_strlit("TimeStep");
    reveal_strlit("SpatialGradient { dimension: ");
    reveal_strlit(" }");
    reveal_strlit("External { name: ");
    if variable_debug(a) == variable_debug(b) {
        let da = variable_debug(a);
        match (a, b) {
            (VariableModel::SpatialGradient(x), VariableModel::SpatialGradient(y)) => {
                lemma_affix_cancel(
                    "SpatialGradient { dimension: "@,
                    decimal(x),
                    decimal(y),
                    " }"@,
                );
                lemma_decimal_injective(x, y);
            },
            (VariableModel::External(x), VariableModel::External(y)) => {
                lemma_affix_cancel(
                    "External { name: "@,
                    str_debug_repr(x),
                    str_debug_repr(y),
                    " }"@,
                );
            },
            (VariableModel::Time, VariableModel::TimeStep) => {
                assert(da.len() != variable_debug(b).len());
            },
            (VariableModel::TimeStep, VariableModel::Time) => {
                assert(da.len() != variable_debug(b).len());
            },
            _ => {
                assert(da[0] != variable_debug(b)[0] || a == b);
            },
        }
    }
}

/// Formats a string slice with `<str as Debug>::fmt` (through
/// `format!("{:?}")`). Trusted: the result is named `str_debug_repr` of the
/// slice's characters; nothing more about the escaping rules is stated.
#[verifier::external_body]
pub(crate) fn debug_str(s: &str) -> (r: String)
    ensures
        r@ == str_debug_repr(s@),
{
    format!("{:?}", s)
}

impl ContextVariable {
    /// `true` when both keys denote the same variable.
    pub fn same_as(&self, other: &ContextVariable) -> (r: bool)
        ensures
            r == (self@ == other@),
    {
        match (self, other) {
            (ContextVariable::Time, ContextVariable::Time) => true,
            (ContextVariable::TimeStep, ContextVariable::TimeStep) => true,
            (
                ContextVariable::SpatialGradient { dimension: a },
                ContextVariable::SpatialGradient { dimension: b },
            ) => *a == *b,
            (ContextVariable::External { name: a }, ContextVariable::External { name: b }) => {
                str_eq(a, b)
            },
            _ => false,
        }
    }

    /// The user-facing rendering of the variable (its `Display` form).
    pub fn to_string(&self) -> (r: String)
        ensures
            r@ == variable_display(self@),
    {
        proof {
            reveal_strlit("Time");
            reveal_strlit("TimeStep");
            reveal_strlit("SpatialGradient(dim=");
            reveal_strlit(")");
            reveal_strlit("External(");
        }
        match self {
            ContextVariable::Time => String::from_str("Time"),
            ContextVariable::TimeStep => String::from_str("TimeStep"),
            ContextVariable::SpatialGradient { dimension } => {
                let mut s = String::from_str("SpatialGradient(dim=");
                push_decimal(&mut s, *dimension);
                s.append(")");
                s
            },
            ContextVariable::External { name } => {
                let mut s = String::from_str("External(");
                s.append(name);
                s.append(")");
                s
            },
        }
    }

    /// The debug rendering of the variable (its derived `Debug` form).
    pub fn debug_string(&self) -> (r: String)
        ensures
            r@ == variable_debug(self@),
    {
        proof {
            reveal_strlit("Time");
            reveal_strlit("TimeStep");
            reveal_strlit("SpatialGradient { dimension: ");
            reveal_strlit(" }");
            reveal_strlit("External { name: ");
        }
        match self {
            ContextVariable::Time => String::from_str("Time"),
            ContextVariable::TimeStep => String::from_str("TimeStep"),
            ContextVariable::SpatialGradient { dimension } => {
                let mut s = String::from_str("SpatialGradient { dimension: ");
                push_decimal(&mut s, *dimension);
                s.append(" }");
                s
            },
            ContextVariable::External { name } => {
                let mut s = String::from_str("External { name: ");
                let quoted = debug_str(name);
                s.append(quoted.as_str());
                s.append(" }");
                s
            },
        }
    }
}

} // verus!
