//! The variable store of the compute context.
//!
//! Calculators write their results under a [`ContextVariable`] key; models,
//! boundary conditions and operators read them back. A read of a variable
//! that no calculator produced fails with
//! [`OxiflowError::MissingCalculator`] naming the variable. The simulation
//! time and step, and the floating-point payloads, are held by the numerical
//! layer around this library.

use vstd::prelude::*;

use crate::context::error::OxiflowError;
use crate::context::variable::{ContextVariable, VariableModel};

verus! {

/// The keys of a sequence of variable entries, in order.
pub open spec fn variable_keys<V>(s: Seq<(ContextVariable, V)>) -> Seq<VariableModel> {
    s.map_values(|e: (ContextVariable, V)| e.0@)
}

/// The map that a sequence of variable entries with distinct keys stands
/// for.
pub open spec fn variable_map<V>(s: Seq<(ContextVariable, V)>) -> Map<VariableModel, V> {
    Map::new(
        |k: VariableModel| variable_keys(s).contains(k),
        |k: VariableModel| s[variable_keys(s).index_of(k)].1,
    )
}

proof fn lemma_variable_map_at<V>(s: Seq<(ContextVariable, V)>, i: int)
    requires
        variable_keys(s).no_duplicates(),
        0 <= i < s.len(),
    ensures
        variable_map(s).contains_key(s[i].0@),
        variable_map(s)[s[i].0@] == s[i].1,
{
    let ks = variable_keys(s);
    assert(ks[i] == s[i].0@);
    let j = ks.index_of(s[i].0@);
    assert(0 <= j < ks.len() && ks[j] == s[i].0@);
}

proof fn lemma_variable_index<V>(s: Seq<(ContextVariable, V)>, k: VariableModel) -> (j: int)
    requires
        variable_keys(s).contains(k),
    ensures
        0 <= j < s.len(),
        s[j].0@ == k,
        variable_keys(s)[j] == k,
{
    choose|j: int| 0 <= j < variable_keys(s).len() && variable_keys(s)[j] == k
}

/// A copy of a variable key.
pub fn copy_variable(v: &ContextVariable) -> (r: ContextVariable)
    ensures
        r@ == v@,
{
    match v {
        ContextVariable::Time => ContextVariable::Time,
        ContextVariable::TimeStep => ContextVariable::TimeStep,
        ContextVariable::SpatialGradient { dimension } => ContextVariable::SpatialGradient {
            dimension: *dimension,
        },
        ContextVariable::External { name } => ContextVariable::External { name: *name },
    }
}

/// The values computed for the context variables of one evaluation.
#[derive(Debug)]
pub struct VariableStore<V> {
    entries: Vec<(ContextVariable, V)>,
}

impl<V> View for VariableStore<V> {
    type V = Map<VariableModel, V>;

    closed spec fn view(&self) -> Map<VariableModel, V> {
        variable_map(self.entries@)
    }
}

impl<V> VariableStore<V> {
    /// Keys are distinct.
    #[verifier::type_invariant]
    spec fn keys_distinct(self) -> bool {
        variable_keys(self.entries@).no_duplicates()
    }

    /// An empty store.
    pub fn new() -> (r: Self)
        ensures
            r@ == Map::<VariableModel, V>::empty(),
    {
        let r = VariableStore { entries: Vec::new() };
        assert(r@ =~= Map::<VariableModel, V>::empty());
        r
    }

    fn find(&self, var: &ContextVariable) -> (r: Option<usize>)
        ensures
            match r {
                Some(i) => i < self.entries@.len() && self.entries@[i as int].0@ == var@,
                None => !variable_keys(self.entries@).contains(var@),
            },
    {
        let mut i: usize = 0;
        while i < self.entries.len()
            invariant
                i <= self.entries@.len(),
                forall|j: int| 0 <= j < i ==> self.entries@[j].0@ != var@,
            decreases self.entries@.len() - i,
        {
            if self.entries[i].0.same_as(var) {
                return Some(i);
            }
            i = i + 1;
        }
        None
    }

    /// Stores `value` under `var`, replacing any earlier value.
    pub fn insert(&mut self, var: ContextVariable, value: V)
        ensures
            final(self)@ == old(self)@.insert(var@, value),
    {
        proof {
            use_type_invariant(&*self);
        }
        let ghost k = var@;
        let ghost old_map = self@;
        let found = self.find(&var);
        let mut entries: Vec<(ContextVariable, V)> = Vec::new();
        std::mem::swap(&mut entries, &mut self.entries);
        let ghost old_s = entries@;
        match found {
            Some(i) => {
                entries.set(i, (var, value));
                proof {
                    assert(variable_keys(entries@) =~= variable_keys(old_s));
                    assert(variable_keys(entries@)[i as int] == k);
                    assert forall|k2: VariableModel| #[trigger]
                        variable_map(entries@).contains_key(k2) implies variable_map(entries@)[k2]
                        == old_map.insert(k, value)[k2] by {
                        let j = lemma_variable_index(entries@, k2);
                        lemma_variable_map_at(entries@, j);
                        if j != i {
                            assert(variable_keys(entries@)[j] != variable_keys(entries@)[i as int]);
                            assert(entries@[j] == old_s[j]);
                            lemma_variable_map_at(old_s, j);
                        }
                    }
                    assert(variable_map(entries@).dom() =~= old_map.insert(k, value).dom()) by {
                        lemma_variable_map_at(old_s, i as int);
                    }
                    assert(variable_map(entries@) =~= old_map.insert(k, value));
                }
            },
            None => {
                entries.push((var, value));
                proof {
                    let n = old_s.len() as int;
                    assert(variable_keys(entries@) =~= variable_keys(old_s).push(k));
                    assert forall|k2: VariableModel| #[trigger]
                        variable_map(entries@).contains_key(k2) implies variable_map(entries@)[k2]
                        == old_map.insert(k, value)[k2] by {
                        let j = lemma_variable_index(entries@, k2);
                        lemma_variable_map_at(entries@, j);
                        if j != n {
                            assert(entries@[j] == old_s[j]);
                            assert(variable_keys(old_s)[j] == k2);
                            lemma_variable_map_at(old_s, j);
                        }
                    }
                    assert forall|k2: VariableModel|
                        #![auto]
                        old_map.contains_key(k2) implies variable_map(entries@).contains_key(k2) by {
                        let j = lemma_variable_index(old_s, k2);
                        assert(variable_keys(entries@)[j] == k2);
                    }
                    assert(variable_keys(entries@)[n] == k);
                    assert(variable_map(entries@).dom() =~= old_map.insert(k, value).dom());
                    assert(variable_map(entries@) =~= old_map.insert(k, value));
                }
            },
        }
        self.entries = entries;
    }

    /// The value stored under `var`, if any.
    pub fn try_get(&self, var: &ContextVariable) -> (r: Option<&V>)
        ensures
            match r {
                Some(v) => self@.contains_key(var@) && self@[var@] == *v,
                None => !self@.contains_key(var@),
            },
    {
        proof {
            use_type_invariant(self);
        }
        match self.find(var) {
            Some(i) => {
                proof {
                    lemma_variable_map_at(self.entries@, i as int);
                }
                Some(&self.entries[i].1)
            },
            None => None,
        }
    }

    /// The value stored under `var`; fails with a missing-calculator error
    /// naming `var` when no value was stored.
    pub fn get_value(&self, var: &ContextVariable) -> (r: Result<&V, OxiflowError>)
        ensures
            match r {
                Ok(v) => self@.contains_key(var@) && self@[var@] == *v,
                Err(e) => !self@.contains_key(var@) && (e matches OxiflowError::MissingCalculator(
                    missing,
                ) && missing@ == var@),
            },
    {
        match self.try_get(var) {
            Some(v) => Ok(v),
            None => Err(OxiflowError::MissingCalculator(copy_variable(var))),
        }
    }
}

/// A value stored under a variable is read back unchanged, and a variable
/// never stored is reported missing: `before` is the store's view before
/// `insert(var, v)`.
pub proof fn lemma_store_read_after_insert<V>(
    before: Map<VariableModel, V>,
    var: VariableModel,
    v: V,
    other: VariableModel,
)
    requires
        other != var,
    ensures
        before.insert(var, v).contains_key(var) && before.insert(var, v)[var] == v,
        before.insert(var, v).contains_key(other) == before.contains_key(other),
        before.contains_key(other) ==> before.insert(var, v)[other] == before[other],
{
}

} // verus!
