//! Multi-domain state container for coupled simulations.
//!
//! [`MultiDomainState`] maps a composite key `(DomainId, PhysicalQuantity)`
//! to a field value. The key is fully typed and self-documenting: no
//! implicit column-ordering convention is needed to tell the fields of two
//! domains, or two components of one domain, apart.
//!
//! ```text
//! ("column", Concentration { component: 0 }) → [0.0, 1.2, …]
//! ("column", Concentration { component: 1 }) → [0.0, 0.3, …]
//! ("lake",   Velocity      { component: 0 }) → [0.1, 0.2, …]
//! ```

use vstd::prelude::*;

use crate::context::error::OxiflowError;
use crate::context::quantity::{PhysicalQuantity, QuantityModel};
use crate::solver::scenario::DomainId;
use crate::text::{decimal_list, push_decimal_list};

verus! {

/// The key of a stored field: the domain name and the quantity.
pub type StateKey = (Seq<char>, QuantityModel);

/// The model of a stored key.
pub open spec fn key_of(k: (DomainId, PhysicalQuantity)) -> StateKey {
    (k.0@, k.1@)
}

/// The models of a sequence of stored keys, in order.
pub open spec fn keys_of(s: Seq<(DomainId, PhysicalQuantity)>) -> Seq<StateKey> {
    s.map_values(|k: (DomainId, PhysicalQuantity)| key_of(k))
}

/// The map that distinct keys `ks` and their values `vs` (same positions)
/// stand for.
pub open spec fn map_of<V>(ks: Seq<(DomainId, PhysicalQuantity)>, vs: Seq<V>) -> Map<StateKey, V> {
    Map::new(|k: StateKey| keys_of(ks).contains(k), |k: StateKey| vs[keys_of(ks).index_of(k)])
}

/// Multi-domain physical state: `(domain, quantity) → field`.
#[derive(Debug)]
pub struct MultiDomainState<V> {
    keys: Vec<(DomainId, PhysicalQuantity)>,
    values: Vec<V>,
}

impl<V> View for MultiDomainState<V> {
    type V = Map<StateKey, V>;

    closed spec fn view(&self) -> Map<StateKey, V> {
        map_of(self.keys@, self.values@)
    }
}

/// The value at a position of distinct keys is what the map gives for the
/// key at that position.
proof fn lemma_map_of_at<V>(ks: Seq<(DomainId, PhysicalQuantity)>, vs: Seq<V>, i: int)
    requires
        keys_of(ks).no_duplicates(),
        ks.len() == vs.len(),
        0 <= i < ks.len(),
    ensures
        map_of(ks, vs).contains_key(key_of(ks[i])),
        map_of(ks, vs)[key_of(ks[i])] == vs[i],
{
    let kk = keys_of(ks);
    assert(kk[i] == key_of(ks[i]));
    assert(kk.contains(key_of(ks[i])));
    let j = kk.index_of(key_of(ks[i]));
    assert(0 <= j < kk.len() && kk[j] == key_of(ks[i]));
    assert(j == i);
}

/// A position holding a given key exists when the keys contain it.
proof fn lemma_index_for_key(ks: Seq<(DomainId, PhysicalQuantity)>, k: StateKey) -> (j: int)
    requires
        keys_of(ks).contains(k),
    ensures
        0 <= j < ks.len(),
        key_of(ks[j]) == k,
        keys_of(ks)[j] == k,
{
    let j = choose|j: int| 0 <= j < keys_of(ks).len() && keys_of(ks)[j] == k;
    j
}

/// The map has exactly the stored keys, as many as there are positions.
proof fn lemma_map_of_len<V>(ks: Seq<(DomainId, PhysicalQuantity)>, vs: Seq<V>)
    requires
        keys_of(ks).no_duplicates(),
    ensures
        map_of(ks, vs).dom() == keys_of(ks).to_set(),
        map_of(ks, vs).len() == ks.len(),
{
    assert(map_of(ks, vs).dom() =~= keys_of(ks).to_set());
    keys_of(ks).unique_seq_to_set();
}

/// Replacing the value at position `i` replaces the field of the key there.
proof fn lemma_update_value<V>(ks: Seq<(DomainId, PhysicalQuantity)>, vs: Seq<V>, i: int)
    requires
        keys_of(ks).no_duplicates(),
        ks.len() == vs.len(),
        0 <= i < ks.len(),
    ensures
        forall|v: V|
            #[trigger] map_of(ks, vs.update(i, v)) == map_of(ks, vs).insert(key_of(ks[i]), v),
{
    assert forall|v: V| #[trigger]
        map_of(ks, vs.update(i, v)) == map_of(ks, vs).insert(key_of(ks[i]), v) by {
        let m2 = map_of(ks, vs.update(i, v));
        let m1 = map_of(ks, vs).insert(key_of(ks[i]), v);
        lemma_map_of_at(ks, vs, i);
        assert forall|k: StateKey| #[trigger] m2.contains_key(k) implies m2[k] == m1[k] by {
            let j = lemma_index_for_key(ks, k);
            lemma_map_of_at(ks, vs.update(i, v), j);
            if j != i {
                assert(keys_of(ks)[j] != keys_of(ks)[i]);
                lemma_map_of_at(ks, vs, j);
            }
        }
        assert(m2.dom() =~= m1.dom());
        assert(m2 =~= m1);
    }
}

impl<V> MultiDomainState<V> {
    /// Keys are distinct, and each has its value at the same position.
    #[verifier::type_invariant]
    spec fn well_formed(self) -> bool {
        &&& self.keys@.len() == self.values@.len()
        &&& keys_of(self.keys@).no_duplicates()
    }

    /// Creates an empty container.
    pub fn new() -> (r: Self)
        ensures
            r@ == Map::<StateKey, V>::empty(),
    {
        let r = MultiDomainState { keys: Vec::new(), values: Vec::new() };
        assert(r@ =~= Map::<StateKey, V>::empty());
        r
    }

    /// Position of the key `(domain, quantity)`, if stored.
    fn find(&self, domain: &DomainId, quantity: &PhysicalQuantity) -> (r: Option<usize>)
        ensures
            match r {
                Some(i) => i < self.keys@.len() && key_of(self.keys@[i as int]) == (
                domain@,
                quantity@,
                ),
                None => !keys_of(self.keys@).contains((domain@, quantity@)),
            },
    {
        let mut i: usize = 0;
        while i < self.keys.len()
            invariant
                i <= self.keys@.len(),
                forall|j: int| 0 <= j < i ==> key_of(self.keys@[j]) != (domain@, quantity@),
            decreases self.keys@.len() - i,
        {
            let k = &self.keys[i];
            if k.0.same_as(domain) && k.1.same_as(quantity) {
                return Some(i);
            }
            i = i + 1;
        }
        None
    }

    /// The field stored for `(domain, quantity)`, if present.
    pub fn get(&self, domain: &DomainId, quantity: &PhysicalQuantity) -> (r: Option<&V>)
        ensures
            match r {
                Some(v) => self@.contains_key((domain@, quantity@)) && self@[(domain@, quantity@)]
                    == *v,
                None => !self@.contains_key((domain@, quantity@)),
            },
    {
        proof {
            use_type_invariant(self);
        }
        match self.find(domain, quantity) {
            Some(i) => {
                proof {
                    lemma_map_of_at(self.keys@, self.values@, i as int);
                }
                Some(&self.values[i])
            },
            None => None,
        }
    }

    /// Mutable access to the field stored for `(domain, quantity)`, if
    /// present; what is written through it becomes that key's field.
    pub fn get_mut(&mut self, domain: &DomainId, quantity: &PhysicalQuantity) -> (r: Option<&mut V>)
        ensures
            match r {
                Some(v) => old(self)@.contains_key((domain@, quantity@)) && *v == old(self)@[(
                domain@,
                quantity@,
                )] && final(self)@ == old(self)@.insert((domain@, quantity@), *final(v)),
                None => !old(self)@.contains_key((domain@, quantity@)) && final(self)@ == old(
                    self,
                )@,
            },
    {
        proof {
            use_type_invariant(&*self);
        }
        match self.find(domain, quantity) {
            Some(i) => {
                proof {
                    lemma_map_of_at(self.keys@, self.values@, i as int);
                    lemma_update_value(self.keys@, self.values@, i as int);
                }
                Some(&mut self.values[i])
            },
            None => None,
        }
    }

    /// Inserts or replaces the field for `(domain, quantity)`.
    pub fn set(&mut self, domain: DomainId, quantity: PhysicalQuantity, value: V)
        ensures
            final(self)@ == old(self)@.insert((domain@, quantity@), value),
    {
        proof {
            use_type_invariant(&*self);
        }
        let ghost k = (domain@, quantity@);
        let ghost old_map = self@;
        match self.find(&domain, &quantity) {
            Some(i) => {
                proof {
                    lemma_update_value(self.keys@, self.values@, i as int);
                }
                let mut taken = MultiDomainState::new();
                std::mem::swap(self, &mut taken);
                let MultiDomainState { keys, mut values } = taken;
                values.set(i, value);
                *self = MultiDomainState { keys, values };
            },
            None => {
                let mut taken = MultiDomainState::new();
                std::mem::swap(self, &mut taken);
                let MultiDomainState { mut keys, mut values } = taken;
                let ghost ks = keys@;
                let ghost vs = values@;
                keys.push((domain, quantity));
                values.push(value);
                proof {
                    let n = ks.len() as int;
                    assert(keys_of(keys@) =~= keys_of(ks).push(k));
                    assert forall|k2: StateKey| #[trigger]
                        map_of(keys@, values@).contains_key(k2) implies map_of(keys@, values@)[k2]
                        == old_map.insert(k, value)[k2] by {
                        let j = lemma_index_for_key(keys@, k2);
                        lemma_map_of_at(keys@, values@, j);
                        if j != n {
                            assert(keys_of(ks)[j] == k2);
                            lemma_map_of_at(ks, vs, j);
                        }
                    }
                    assert forall|k2: StateKey|
                        #![auto]
                        old_map.contains_key(k2) implies map_of(keys@, values@).contains_key(k2) by {
                        let j = lemma_index_for_key(ks, k2);
                        assert(keys_of(keys@)[j] == k2);
                    }
                    assert(keys_of(keys@)[n] == k);
                    assert(map_of(keys@, values@).dom() =~= old_map.insert(k, value).dom());
                    assert(map_of(keys@, values@) =~= old_map.insert(k, value));
                }
                *self = MultiDomainState { keys, values };
            },
        }
    }

    /// Removes the field for `(domain, quantity)`, returning it if present.
    pub fn remove(&mut self, domain: &DomainId, quantity: &PhysicalQuantity) -> (r: Option<V>)
        ensures
            final(self)@ == old(self)@.remove((domain@, quantity@)),
            match r {
                Some(v) => old(self)@.contains_key((domain@, quantity@)) && old(self)@[(
                domain@,
                quantity@,
                )] == v,
                None => !old(self)@.contains_key((domain@, quantity@)),
            },
    {
        proof {
            use_type_invariant(&*self);
        }
        let ghost k = (domain@, quantity@);
        let ghost old_map = self@;
        match self.find(domain, quantity) {
            None => None,
            Some(i) => {
                proof {
                    lemma_map_of_at(self.keys@, self.values@, i as int);
                }
                let mut taken = MultiDomainState::new();
                std::mem::swap(self, &mut taken);
                let MultiDomainState { mut keys, mut values } = taken;
                let ghost ks = keys@;
                let ghost vs = values@;
                keys.remove(i);
                let v = values.remove(i);
                proof {
                    let kk = keys_of(ks);
                    assert(keys_of(keys@) =~= kk.remove(i as int));
                    assert(keys_of(keys@).no_duplicates()) by {
                        assert forall|a: int, b: int|
                            0 <= a < keys_of(keys@).len() && 0 <= b < keys_of(keys@).len() && a
                                != b implies keys_of(keys@)[a] != keys_of(keys@)[b] by {
                            let a2 = if a < i { a } else { a + 1 };
                            let b2 = if b < i { b } else { b + 1 };
                            assert(keys_of(keys@)[a] == kk[a2]);
                            assert(keys_of(keys@)[b] == kk[b2]);
                        }
                    }
                    assert forall|k2: StateKey| #[trigger]
                        map_of(keys@, values@).contains_key(k2) implies old_map.remove(
                        k,
                    ).contains_key(k2) && map_of(keys@, values@)[k2] == old_map.remove(k)[k2] by {
                        let j = lemma_index_for_key(keys@, k2);
                        lemma_map_of_at(keys@, values@, j);
                        let j2 = if j < i { j } else { j + 1 };
                        assert(keys@[j] == ks[j2]);
                        assert(values@[j] == vs[j2]);
                        assert(kk[j2] == k2);
                        assert(kk[j2] != kk[i as int]);
                        lemma_map_of_at(ks, vs, j2);
                    }
                    assert forall|k2: StateKey| #[trigger]
                        old_map.remove(k).contains_key(k2) implies map_of(
                        keys@,
                        values@,
                    ).contains_key(k2) by {
                        let j2 = lemma_index_for_key(ks, k2);
                        assert(j2 != i);
                        let j = if j2 < i { j2 } else { j2 - 1 };
                        assert(keys_of(keys@)[j] == k2);
                    }
                    assert(map_of(keys@, values@) =~= old_map.remove(k));
                }
                *self = MultiDomainState { keys, values };
                Some(v)
            },
        }
    }

    /// Number of stored fields.
    pub fn len(&self) -> (r: usize)
        ensures
            r == self@.len(),
    {
        proof {
            use_type_invariant(self);
            lemma_map_of_len(self.keys@, self.values@);
        }
        self.keys.len()
    }

    /// `true` when no field is stored.
    pub fn is_empty(&self) -> (r: bool)
        ensures
            r == (self@.len() == 0),
    {
        self.len() == 0
    }

    /// All stored entries as `(domain, quantity, field)`: each key once.
    pub fn iter(&self) -> (r: Vec<(&DomainId, &PhysicalQuantity, &V)>)
        ensures
            r@.len() == self@.len(),
            forall|i: int|
                0 <= i < r@.len() ==> #[trigger] self@.contains_key((r@[i].0@, r@[i].1@))
                    && self@[(r@[i].0@, r@[i].1@)] == *r@[i].2,
            forall|i: int, j: int|
                0 <= i < j < r@.len() ==> (r@[i].0@, r@[i].1@) != (r@[j].0@, r@[j].1@),
            forall|k: StateKey|
                self@.contains_key(k) ==> exists|i: int|
                    #![trigger r@[i]]
                    0 <= i < r@.len() && (r@[i].0@, r@[i].1@) == k,
    {
        proof {
            use_type_invariant(self);
            lemma_map_of_len(self.keys@, self.values@);
        }
        let ghost ks = self.keys@;
        let ghost vs = self.values@;
        let mut out: Vec<(&DomainId, &PhysicalQuantity, &V)> = Vec::new();
        let mut i: usize = 0;
        while i < self.keys.len()
            invariant
                ks == self.keys@,
                vs == self.values@,
                ks.len() == vs.len(),
                i <= ks.len(),
                out@.len() == i,
                forall|j: int|
                    #![trigger out@[j]]
                    0 <= j < i ==> out@[j].0@ == ks[j].0@ && out@[j].1@ == ks[j].1@ && *out@[j].2
                        == vs[j],
            decreases ks.len() - i,
        {
            let k = &self.keys[i];
            out.push((&k.0, &k.1, &self.values[i]));
            i = i + 1;
        }
        proof {
            assert forall|i: int| 0 <= i < out@.len() implies #[trigger] self@.contains_key(
                (out@[i].0@, out@[i].1@),
            ) && self@[(out@[i].0@, out@[i].1@)] == *out@[i].2 by {
                lemma_map_of_at(ks, vs, i);
            }
            assert forall|i: int, j: int| 0 <= i < j < out@.len() implies (out@[i].0@, out@[i].1@)
                != (out@[j].0@, out@[j].1@) by {
                assert(keys_of(ks)[i] == key_of(ks[i]));
                assert(keys_of(ks)[j] == key_of(ks[j]));
            }
            assert forall|k: StateKey| self@.contains_key(k) implies exists|i: int|
                #![trigger out@[i]]
                0 <= i < out@.len() && (out@[i].0@, out@[i].1@) == k by {
                let j = lemma_index_for_key(ks, k);
                assert((out@[j].0@, out@[j].1@) == k);
            }
        }
        out
    }

    /// The fields stored for `domain`, as `(quantity, field)`: each quantity
    /// once.
    pub fn domain_fields(&self, domain: &DomainId) -> (r: Vec<(&PhysicalQuantity, &V)>)
        ensures
            forall|i: int|
                0 <= i < r@.len() ==> #[trigger] self@.contains_key((domain@, r@[i].0@))
                    && self@[(domain@, r@[i].0@)] == *r@[i].1,
            forall|i: int, j: int| 0 <= i < j < r@.len() ==> r@[i].0@ != r@[j].0@,
            forall|q: QuantityModel|
                self@.contains_key((domain@, q)) ==> exists|i: int|
                    0 <= i < r@.len() && #[trigger] r@[i].0@ == q,
    {
        proof {
            use_type_invariant(self);
        }
        let ghost ks = self.keys@;
        let ghost vs = self.values@;
        let ghost d = domain@;
        let mut out: Vec<(&PhysicalQuantity, &V)> = Vec::new();
        let ghost mut src: Seq<int> = Seq::empty();
        let mut i: usize = 0;
        while i < self.keys.len()
            invariant
                ks == self.keys@,
                vs == self.values@,
                ks.len() == vs.len(),
                d == domain@,
                i <= ks.len(),
                keys_of(ks).no_duplicates(),
                out@.len() == src.len(),
                forall|j: int|
                    0 <= j < src.len() ==> 0 <= #[trigger] src[j] < i && ks[src[j]].0@ == d
                        && out@[j].0@ == ks[src[j]].1@ && *out@[j].1 == vs[src[j]],
                forall|a: int, b: int| 0 <= a < b < src.len() ==> src[a] < src[b],
                forall|m: int|
                    0 <= m < i && ks[m].0@ == d ==> exists|j: int|
                        0 <= j < src.len() && #[trigger] src[j] == m,
            decreases ks.len() - i,
        {
            let k = &self.keys[i];
            let ghost old_src = src;
            if k.0.same_as(domain) {
                out.push((&k.1, &self.values[i]));
                proof {
                    src = src.push(i as int);
                }
            }
            proof {
                assert forall|m: int|
                    0 <= m < i + 1 && ks[m].0@ == d implies exists|j: int|
                    0 <= j < src.len() && #[trigger] src[j] == m by {
                    if m == i {
                        assert(src[src.len() - 1] == m);
                    } else {
                        let j = choose|j: int| 0 <= j < old_src.len() && #[trigger] old_src[j] == m;
                        assert(src[j] == m);
                    }
                }
            }
            i = i + 1;
        }
        proof {
            assert forall|i: int| 0 <= i < out@.len() implies #[trigger] self@.contains_key(
                (d, out@[i].0@),
            ) && self@[(d, out@[i].0@)] == *out@[i].1 by {
                lemma_map_of_at(ks, vs, src[i]);
            }
            assert forall|a: int, b: int| 0 <= a < b < out@.len() implies out@[a].0@
                != out@[b].0@ by {
                assert(keys_of(ks)[src[a]] == key_of(ks[src[a]]));
                assert(keys_of(ks)[src[b]] == key_of(ks[src[b]]));
            }
            assert forall|q: QuantityModel| self@.contains_key((d, q)) implies exists|i: int|
                0 <= i < out@.len() && #[trigger] out@[i].0@ == q by {
                let m = lemma_index_for_key(ks, (d, q));
                let j = choose|j: int| 0 <= j < src.len() && #[trigger] src[j] == m;
                assert(out@[j].0@ == q);
            }
        }
        out
    }

    /// `true` when at least one field is stored for `domain`.
    pub fn contains_domain(&self, domain: &DomainId) -> (r: bool)
        ensures
            r == exists|q: QuantityModel| self@.contains_key((domain@, q)),
    {
        proof {
            use_type_invariant(self);
        }
        let mut i: usize = 0;
        while i < self.keys.len()
            invariant
                i <= self.keys@.len(),
                self.keys@.len() == self.values@.len(),
                keys_of(self.keys@).no_duplicates(),
                forall|j: int| 0 <= j < i ==> self.keys@[j].0@ != domain@,
            decreases self.keys@.len() - i,
        {
            if self.keys[i].0.same_as(domain) {
                proof {
                    lemma_map_of_at(self.keys@, self.values@, i as int);
                    assert(self@.contains_key((domain@, self.keys@[i as int].1@)));
                }
                return true;
            }
            i = i + 1;
        }
        proof {
            assert forall|q: QuantityModel| !self@.contains_key((domain@, q)) by {
                if self@.contains_key((domain@, q)) {
                    let j = lemma_index_for_key(self.keys@, (domain@, q));
                }
            }
        }
        false
    }
}

/// The values stored for domain `d` among the first `n` positions, in order.
pub open spec fn values_of_domain<V>(
    ks: Seq<(DomainId, PhysicalQuantity)>,
    vs: Seq<V>,
    d: Seq<char>,
    n: nat,
) -> Seq<V>
    decreases n,
{
    if n == 0 {
        Seq::empty()
    } else if ks[n - 1].0@ == d {
        values_of_domain(ks, vs, d, (n - 1) as nat).push(vs[n - 1])
    } else {
        values_of_domain(ks, vs, d, (n - 1) as nat)
    }
}

/// The quantities stored for domain `d` among the first `n` positions, in
/// order: the keys of the values of [`values_of_domain`].
pub open spec fn keys_of_domain(ks: Seq<(DomainId, PhysicalQuantity)>, d: Seq<char>, n: nat) -> Seq<
    QuantityModel,
>
    decreases n,
{
    if n == 0 {
        Seq::empty()
    } else if ks[n - 1].0@ == d {
        keys_of_domain(ks, d, (n - 1) as nat).push(ks[n - 1].1@)
    } else {
        keys_of_domain(ks, d, (n - 1) as nat)
    }
}

/// The values stored for a domain are, position by position, the fields of
/// distinct quantities of that domain, and every stored quantity of the
/// domain among the first `n` positions occurs.
proof fn lemma_domain_values<V>(
    ks: Seq<(DomainId, PhysicalQuantity)>,
    vs: Seq<V>,
    d: Seq<char>,
    n: nat,
)
    requires
        keys_of(ks).no_duplicates(),
        ks.len() == vs.len(),
        n <= ks.len(),
    ensures
        keys_of_domain(ks, d, n).len() == values_of_domain(ks, vs, d, n).len(),
        keys_of_domain(ks, d, n).no_duplicates(),
        forall|j: int|
            0 <= j < keys_of_domain(ks, d, n).len() ==> map_of(ks, vs).contains_key(
                (d, #[trigger] keys_of_domain(ks, d, n)[j]),
            ) && map_of(ks, vs)[(d, keys_of_domain(ks, d, n)[j])] == values_of_domain(
                ks,
                vs,
                d,
                n,
            )[j],
        forall|q: QuantityModel|
            #[trigger] keys_of_domain(ks, d, n).contains(q) <==> exists|m: int|
                0 <= m < n && key_of(ks[m]) == (d, q),
    decreases n,
{
    if n > 0 {
        let m = (n - 1) as int;
        lemma_domain_values(ks, vs, d, (n - 1) as nat);
        let kp = keys_of_domain(ks, d, (n - 1) as nat);
        let vp = values_of_domain(ks, vs, d, (n - 1) as nat);
        let kd = keys_of_domain(ks, d, n);
        let vd = values_of_domain(ks, vs, d, n);
        if ks[m].0@ == d {
            let q0 = ks[m].1@;
            assert(keys_of(ks)[m] == key_of(ks[m]));
            assert(!kp.contains(q0)) by {
                if kp.contains(q0) {
                    let m2 = choose|m2: int| 0 <= m2 < n - 1 && key_of(ks[m2]) == (d, q0);
                    assert(keys_of(ks)[m2] == key_of(ks[m2]));
                }
            }
            lemma_map_of_at(ks, vs, m);
            assert forall|j: int| 0 <= j < kd.len() implies map_of(ks, vs).contains_key(
                (d, #[trigger] kd[j]),
            ) && map_of(ks, vs)[(d, kd[j])] == vd[j] by {
                if j < kp.len() {
                    assert(kd[j] == kp[j]);
                    assert(vd[j] == vp[j]);
                }
            }
            assert forall|q: QuantityModel| #[trigger] kd.contains(q) <==> exists|m3: int|
                0 <= m3 < n && key_of(ks[m3]) == (d, q) by {
                if kd.contains(q) {
                    let j = choose|j: int| 0 <= j < kd.len() && kd[j] == q;
                    if j < kp.len() {
                        assert(kp[j] == q);
                        assert(kp.contains(q));
                    } else {
                        assert(key_of(ks[m]) == (d, q));
                    }
                }
                if exists|m3: int| 0 <= m3 < n && key_of(ks[m3]) == (d, q) {
                    let m3 = choose|m3: int| 0 <= m3 < n && key_of(ks[m3]) == (d, q);
                    if m3 < m {
                        assert(kp.contains(q));
                        let j = choose|j: int| 0 <= j < kp.len() && kp[j] == q;
                        assert(kd[j] == q);
                    } else {
                        assert(kd[kd.len() - 1] == q);
                    }
                }
            }
            assert forall|a: int, b: int| 0 <= a < kd.len() && 0 <= b < kd.len() && a != b implies kd[a]
                != kd[b] by {
                if a < kp.len() && b < kp.len() {
                    assert(kd[a] == kp[a] && kd[b] == kp[b]);
                } else if a < kp.len() {
                    assert(kd[a] == kp[a]);
                    assert(kp.contains(kp[a]));
                } else if b < kp.len() {
                    assert(kd[b] == kp[b]);
                    assert(kp.contains(kp[b]));
                }
            }
        } else {
            assert forall|q: QuantityModel| #[trigger] kd.contains(q) <==> exists|m3: int|
                0 <= m3 < n && key_of(ks[m3]) == (d, q) by {
                if exists|m3: int| 0 <= m3 < n && key_of(ks[m3]) == (d, q) {
                    let m3 = choose|m3: int| 0 <= m3 < n && key_of(ks[m3]) == (d, q);
                    assert(m3 < m);
                }
            }
        }
    }
}

/// The present values of a sequence of optional counts, in order.
pub open spec fn present_counts(s: Seq<Option<usize>>) -> Seq<usize>
    decreases s.len(),
{
    if s.len() == 0 {
        Seq::empty()
    } else {
        match s.last() {
            Some(c) => present_counts(s.drop_last()).push(c),
            None => present_counts(s.drop_last()),
        }
    }
}

/// The present counts are exactly the values of the `Some` entries, in
/// order, and as many as there are `Some` entries; they are all equal exactly
/// when every two `Some` entries hold the same count.
pub proof fn lemma_present_counts(s: Seq<Option<usize>>)
    ensures
        forall|c: usize|
            #[trigger] present_counts(s).contains(c) <==> exists|j: int|
                0 <= j < s.len() && s[j] == Some(c),
        present_counts(s).len() <= s.len(),
        (forall|j: int| 0 <= j < s.len() ==> #[trigger] s[j] is Some) ==> present_counts(s).len()
            == s.len(),
        all_equal(present_counts(s)) <==> forall|j: int, k: int|
            0 <= j < s.len() && 0 <= k < s.len() && #[trigger] s[j] is Some && #[trigger] s[k] is Some
                ==> s[j] == s[k],
    decreases s.len(),
{
    let p = present_counts(s);
    if s.len() > 0 {
        let t = s.drop_last();
        lemma_present_counts(t);
        let pt = present_counts(t);
        assert forall|c: usize| #[trigger] p.contains(c) <==> exists|j: int|
            0 <= j < s.len() && s[j] == Some(c) by {
            if pt.contains(c) {
                let j = choose|j: int| 0 <= j < t.len() && t[j] == Some(c);
                assert(s[j] == t[j]);
            }
            if p.contains(c) {
                let m = choose|m: int| 0 <= m < p.len() && p[m] == c;
                if s.last() is Some && m == p.len() - 1 {
                    assert(s[s.len() - 1] == Some(c));
                } else {
                    assert(p[m] == pt[m]);
                    assert(pt.contains(c));
                }
            }
            if exists|j: int| 0 <= j < s.len() && s[j] == Some(c) {
                let j = choose|j: int| 0 <= j < s.len() && s[j] == Some(c);
                if j < s.len() - 1 {
                    assert(t[j] == Some(c));
                    let m = choose|m: int| 0 <= m < pt.len() && pt[m] == c;
                    assert(p[m] == c);
                } else {
                    assert(p[p.len() - 1] == c);
                }
            }
        }
        if forall|j: int| 0 <= j < s.len() ==> #[trigger] s[j] is Some {
            assert forall|j: int| 0 <= j < t.len() implies #[trigger] t[j] is Some by {
                assert(s[j] is Some);
            }
            assert(s[s.len() - 1] is Some);
        }
        assert(all_equal(p) <==> forall|j: int, k: int|
            0 <= j < s.len() && 0 <= k < s.len() && #[trigger] s[j] is Some && #[trigger] s[k] is Some
                ==> s[j] == s[k]) by {
            if all_equal(p) {
                assert forall|j: int, k: int|
                    0 <= j < s.len() && 0 <= k < s.len() && #[trigger] s[j] is Some
                        && #[trigger] s[k] is Some implies s[j] == s[k] by {
                    let a = s[j]->0;
                    let b = s[k]->0;
                    assert(p.contains(a));
                    assert(p.contains(b));
                    let ma = choose|m: int| 0 <= m < p.len() && p[m] == a;
                    let mb = choose|m: int| 0 <= m < p.len() && p[m] == b;
                }
            }
            if forall|j: int, k: int|
                0 <= j < s.len() && 0 <= k < s.len() && #[trigger] s[j] is Some && #[trigger] s[k] is Some
                    ==> s[j] == s[k] {
                assert forall|x: int, y: int| 0 <= x < p.len() && 0 <= y < p.len() implies p[x]
                    == p[y] by {
                    assert(p.contains(p[x]));
                    assert(p.contains(p[y]));
                    let j = choose|j: int| 0 <= j < s.len() && s[j] == Some(p[x]);
                    let k = choose|k: int| 0 <= k < s.len() && s[k] == Some(p[y]);
                    assert(s[j] is Some && s[k] is Some);
                }
            }
        }
    } else {
        assert(p =~= Seq::<usize>::empty());
    }
}

impl<V> MultiDomainState<V> {
    /// The fields stored for `domain`, in storage order.
    pub closed spec fn domain_values(self, domain: Seq<char>) -> Seq<V> {
        values_of_domain(self.keys@, self.values@, domain, self.keys@.len())
    }

    /// The quantities of the fields stored for `domain`, in storage order:
    /// `domain_values(domain)[j]` is the field of `domain_quantities(domain)[j]`.
    pub closed spec fn domain_quantities(self, domain: Seq<char>) -> Seq<QuantityModel> {
        keys_of_domain(self.keys@, domain, self.keys@.len())
    }

    /// Checks that all the fields of `domain` have the same number of degrees
    /// of freedom. `dof_count` gives the count of a field, or `None` for a
    /// value that is not a nodal field (such a value is not compared). Fails
    /// with an invalid-domain error listing the counts when two of them
    /// differ.
    pub fn validate_domain_consistency<F: Fn(&V) -> Option<usize>>(
        &self,
        domain: &DomainId,
        dof_count: F,
    ) -> (r: Result<(), OxiflowError>)
        requires
            forall|v: &V| #[trigger] dof_count.requires((v,)),
        ensures
            exists|outs: Seq<Option<usize>>|
                {
                    &&& outs.len() == self.domain_values(domain@).len()
                    &&& forall|j: int|
                        0 <= j < outs.len() ==> dof_count.ensures(
                            (&self.domain_values(domain@)[j],),
                            #[trigger] outs[j],
                        )
                    &&& (r is Ok <==> all_equal(present_counts(outs)))
                    &&& (r is Ok <==> forall|j: int, k: int|
                        0 <= j < outs.len() && 0 <= k < outs.len() && #[trigger] outs[j] is Some
                            && #[trigger] outs[k] is Some ==> outs[j] == outs[k])
                    &&& (r is Err ==> (r matches Err(OxiflowError::InvalidDomain(message))
                        && message@ == inconsistent_dofs_message(
                        domain@,
                        present_counts(outs),
                    )))
                },
            self.domain_quantities(domain@).len() == self.domain_values(domain@).len(),
            self.domain_quantities(domain@).no_duplicates(),
            forall|q: QuantityModel|
                #[trigger] self.domain_quantities(domain@).contains(q) <==> self@.contains_key(
                    (domain@, q),
                ),
            forall|j: int|
                0 <= j < self.domain_values(domain@).len() ==> self@[(
                    domain@,
                    #[trigger] self.domain_quantities(domain@)[j],
                )] == self.domain_values(domain@)[j],
    {
        proof {
            use_type_invariant(self);
            let ks = self.keys@;
            lemma_domain_values(ks, self.values@, domain@, ks.len());
            assert forall|q: QuantityModel|
                #[trigger] self.domain_quantities(domain@).contains(q) <==> self@.contains_key(
                    (domain@, q),
                ) by {
                if self@.contains_key((domain@, q)) {
                    let m = lemma_index_for_key(ks, (domain@, q));
                }
                if exists|m: int| 0 <= m < ks.len() && key_of(ks[m]) == (domain@, q) {
                    let m = choose|m: int| 0 <= m < ks.len() && key_of(ks[m]) == (domain@, q);
                    assert(keys_of(ks)[m] == (domain@, q));
                }
            }
        }
        let ghost ks = self.keys@;
        let ghost vs = self.values@;
        let ghost d = domain@;
        let mut lengths: Vec<usize> = Vec::new();
        let ghost mut outs: Seq<Option<usize>> = Seq::empty();
        let mut i: usize = 0;
        while i < self.keys.len()
            invariant
                ks == self.keys@,
                vs == self.values@,
                ks.len() == vs.len(),
                d == domain@,
                i <= ks.len(),
                forall|v: &V| #[trigger] dof_count.requires((v,)),
                outs.len() == values_of_domain(ks, vs, d, i as nat).len(),
                forall|j: int|
                    0 <= j < outs.len() ==> dof_count.ensures(
                        (&values_of_domain(ks, vs, d, i as nat)[j],),
                        #[trigger] outs[j],
                    ),
                lengths@ == present_counts(outs),
            decreases ks.len() - i,
        {
            if self.keys[i].0.same_as(domain) {
                let c = dof_count(&self.values[i]);
                match c {
                    Some(n) => {
                        lengths.push(n);
                    },
                    None => {},
                }
                proof {
                    let prev = outs;
                    outs = outs.push(c);
                    assert(outs.drop_last() =~= prev);
                    let vals = values_of_domain(ks, vs, d, (i + 1) as nat);
                    assert(vals == values_of_domain(ks, vs, d, i as nat).push(vs[i as int]));
                    assert forall|j: int| 0 <= j < outs.len() implies dof_count.ensures(
                        (&vals[j],),
                        #[trigger] outs[j],
                    ) by {
                        if j < prev.len() {
                            assert(outs[j] == prev[j]);
                            assert(vals[j] == values_of_domain(ks, vs, d, i as nat)[j]);
                        }
                    }
                }
            }
            i = i + 1;
        }
        proof {
            lemma_present_counts(outs);
        }
        check_dof_counts(domain, &lengths)
    }
}

/// A copy of a domain identifier.
fn copy_domain(d: &DomainId) -> (r: DomainId)
    ensures
        r@ == d@,
{
    DomainId::new(d.as_str())
}

/// A copy of a quantity identifier.
fn copy_quantity(q: &PhysicalQuantity) -> (r: PhysicalQuantity)
    ensures
        r@ == q@,
{
    match q {
        PhysicalQuantity::Concentration { component } => PhysicalQuantity::Concentration {
            component: *component,
        },
        PhysicalQuantity::Temperature => PhysicalQuantity::Temperature,
        PhysicalQuantity::Pressure => PhysicalQuantity::Pressure,
        PhysicalQuantity::Velocity { component } => PhysicalQuantity::Velocity {
            component: *component,
        },
        PhysicalQuantity::Custom { name, component } => PhysicalQuantity::Custom {
            name: String::from_str(name.as_str()),
            component: *component,
        },
    }
}

impl<V: Clone> Clone for MultiDomainState<V> {
    /// The same keys, each with a clone of its field.
    fn clone(&self) -> (r: Self)
        ensures
            r@.dom() == self@.dom(),
            forall|k: StateKey| #[trigger] r@.contains_key(k) ==> cloned::<V>(self@[k], r@[k]),
    {
        proof {
            use_type_invariant(self);
        }
        let ghost ks = self.keys@;
        let ghost vs = self.values@;
        let mut keys: Vec<(DomainId, PhysicalQuantity)> = Vec::new();
        let mut values: Vec<V> = Vec::new();
        let mut i: usize = 0;
        while i < self.keys.len()
            invariant
                ks == self.keys@,
                vs == self.values@,
                ks.len() == vs.len(),
                i <= ks.len(),
                keys@.len() == i,
                values@.len() == i,
                forall|j: int|
                    0 <= j < i ==> key_of(#[trigger] keys@[j]) == key_of(ks[j]) && cloned::<V>(
                        vs[j],
                        values@[j],
                    ),
            decreases ks.len() - i,
        {
            let k = &self.keys[i];
            keys.push((copy_domain(&k.0), copy_quantity(&k.1)));
            values.push(self.values[i].clone());
            i = i + 1;
        }
        proof {
            assert(keys_of(keys@) =~= keys_of(ks));
            lemma_map_of_len(ks, vs);
            lemma_map_of_len(keys@, values@);
            assert forall|k: StateKey| #[trigger]
                map_of(keys@, values@).contains_key(k) implies cloned::<V>(
                map_of(ks, vs)[k],
                map_of(keys@, values@)[k],
            ) by {
                let j = lemma_index_for_key(keys@, k);
                lemma_map_of_at(keys@, values@, j);
                lemma_map_of_at(ks, vs, j);
            }
        }
        MultiDomainState { keys, values }
    }
}

impl<V> Default for MultiDomainState<V> {
    fn default() -> (r: Self)
        ensures
            r@ == Map::<StateKey, V>::empty(),
    {
        MultiDomainState::new()
    }
}

/// The fields of a container are finitely many.
pub proof fn lemma_state_finite<V>(st: MultiDomainState<V>)
    ensures
        st@.dom().finite(),
{
    assert(st@.dom() =~= keys_of(st.keys@).to_set());
    vstd::seq_lib::seq_to_set_is_finite(keys_of(st.keys@));
}

/// Reading a key right after `set` gives the field just written, and every
/// other key keeps its field: `before` is the view before `set(k, v)`,
/// `after` the view after it.
pub proof fn lemma_read_after_write<V>(before: Map<StateKey, V>, k: StateKey, v: V, other: StateKey)
    requires
        other != k,
    ensures
        before.insert(k, v).contains_key(k),
        before.insert(k, v)[k] == v,
        before.insert(k, v).contains_key(other) == before.contains_key(other),
        before.contains_key(other) ==> before.insert(k, v)[other] == before[other],
{
}

/// Writing a key that is already present replaces its field and keeps the
/// number of fields; writing a new key adds exactly one field.
pub proof fn lemma_set_len<V>(before: Map<StateKey, V>, k: StateKey, v: V)
    requires
        before.dom().finite(),
    ensures
        before.contains_key(k) ==> before.insert(k, v).len() == before.len(),
        !before.contains_key(k) ==> before.insert(k, v).len() == before.len() + 1,
{
    if before.contains_key(k) {
        assert(before.insert(k, v).dom() =~= before.dom());
    }
}

/// The last write of a key wins: writing `v1` then `v2` under the same key
/// gives the same container as writing `v2` alone.
pub proof fn lemma_overwrite<V>(before: Map<StateKey, V>, k: StateKey, v1: V, v2: V)
    ensures
        before.insert(k, v1).insert(k, v2) == before.insert(k, v2),
{
    assert(before.insert(k, v1).insert(k, v2) =~= before.insert(k, v2));
}

/// Removing a key just written returns the written field and leaves the
/// container as it was without that key.
pub proof fn lemma_remove_after_set<V>(before: Map<StateKey, V>, k: StateKey, v: V)
    ensures
        before.insert(k, v).contains_key(k),
        before.insert(k, v)[k] == v,
        before.insert(k, v).remove(k) == before.remove(k),
        !before.insert(k, v).remove(k).contains_key(k),
{
    assert(before.insert(k, v).remove(k) =~= before.remove(k));
}

/// `true` when all the values are equal.
pub open spec fn all_equal(s: Seq<usize>) -> bool {
    forall|i: int, j: int| 0 <= i < s.len() && 0 <= j < s.len() ==> s[i] == s[j]
}

/// The message of a failed consistency check of `domain`.
pub open spec fn inconsistent_dofs_message(domain: Seq<char>, lengths: Seq<usize>) -> Seq<char> {
    "domain '"@ + domain + "' has fields with inconsistent DOF counts: "@ + decimal_list(lengths)
}

/// Checks that the given degree-of-freedom counts of the fields of `domain`
/// are all equal. Fails with an invalid-domain error listing the counts when
/// two of them differ.
pub fn check_dof_counts(domain: &DomainId, lengths: &Vec<usize>) -> (r: Result<
    (),
    OxiflowError,
>)
    ensures
        r is Ok <==> all_equal(lengths@),
        r is Err ==> (r matches Err(OxiflowError::InvalidDomain(message)) && message@
            == inconsistent_dofs_message(domain@, lengths@)),
{
    let mut i: usize = 1;
    let mut consistent = true;
    while i < lengths.len()
        invariant
            1 <= i,
            consistent ==> forall|j: int|
                0 <= j < i && j < lengths@.len() ==> #[trigger] lengths@[j] == lengths@[0],
            !consistent ==> !all_equal(lengths@),
        decreases lengths@.len() - i,
    {
        if lengths[i] != lengths[i - 1] {
            consistent = false;
        }
        i = i + 1;
    }
    if consistent {
        Ok(())
    } else {
        proof {
            reveal_strlit("domain '");
            reveal_strlit("' has fields with inconsistent DOF counts: ");
        }
        let mut message = String::from_str("domain '");
        message.append(domain.as_str());
        message.append("' has fields with inconsistent DOF counts: ");
        push_decimal_list(&mut message, lengths);
        Err(OxiflowError::InvalidDomain(message))
    }
}


} // verus!
