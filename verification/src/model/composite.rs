//! Composite physical models: several models summed into one right-hand
//! side, `F(u) = Σ Fᵢ(u)`.
//!
//! A composite declares the union of its operators' requirements. Lists are
//! merged as the concatenation of both lists, stably sorted by the debug
//! rendering of each variable, with adjacent duplicates removed. The sum of
//! the contributions is floating-point arithmetic and is carried out by the
//! numerical layer around this library.

use vstd::prelude::*;

use crate::context::error::OxiflowError;
use crate::context::variable::{
    debug_str, str_debug_repr, variable_debug, ContextVariable, VariableModel,
};
use crate::model::traits::{PhysicalModel, RequiresContext};
use crate::text::{chars_of, lemma_lex_le_total_order, lex_le, lex_le_chars};

verus! {

/// The models of a sequence of variables.
pub open spec fn models(s: Seq<ContextVariable>) -> Seq<VariableModel> {
    s.map_values(|v: ContextVariable| v@)
}

/// `a` sorts no later than `b`: their debug renderings are in lexicographic
/// order.
pub open spec fn debug_le(a: VariableModel, b: VariableModel) -> bool {
    lex_le(variable_debug(a), variable_debug(b))
}

/// The position, searching from `i`, at which a stable insertion places `x`
/// into `s`: the first element that sorts strictly after `x`, or the end.
pub open spec fn insert_pos_from(s: Seq<VariableModel>, x: VariableModel, i: nat) -> nat
    decreases s.len() - i,
{
    if i >= s.len() {
        s.len()
    } else if !debug_le(s[i as int], x) {
        i
    } else {
        insert_pos_from(s, x, i + 1)
    }
}

/// Stable sort of `s` by debug rendering: each element in turn is placed
/// after every element already placed that does not sort after it.
pub open spec fn sort_by_debug(s: Seq<VariableModel>) -> Seq<VariableModel>
    decreases s.len(),
{
    if s.len() == 0 {
        s
    } else {
        let t = sort_by_debug(s.drop_last());
        t.insert(insert_pos_from(t, s.last(), 0) as int, s.last())
    }
}

/// `s` with every run of equal adjacent elements reduced to one element.
pub open spec fn dedup_adjacent(s: Seq<VariableModel>) -> Seq<VariableModel>
    decreases s.len(),
{
    if s.len() <= 1 {
        s
    } else if s[s.len() - 1] == s[s.len() - 2] {
        dedup_adjacent(s.drop_last())
    } else {
        dedup_adjacent(s.drop_last()).push(s.last())
    }
}

/// The merged requirement list of `dest` followed by `extra`.
pub open spec fn merged(dest: Seq<VariableModel>, extra: Seq<VariableModel>) -> Seq<
    VariableModel,
> {
    dedup_adjacent(sort_by_debug(dest + extra))
}

proof fn lemma_insert_pos_bound(s: Seq<VariableModel>, x: VariableModel, i: nat)
    requires
        i <= s.len(),
    ensures
        i <= insert_pos_from(s, x, i) <= s.len(),
    decreases s.len() - i,
{
    if i < s.len() && debug_le(s[i as int], x) {
        lemma_insert_pos_bound(s, x, i + 1);
    }
}

proof fn lemma_dedup_last(s: Seq<VariableModel>)
    requires
        s.len() > 0,
    ensures
        dedup_adjacent(s).len() > 0,
        dedup_adjacent(s).last() == s.last(),
    decreases s.len(),
{
    if s.len() > 1 {
        lemma_dedup_last(s.drop_last());
    }
}

proof fn lemma_dedup_push(t: Seq<VariableModel>, x: VariableModel)
    ensures
        dedup_adjacent(t.push(x)) == (if t.len() > 0 && t.last() == x {
            dedup_adjacent(t)
        } else {
            dedup_adjacent(t).push(x)
        }),
{
    let s = t.push(x);
    assert(s.drop_last() =~= t);
    if t.len() == 0 {
        assert(dedup_adjacent(t) =~= t);
        assert(s =~= seq![x]);
    }
}

/// Extends `dest` with the variables of `extra`, then sorts the whole list
/// stably by debug rendering and removes adjacent duplicates.
pub fn merge_variables(dest: &mut Vec<ContextVariable>, extra: Vec<ContextVariable>)
    ensures
        models(final(dest)@) == merged(models(old(dest)@), models(extra@)),
{
    let ghost all = models(old(dest)@) + models(extra@);
    let mut input: Vec<ContextVariable> = Vec::new();
    let mut extra = extra;
    let ghost extra0 = extra@;
    std::mem::swap(dest, &mut input);
    let ghost dest0 = input@;
    input.append(&mut extra);
    assert(models(input@) =~= all) by {
        assert(input@ =~= dest0 + extra0);
    }
    let n = input.len();

    // Stable insertion sort by debug rendering.
    let mut sorted: Vec<ContextVariable> = Vec::new();
    let mut keys: Vec<Vec<char>> = Vec::new();
    let mut k: usize = 0;
    while input.len() > 0
        invariant
            n == all.len(),
            k + input.len() == n,
            models(input@) =~= all.skip(k as int),
            models(sorted@) == sort_by_debug(all.take(k as int)),
            keys.len() == sorted.len(),
            forall|j: int| 0 <= j < keys.len() ==> #[trigger] keys@[j]@ == variable_debug(sorted@[j]@),
        decreases input.len(),
    {
        let ghost input0 = input@;
        let x = input.remove(0);
        proof {
            assert(x == input0[0]);
            assert(models(input0)[0] == x@);
            assert(all.skip(k as int)[0] == all[k as int]);
            assert(input@ =~= input0.subrange(1, input0.len() as int));
            assert forall|j: int| 0 <= j < input@.len() implies #[trigger] models(input@)[j]
                == all.skip(k as int + 1)[j] by {
                assert(input@[j] == input0[j + 1]);
                assert(models(input0)[j + 1] == all.skip(k as int)[j + 1]);
            }
            assert(models(input@) =~= all.skip(k as int + 1));
        }
        let kx = chars_of(x.debug_string().as_str());
        let ghost ms = models(sorted@);
        let mut p: usize = 0;
        while p < sorted.len() && lex_le_chars(&keys[p], &kx)
            invariant
                p <= sorted.len(),
                ms == models(sorted@),
                keys.len() == sorted.len(),
                forall|j: int| 0 <= j < keys.len() ==> #[trigger] keys@[j]@ == variable_debug(sorted@[j]@),
                kx@ == variable_debug(x@),
                insert_pos_from(ms, x@, 0) == insert_pos_from(ms, x@, p as nat),
            decreases sorted.len() - p,
        {
            p = p + 1;
        }
        let ghost xm = x@;
        let ghost keys0 = keys@;
        let ghost sorted0 = sorted@;
        sorted.insert(p, x);
        keys.insert(p, kx);
        proof {
            let prefix = all.take(k as int + 1);
            assert(prefix.drop_last() =~= all.take(k as int));
            assert(prefix.last() == xm);
            assert(models(sorted@) =~= ms.insert(p as int, xm));
            assert forall|j: int| 0 <= j < keys.len() implies #[trigger] keys@[j]@ == variable_debug(
                sorted@[j]@,
            ) by {
                if j < p {
                } else if j == p {
                } else {
                    assert(keys@[j] == keys0[j - 1]);
                    assert(sorted@[j] == sorted0[j - 1]);
                }
            }
        }
        k = k + 1;
    }
    assert(all.take(n as int) =~= all);

    // Removal of adjacent duplicates.
    let ghost ss = models(sorted@);
    let n2 = sorted.len();
    let mut result: Vec<ContextVariable> = Vec::new();
    let mut i: usize = 0;
    while sorted.len() > 0
        invariant
            i + sorted.len() == n2,
            n2 == ss.len(),
            models(sorted@) =~= ss.skip(i as int),
            models(result@) == dedup_adjacent(ss.take(i as int)),
        decreases sorted.len(),
    {
        let ghost sorted0 = sorted@;
        let x = sorted.remove(0);
        proof {
            assert(x == sorted0[0]);
            assert(models(sorted0)[0] == x@);
            assert(ss.skip(i as int)[0] == ss[i as int]);
            assert(sorted@ =~= sorted0.subrange(1, sorted0.len() as int));
            assert forall|j: int| 0 <= j < sorted@.len() implies #[trigger] models(sorted@)[j]
                == ss.skip(i as int + 1)[j] by {
                assert(sorted@[j] == sorted0[j + 1]);
                assert(models(sorted0)[j + 1] == ss.skip(i as int)[j + 1]);
            }
            assert(models(sorted@) =~= ss.skip(i as int + 1));
            let t = ss.take(i as int);
            assert(ss.take(i as int + 1) =~= t.push(x@));
            lemma_dedup_push(t, x@);
            if t.len() > 0 {
                lemma_dedup_last(t);
            }
        }
        let rl = result.len();
        if rl == 0 || !result[rl - 1].same_as(&x) {
            let ghost r0 = result@;
            let ghost xm = x@;
            result.push(x);
            assert(models(result@) =~= models(r0).push(xm));
        }
        i = i + 1;
    }
    assert(ss.take(i as int) =~= ss);
    *dest = result;
}


// ── Laws of merging ───────────────────────────────────────────────────────────

/// `s` is ordered by debug rendering.
pub open spec fn sorted_by_debug(s: Seq<VariableModel>) -> bool {
    forall|i: int, j: int| 0 <= i < j < s.len() ==> debug_le(s[i], s[j])
}

/// Distinct variables of `s` have distinct debug renderings.
pub open spec fn debug_injective_on(s: Seq<VariableModel>) -> bool {
    forall|a: VariableModel, b: VariableModel|
        #![trigger s.contains(a), s.contains(b)]
        s.contains(a) && s.contains(b) && variable_debug(a) == variable_debug(b) ==> a == b
}

proof fn lemma_debug_le_order(a: VariableModel, b: VariableModel, c: VariableModel)
    ensures
        debug_le(a, a),
        debug_le(a, b) || debug_le(b, a),
        debug_le(a, b) && debug_le(b, c) ==> debug_le(a, c),
        debug_le(a, b) && debug_le(b, a) ==> variable_debug(a) == variable_debug(b),
{
    lemma_lex_le_total_order(variable_debug(a), variable_debug(b), variable_debug(c));
}

proof fn lemma_insert_pos_props(s: Seq<VariableModel>, x: VariableModel, i: nat)
    requires
        i <= s.len(),
    ensures
        i <= insert_pos_from(s, x, i) <= s.len(),
        forall|j: int| i <= j < insert_pos_from(s, x, i) ==> debug_le(#[trigger] s[j], x),
        insert_pos_from(s, x, i) < s.len() ==> !debug_le(s[insert_pos_from(s, x, i) as int], x),
    decreases s.len() - i,
{
    if i < s.len() && debug_le(s[i as int], x) {
        lemma_insert_pos_props(s, x, i + 1);
    }
}

proof fn lemma_sort_props(s: Seq<VariableModel>)
    ensures
        sorted_by_debug(sort_by_debug(s)),
        sort_by_debug(s).len() == s.len(),
        forall|v: VariableModel| sort_by_debug(s).contains(v) <==> s.contains(v),
    decreases s.len(),
{
    if s.len() > 0 {
        let u = s.drop_last();
        let x = s.last();
        let t = sort_by_debug(u);
        lemma_sort_props(u);
        lemma_insert_pos_props(t, x, 0);
        let p = insert_pos_from(t, x, 0) as int;
        let r = t.insert(p, x);
        assert(r == sort_by_debug(s));
        assert forall|i: int, j: int| 0 <= i < j < r.len() implies debug_le(r[i], r[j]) by {
            if j < p {
                assert(r[i] == t[i] && r[j] == t[j]);
            } else if j == p {
                assert(r[i] == t[i] && r[j] == x);
            } else if i < p {
                assert(r[i] == t[i] && r[j] == t[j - 1]);
                if i < j - 1 {
                    lemma_debug_le_order(t[i], x, t[j - 1]);
                    lemma_debug_le_order(x, t[p], t[j - 1]);
                    lemma_debug_le_order(t[i], t[p], t[j - 1]);
                }
            } else if i == p {
                assert(r[i] == x && r[j] == t[j - 1]);
                lemma_debug_le_order(t[p], x, t[j - 1]);
                lemma_debug_le_order(x, t[p], t[j - 1]);
            } else {
                assert(r[i] == t[i - 1] && r[j] == t[j - 1]);
            }
        }
        assert forall|v: VariableModel| r.contains(v) <==> s.contains(v) by {
            if r.contains(v) {
                let k = choose|k: int| 0 <= k < r.len() && r[k] == v;
                if v != x {
                    assert(k != p);
                    let kt = if k < p { k } else { k - 1 };
                    assert(0 <= kt < t.len());
                    assert(r[k] == t[kt]);
                    assert(t[kt] == v);
                    assert(t.contains(v));
                    assert(u.contains(v));
                    let m = choose|m: int| 0 <= m < u.len() && u[m] == v;
                    assert(s[m] == v);
                } else {
                    assert(s[s.len() - 1] == v);
                }
            }
            if s.contains(v) {
                let m = choose|m: int| 0 <= m < s.len() && s[m] == v;
                if m == s.len() - 1 {
                    assert(r[p] == v);
                } else {
                    assert(u[m] == v);
                    assert(u.contains(v));
                    assert(t.contains(v));
                    let k = choose|k: int| 0 <= k < t.len() && t[k] == v;
                    if k < p {
                        assert(r[k] == t[k]);
                    } else {
                        assert(r[k + 1] == t[k]);
                    }
                }
            }
        }
    }
}

proof fn lemma_dedup_props(s: Seq<VariableModel>)
    ensures
        forall|v: VariableModel| dedup_adjacent(s).contains(v) <==> s.contains(v),
        sorted_by_debug(s) ==> sorted_by_debug(dedup_adjacent(s)),
        sorted_by_debug(s) && debug_injective_on(s) ==> dedup_adjacent(s).no_duplicates(),
    decreases s.len(),
{
    if s.len() > 1 {
        let u = s.drop_last();
        let x = s.last();
        let d = dedup_adjacent(u);
        lemma_dedup_props(u);
        assert forall|v: VariableModel| u.contains(v) implies s.contains(v) by {
            if u.contains(v) {
                let m = choose|m: int| 0 <= m < u.len() && u[m] == v;
                assert(s[m] == v);
            }
        }
        assert forall|v: VariableModel| s.contains(v) implies u.contains(v) || v == x by {
            if s.contains(v) {
                let m = choose|m: int| 0 <= m < s.len() && s[m] == v;
                if m < s.len() - 1 {
                    assert(u[m] == v);
                }
            }
        }
        if sorted_by_debug(s) {
            assert(sorted_by_debug(u));
            // Every element of `u` sorts no later than `x`.
            assert forall|v: VariableModel| u.contains(v) implies debug_le(v, x) by {
                let m = choose|m: int| 0 <= m < u.len() && u[m] == v;
                assert(s[m] == v);
            }
        }
        if s[s.len() - 1] == s[s.len() - 2] {
            assert(u.contains(x)) by {
                assert(u[u.len() - 1] == x);
            }
            if sorted_by_debug(s) && debug_injective_on(s) {
                assert(debug_injective_on(u));
            }
        } else {
            let r = d.push(x);
            assert(r == dedup_adjacent(s));
            assert forall|v: VariableModel| r.contains(v) <==> d.contains(v) || v == x by {
                if r.contains(v) {
                    let k = choose|k: int| 0 <= k < r.len() && r[k] == v;
                    if k < d.len() {
                        assert(d[k] == v);
                    }
                }
                if d.contains(v) {
                    let k = choose|k: int| 0 <= k < d.len() && d[k] == v;
                    assert(r[k] == v);
                }
                if v == x {
                    assert(r[d.len() as int] == v);
                }
            }
            if sorted_by_debug(s) {
                assert forall|i: int, j: int| 0 <= i < j < r.len() implies debug_le(r[i], r[j]) by {
                    if j < d.len() {
                        assert(r[i] == d[i] && r[j] == d[j]);
                    } else {
                        assert(r[i] == d[i]);
                        assert(d.contains(d[i]));
                    }
                }
            }
            if sorted_by_debug(s) && debug_injective_on(s) {
                assert(debug_injective_on(u));
                let y = s[s.len() - 2];
                assert(u.contains(y)) by {
                    assert(u[u.len() - 1] == y);
                }
                assert(!d.contains(x)) by {
                    if d.contains(x) {
                        assert(u.contains(x));
                        let m = choose|m: int| 0 <= m < u.len() && u[m] == x;
                        assert(s[m] == x);
                        assert(debug_le(x, y)) by {
                            if m < s.len() - 2 {
                                assert(debug_le(s[m], s[s.len() - 2]));
                            } else {
                                lemma_debug_le_order(x, x, x);
                            }
                        }
                        assert(debug_le(y, x));
                        lemma_debug_le_order(x, y, x);
                        assert(s.contains(x) && s.contains(y));
                    }
                }
                assert forall|i: int, j: int| 0 <= i < r.len() && 0 <= j < r.len() && i != j implies r[i]
                    != r[j] by {
                    if i < d.len() && j < d.len() {
                        assert(r[i] == d[i] && r[j] == d[j]);
                    } else if i < d.len() {
                        assert(r[i] == d[i]);
                        assert(d.contains(d[i]));
                    } else {
                        assert(r[j] == d[j]);
                        assert(d.contains(d[j]));
                    }
                }
            }
        }
    } else if s.len() == 1 {
        assert(dedup_adjacent(s) == s);
    }
}

/// The merged requirement list is ordered by debug rendering and holds
/// exactly the variables of either list; when distinct variables of the two
/// lists have distinct debug renderings, every variable occurs in it once.
pub proof fn lemma_merged_is_ordered_union(dest: Seq<VariableModel>, extra: Seq<VariableModel>)
    ensures
        sorted_by_debug(merged(dest, extra)),
        forall|v: VariableModel|
            #![trigger merged(dest, extra).contains(v)]
            merged(dest, extra).contains(v) <==> (dest.contains(v) || extra.contains(v)),
        debug_injective_on(dest + extra) ==> merged(dest, extra).no_duplicates(),
{
    let all = dest + extra;
    lemma_sort_props(all);
    let t = sort_by_debug(all);
    lemma_dedup_props(t);
    assert forall|v: VariableModel| all.contains(v) <==> (dest.contains(v) || extra.contains(v)) by {
        if all.contains(v) {
            let m = choose|m: int| 0 <= m < all.len() && all[m] == v;
            if m < dest.len() {
                assert(dest[m] == v);
            } else {
                assert(extra[m - dest.len()] == v);
            }
        }
        if dest.contains(v) {
            let m = choose|m: int| 0 <= m < dest.len() && dest[m] == v;
            assert(all[m] == v);
        }
        if extra.contains(v) {
            let m = choose|m: int| 0 <= m < extra.len() && extra[m] == v;
            assert(all[m + dest.len()] == v);
        }
    }
    if debug_injective_on(all) {
        assert forall|a: VariableModel, b: VariableModel|
            #![trigger t.contains(a), t.contains(b)]
            t.contains(a) && t.contains(b) && variable_debug(a) == variable_debug(b) implies a == b by {
            assert(all.contains(a) && all.contains(b));
        }
    }
}


// ── Composite model ───────────────────────────────────────────────────────────

/// The requirement lists `ls` merged in turn into an initially empty list.
pub open spec fn merged_all(ls: Seq<Seq<VariableModel>>) -> Seq<VariableModel>
    decreases ls.len(),
{
    if ls.len() == 0 {
        Seq::empty()
    } else {
        merged(merged_all(ls.drop_last()), ls.last())
    }
}

/// A list merged from per-operator lists is ordered by debug rendering.
pub proof fn lemma_merged_all_sorted(ls: Seq<Seq<VariableModel>>)
    ensures
        sorted_by_debug(merged_all(ls)),
    decreases ls.len(),
{
    if ls.len() > 0 {
        lemma_merged_is_ordered_union(merged_all(ls.drop_last()), ls.last());
    }
}

/// A variable is in the merge of several requirement lists exactly when one
/// of the lists holds it; the merge is ordered by debug rendering.
pub proof fn lemma_merged_all_union(ls: Seq<Seq<VariableModel>>)
    ensures
        forall|v: VariableModel|
            #[trigger] merged_all(ls).contains(v) <==> exists|i: int|
                0 <= i < ls.len() && #[trigger] ls[i].contains(v),
        sorted_by_debug(merged_all(ls)),
    decreases ls.len(),
{
    if ls.len() > 0 {
        let prev = ls.drop_last();
        lemma_merged_all_union(prev);
        lemma_merged_is_ordered_union(merged_all(prev), ls.last());
        assert forall|v: VariableModel|
            #[trigger] merged_all(ls).contains(v) <==> exists|i: int|
                0 <= i < ls.len() && #[trigger] ls[i].contains(v) by {
            if merged_all(prev).contains(v) {
                let i = choose|i: int| 0 <= i < prev.len() && #[trigger] prev[i].contains(v);
                assert(ls[i] == prev[i]);
            }
            if ls.last().contains(v) {
                assert(ls[ls.len() - 1].contains(v));
            }
            if exists|i: int| 0 <= i < ls.len() && #[trigger] ls[i].contains(v) {
                let i = choose|i: int| 0 <= i < ls.len() && #[trigger] ls[i].contains(v);
                if i < ls.len() - 1 {
                    assert(prev[i] == ls[i]);
                    assert(prev[i].contains(v));
                }
            }
        }
    } else {
        assert(merged_all(ls) =~= Seq::<VariableModel>::empty());
    }
}

/// The sum of several physical models, under a name of its own.
#[derive(Debug)]
pub struct CompositeModel<M> {
    operators: Vec<M>,
    name: String,
}

/// One of the three requirement lists a component declares.
pub enum RequirementKind {
    /// `required_variables`.
    Required,
    /// `optional_variables`.
    Optional,
    /// `depends_on`.
    DependsOn,
}

/// `l` is a list that `m` returns as its requirement list of kind `kind`.
pub open spec fn declared_list<M: RequiresContext>(
    kind: RequirementKind,
    m: &M,
    l: Vec<ContextVariable>,
) -> bool {
    match kind {
        RequirementKind::Required => call_ensures(M::required_variables, (m,), l),
        RequirementKind::Optional => call_ensures(M::optional_variables, (m,), l),
        RequirementKind::DependsOn => call_ensures(M::depends_on, (m,), l),
    }
}

/// `ls` holds, for each operator in order, the models of a list that the
/// operator returns as its requirement list of kind `kind`.
pub open spec fn declared_lists<M: RequiresContext>(
    kind: RequirementKind,
    ops: Seq<M>,
    ls: Seq<Seq<VariableModel>>,
) -> bool {
    &&& ls.len() == ops.len()
    &&& forall|i: int| 0 <= i < ops.len() ==> #[trigger] declared_as(kind, &ops[i], ls[i])
}

/// `list` is the models of a list that `m` returns as its requirement list
/// of kind `kind`.
pub open spec fn declared_as<M: RequiresContext>(
    kind: RequirementKind,
    m: &M,
    list: Seq<VariableModel>,
) -> bool {
    exists|l: Vec<ContextVariable>| declared_list(kind, m, l) && models(l@) == list
}

impl<M> CompositeModel<M> {
    /// The summed operators, in order.
    pub closed spec fn operator_seq(self) -> Seq<M> {
        self.operators@
    }

    /// The composite's name.
    pub closed spec fn name_spec(self) -> Seq<char> {
        self.name@
    }

    /// A composite of `operators` named `name`. Fails when `operators` is
    /// empty: a composite sums at least one model.
    pub fn new(operators: Vec<M>, name: &str) -> (r: Result<Self, OxiflowError>)
        ensures
            r is Ok <==> operators@.len() > 0,
            r matches Ok(c) ==> c.operator_seq() == operators@ && c.name_spec() == name@,
            r is Err ==> (r matches Err(OxiflowError::PreconditionFailed { context, message })
                && context@ == "CompositeModel::new"@ && message@
                == "at least one operator is required"@),
    {
        if operators.len() == 0 {
            return Err(
                OxiflowError::PreconditionFailed {
                    context: "CompositeModel::new",
                    message: String::from_str("at least one operator is required"),
                },
            );
        }
        Ok(CompositeModel { operators, name: String::from_str(name) })
    }

    /// Number of summed operators.
    pub fn len(&self) -> (r: usize)
        ensures
            r == self.operator_seq().len(),
    {
        self.operators.len()
    }

    /// `true` when the composite sums no operator.
    pub fn is_empty(&self) -> (r: bool)
        ensures
            r == (self.operator_seq().len() == 0),
    {
        self.operators.len() == 0
    }

    /// The summed operators, in order.
    pub fn operators(&self) -> (r: &Vec<M>)
        ensures
            r@ == self.operator_seq(),
    {
        &self.operators
    }
}

impl<M: RequiresContext> CompositeModel<M> {
    /// Merges one requirement list of every operator in turn, starting from
    /// an empty list. The result is the merge of what the operators
    /// declared, one list per operator, in operator order.
    fn gather(&self, kind: RequirementKind) -> (r: Vec<ContextVariable>)
        ensures
            exists|ls: Seq<Seq<VariableModel>>|
                {
                    &&& declared_lists(kind, self.operator_seq(), ls)
                    &&& models(r@) == merged_all(ls)
                    &&& forall|v: VariableModel|
                        #[trigger] models(r@).contains(v) <==> exists|i: int|
                            0 <= i < ls.len() && #[trigger] ls[i].contains(v)
                },
    {
        let mut vars: Vec<ContextVariable> = Vec::new();
        let ghost mut ls: Seq<Seq<VariableModel>> = Seq::empty();
        assert(models(vars@) =~= merged_all(ls));
        let mut i: usize = 0;
        while i < self.operators.len()
            invariant
                i <= self.operators@.len(),
                declared_lists(kind, self.operators@.take(i as int), ls),
                models(vars@) == merged_all(ls),
            decreases self.operators@.len() - i,
        {
            let op = &self.operators[i];
            let list = match kind {
                RequirementKind::Required => op.required_variables(),
                RequirementKind::Optional => op.optional_variables(),
                RequirementKind::DependsOn => op.depends_on(),
            };
            let ghost list_model = models(list@);
            proof {
                assert(declared_list(kind, op, list));
            }
            let ghost list_v = list;
            merge_variables(&mut vars, list);
            proof {
                let prev = ls;
                let ops = self.operators@.take(i as int);
                let ops2 = self.operators@.take(i + 1);
                ls = ls.push(list_model);
                assert(ls.drop_last() =~= prev);
                assert forall|j: int| 0 <= j < ops2.len() implies #[trigger] declared_as(
                    kind,
                    &ops2[j],
                    ls[j],
                ) by {
                    if j < i {
                        assert(ops2[j] == ops[j]);
                        assert(ls[j] == prev[j]);
                        assert(declared_as(kind, &ops[j], prev[j]));
                    } else {
                        assert(ops2[j] == *op);
                        assert(declared_list(kind, &ops2[j], list_v) && models(list_v@) == ls[j]);
                    }
                }
                assert(ls.len() == ops2.len());
                assert(declared_lists(kind, ops2, ls));
            }
            i = i + 1;
        }
        assert(self.operators@.take(self.operators@.len() as int) =~= self.operators@);
        proof {
            lemma_merged_all_union(ls);
        }
        vars
    }
}

impl<M: RequiresContext> RequiresContext for CompositeModel<M> {
    /// The union of the operators' required variables, ordered by debug
    /// rendering.
    fn required_variables(&self) -> (r: Vec<ContextVariable>)
        ensures
            exists|ls: Seq<Seq<VariableModel>>|
                {
                    &&& declared_lists(RequirementKind::Required, self.operator_seq(), ls)
                    &&& models(r@) == merged_all(ls)
                    &&& forall|v: VariableModel|
                        #[trigger] models(r@).contains(v) <==> exists|i: int|
                            0 <= i < ls.len() && #[trigger] ls[i].contains(v)
                },
    {
        self.gather(RequirementKind::Required)
    }

    /// The union of the operators' optional variables, ordered by debug
    /// rendering.
    fn optional_variables(&self) -> (r: Vec<ContextVariable>)
        ensures
            exists|ls: Seq<Seq<VariableModel>>|
                {
                    &&& declared_lists(RequirementKind::Optional, self.operator_seq(), ls)
                    &&& models(r@) == merged_all(ls)
                    &&& forall|v: VariableModel|
                        #[trigger] models(r@).contains(v) <==> exists|i: int|
                            0 <= i < ls.len() && #[trigger] ls[i].contains(v)
                },
    {
        self.gather(RequirementKind::Optional)
    }

    /// The union of the operators' ordering dependencies, ordered by debug
    /// rendering.
    fn depends_on(&self) -> (r: Vec<ContextVariable>)
        ensures
            exists|ls: Seq<Seq<VariableModel>>|
                {
                    &&& declared_lists(RequirementKind::DependsOn, self.operator_seq(), ls)
                    &&& models(r@) == merged_all(ls)
                    &&& forall|v: VariableModel|
                        #[trigger] models(r@).contains(v) <==> exists|i: int|
                            0 <= i < ls.len() && #[trigger] ls[i].contains(v)
                },
    {
        self.gather(RequirementKind::DependsOn)
    }
}

/// `name` is a name that `m` reports for itself.
pub open spec fn named_as<M: PhysicalModel>(m: &M, name: Seq<char>) -> bool {
    exists|s: &str| call_ensures(M::name, (m,), s) && s@ == name
}

/// The debug renderings of `names`, separated by `", "`.
pub open spec fn quoted_join(names: Seq<Seq<char>>) -> Seq<char>
    decreases names.len(),
{
    if names.len() == 0 {
        Seq::empty()
    } else if names.len() == 1 {
        str_debug_repr(names[0])
    } else {
        quoted_join(names.drop_last()) + ", "@ + str_debug_repr(names.last())
    }
}

/// The debug rendering of a composite named `name` whose operators are
/// named `names`:
/// `CompositeModel { name: "<name>", operator_names: ["<a>", "<b>"] }`.
pub open spec fn composite_debug(name: Seq<char>, names: Seq<Seq<char>>) -> Seq<char> {
    "CompositeModel { name: "@ + str_debug_repr(name) + ", operator_names: ["@ + quoted_join(names)
        + "] }"@
}

impl<M: PhysicalModel> CompositeModel<M> {
    /// The debug rendering of the composite: its name and the names of its
    /// operators, in order.
    pub fn debug_string(&self) -> (r: String)
        ensures
            exists|names: Seq<Seq<char>>|
                {
                    &&& names.len() == self.operator_seq().len()
                    &&& forall|i: int|
                        0 <= i < names.len() ==> #[trigger] named_as(
                            &self.operator_seq()[i],
                            names[i],
                        )
                    &&& r@ == composite_debug(self.name_spec(), names)
                },
    {
        proof {
            reveal_strlit("CompositeModel { name: ");
            reveal_strlit(", operator_names: [");
            reveal_strlit(", ");
            reveal_strlit("] }");
        }
        let mut out = String::from_str("CompositeModel { name: ");
        let quoted = debug_str(self.name.as_str());
        out.append(quoted.as_str());
        out.append(", operator_names: [");
        let ghost start = out@;
        let ghost mut names: Seq<Seq<char>> = Seq::empty();
        let mut i: usize = 0;
        while i < self.operators.len()
            invariant
                i <= self.operators@.len(),
                names.len() == i,
                forall|j: int|
                    0 <= j < names.len() ==> #[trigger] named_as(&self.operators@[j], names[j]),
                out@ == start + quoted_join(names),
            decreases self.operators@.len() - i,
        {
            let op = &self.operators[i];
            let name = op.name();
            proof {
                assert(named_as(op, name@));
            }
            if i > 0 {
                out.append(", ");
            }
            let q = debug_str(name);
            out.append(q.as_str());
            proof {
                let prev = names;
                names = names.push(name@);
                assert(names.drop_last() =~= prev);
                assert forall|j: int| 0 <= j < names.len() implies #[trigger] named_as(
                    &self.operators@[j],
                    names[j],
                ) by {
                    if j < prev.len() {
                        assert(names[j] == prev[j]);
                    }
                }
            }
            i = i + 1;
        }
        out.append("] }");
        out
    }
}

impl<M: PhysicalModel> PhysicalModel for CompositeModel<M> {
    fn name(&self) -> (r: &str)
        ensures
            r@ == self.name_spec(),
    {
        self.name.as_str()
    }

    fn description(&self) -> (r: Option<&str>)
        ensures
            r matches Some(d) && d@
                == "composite model — sums multiple PhysicalModel contributions (DD-037)"@,
    {
        Some("composite model — sums multiple PhysicalModel contributions (DD-037)")
    }
}

} // verus!
