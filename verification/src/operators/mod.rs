//! Index logic of the spatial discretization operators.
//!
//! A finite `n`-node mesh only delimits `n − 1` interior cells, and a wide
//! stencil lacks neighbours at the edges unless the domain wraps around.
//! [`FluxBoundary`] makes the closure an explicit choice, and this module
//! decides, for every cell, which nodes and faces its stencil reads:
//!
//! - periodic wrap: the face left of cell `i` is the face right of cell
//!   `(i + n − 1) mod n`, so every face is counted once with each sign;
//! - truncation: cells without a full stencil reuse the value of the
//!   nearest cell that has one;
//! - ghost cells: the field is padded with values supplied by the boundary
//!   conditions, so every real cell finds its neighbours in bounds.
//!
//! The flux formulas themselves are floating-point arithmetic and live in
//! the numerical layer around this library, which calls these functions for
//! every index it reads.

use vstd::prelude::*;

use crate::boundary::{boundary_type_name, BoundaryType};
use crate::context::error::OxiflowError;
use crate::text::{decimal, push_decimal};

pub mod fd;
pub mod limiters;

verus! {

/// Boundary treatment of the cell/face-based flux operators.
#[non_exhaustive]
#[derive(Debug, Clone)]
pub enum FluxBoundary<B> {
    /// The domain wraps around: the last node's right neighbour is the first.
    Periodic,
    /// One-sided fallback: the boundary cells reuse the value of the nearest
    /// cell that has a full stencil.
    Truncation,
    /// The missing neighbours come from the left and right boundary
    /// conditions' ghost values.
    GhostCell(B, B),
}

// ── Periodic indexing ─────────────────────────────────────────────────────────

/// Periodic index `i + k` wrapped into `[0, n)`, `k` possibly negative.
pub fn wrap(i: usize, k: isize, n: usize) -> (r: usize)
    requires
        0 < n <= isize::MAX,
        i <= isize::MAX,
        isize::MIN <= i + k <= isize::MAX,
    ensures
        r < n,
        r as int == (i + k) % (n as int),
{
    let s: i128 = i as i128 + k as i128;
    let m: i128 = n as i128;
    if s >= 0 {
        let r: u128 = (s as u128) % (m as u128);
        r as usize
    } else {
        let a: u128 = (0 - s) as u128;
        let q: u128 = a % (m as u128);
        proof {
            let d = (a as int) / (m as int);
            vstd::arithmetic::div_mod::lemma_fundamental_div_mod(a as int, m as int);
            assert(a as int == (m as int) * d + (q as int));
            if q == 0 {
                assert(s as int == (0 - d) * (m as int)) by (nonlinear_arith)
                    requires
                        s as int == 0 - (a as int),
                        a as int == (m as int) * d,
                ;
                vstd::arithmetic::div_mod::lemma_fundamental_div_mod_converse(
                    s as int,
                    m as int,
                    0 - d,
                    0,
                );
            } else {
                assert(s as int == (0 - d - 1) * (m as int) + ((m as int) - (q as int)))
                    by (nonlinear_arith)
                    requires
                        s as int == 0 - (a as int),
                        a as int == (m as int) * d + (q as int),
                ;
                vstd::arithmetic::div_mod::lemma_fundamental_div_mod_converse(
                    s as int,
                    m as int,
                    0 - d - 1,
                    (m as int) - (q as int),
                );
            }
        }
        if q == 0 {
            0
        } else {
            ((m as u128) - q) as usize
        }
    }
}

/// The cells on either side of cell `i` of a periodic mesh of `n` cells:
/// `(previous, next)`, i.e. `((i + n − 1) mod n, (i + 1) mod n)`.
pub fn periodic_neighbors(i: usize, n: usize) -> (r: (usize, usize))
    requires
        i < n <= isize::MAX,
    ensures
        r.0 as int == (i + n - 1) % (n as int),
        r.1 as int == (i + 1) % (n as int),
        r.0 < n,
        r.1 < n,
{
    let prev = if i == 0 {
        n - 1
    } else {
        i - 1
    };
    let next = if i + 1 == n {
        0
    } else {
        i + 1
    };
    proof {
        if i == 0 {
            vstd::arithmetic::div_mod::lemma_fundamental_div_mod_converse(
                (i + n - 1) as int,
                n as int,
                0,
                (n - 1) as int,
            );
        } else {
            vstd::arithmetic::div_mod::lemma_fundamental_div_mod_converse(
                (i + n - 1) as int,
                n as int,
                1,
                (i - 1) as int,
            );
        }
        if i + 1 == n {
            vstd::arithmetic::div_mod::lemma_fundamental_div_mod_converse(
                (i + 1) as int,
                n as int,
                1,
                0,
            );
        } else {
            vstd::arithmetic::div_mod::lemma_fundamental_div_mod_converse(
                (i + 1) as int,
                n as int,
                0,
                (i + 1) as int,
            );
        }
    }
    (prev, next)
}

/// The periodic left face of cell `i`: the face between its previous cell
/// and itself, indexed like the cell it is the right face of.
pub open spec fn left_face(i: int, n: int) -> int {
    (i + n - 1) % n
}

/// Every face of a periodic mesh is the left face of exactly one cell (the
/// cell after it) and the right face of exactly one cell (its own index), so
/// in a sum of per-cell flux differences each face flux appears once with
/// each sign and the sum telescopes to zero.
pub proof fn lemma_periodic_faces_pair_up(n: int, face: int, a: int, b: int)
    requires
        0 < n,
        0 <= face < n,
        0 <= a < n,
        0 <= b < n,
    ensures
        left_face((face + 1) % n, n) == face,
        left_face(a, n) == face && left_face(b, n) == face ==> a == b,
{
    let c = (face + 1) % n;
    if face + 1 < n {
        vstd::arithmetic::div_mod::lemma_fundamental_div_mod_converse(face + 1, n, 0, face + 1);
        vstd::arithmetic::div_mod::lemma_fundamental_div_mod_converse(c + n - 1, n, 1, face);
    } else {
        vstd::arithmetic::div_mod::lemma_fundamental_div_mod_converse(face + 1, n, 1, 0);
        vstd::arithmetic::div_mod::lemma_fundamental_div_mod_converse(c + n - 1, n, 0, face);
    }
    if left_face(a, n) == face && left_face(b, n) == face {
        if a == 0 {
            vstd::arithmetic::div_mod::lemma_fundamental_div_mod_converse(a + n - 1, n, 0, n - 1);
        } else {
            vstd::arithmetic::div_mod::lemma_fundamental_div_mod_converse(a + n - 1, n, 1, a - 1);
        }
        if b == 0 {
            vstd::arithmetic::div_mod::lemma_fundamental_div_mod_converse(b + n - 1, n, 0, n - 1);
        } else {
            vstd::arithmetic::div_mod::lemma_fundamental_div_mod_converse(b + n - 1, n, 1, b - 1);
        }
    }
}

/// Wrapping forward by `k` and back by `k` returns to the starting index.
pub proof fn lemma_wrap_inverse(i: int, k: int, n: int)
    requires
        0 < n,
        0 <= i < n,
    ensures
        (((i + k) % n) - k) % n == i,
{
    let r = (i + k) % n;
    vstd::arithmetic::div_mod::lemma_fundamental_div_mod(i + k, n);
    let q = (i + k) / n;
    assert(r - k == (0 - q) * n + i) by (nonlinear_arith)
        requires
            i + k == n * q + r,
    ;
    vstd::arithmetic::div_mod::lemma_fundamental_div_mod_converse(r - k, n, 0 - q, i);
}

// ── Node-count requirements ───────────────────────────────────────────────────

/// `<subject> requires at least <min> <unit>, got <n>`.
pub open spec fn shortage_message(subject: Seq<char>, min: nat, unit: Seq<char>, n: nat) -> Seq<
    char,
> {
    subject + " requires at least "@ + decimal(min) + " "@ + unit + ", got "@ + decimal(n)
}

/// Checks that a stencil has the `min` nodes (or cells, as `unit` says) it
/// needs: fails with an invalid-domain error naming `subject` when `n < min`.
pub fn require_at_least(subject: &str, min: usize, unit: &str, n: usize) -> (r: Result<
    (),
    OxiflowError,
>)
    ensures
        r is Ok <==> n >= min,
        r is Err ==> (r matches Err(OxiflowError::InvalidDomain(message)) && message@
            == shortage_message(subject@, min as nat, unit@, n as nat)),
{
    if n >= min {
        return Ok(());
    }
    proof {
        reveal_strlit(" requires at least ");
        reveal_strlit(" ");
        reveal_strlit(", got ");
    }
    let mut message = String::from_str(subject);
    message.append(" requires at least ");
    push_decimal(&mut message, min);
    message.append(" ");
    message.append(unit);
    message.append(", got ");
    push_decimal(&mut message, n);
    Err(OxiflowError::InvalidDomain(message))
}

// ── Truncation ────────────────────────────────────────────────────────────────

/// The message of a mesh too small for a truncated wide stencil.
pub open spec fn truncation_shortage_message(
    context: Seq<char>,
    min: nat,
    margin_left: nat,
    margin_right: nat,
    n: nat,
) -> Seq<char> {
    context + " with FluxBoundary::Truncation requires at least "@ + decimal(min)
        + " nodes for this upwind direction (margin_left="@ + decimal(margin_left)
        + ", margin_right="@ + decimal(margin_right) + "), got "@ + decimal(n)
}

/// The cells of an `n`-node mesh whose two faces both lie inside the domain
/// when the face flux reads `margin_left` nodes to the left and
/// `margin_right` nodes to the right of its left node: the inclusive range
/// `[margin_left + 1, n − 1 − margin_right]`. Fails with an invalid-domain
/// error when that range would be empty, i.e. when
/// `n < margin_left + margin_right + 2`.
pub fn truncation_range(n: usize, margin_left: usize, margin_right: usize, context: &str) -> (r:
    Result<(usize, usize), OxiflowError>)
    requires
        margin_left + margin_right + 2 <= usize::MAX,
    ensures
        r is Ok <==> n >= margin_left + margin_right + 2,
        r matches Ok(range) ==> range.0 == margin_left + 1 && range.1 == n - 1 - margin_right,
        r is Err ==> (r matches Err(OxiflowError::InvalidDomain(message)) && message@
            == truncation_shortage_message(
            context@,
            (margin_left + margin_right + 2) as nat,
            margin_left as nat,
            margin_right as nat,
            n as nat,
        )),
{
    let min = margin_left + margin_right + 2;
    if n >= min {
        return Ok((margin_left + 1, n - 1 - margin_right));
    }
    proof {
        reveal_strlit(" with FluxBoundary::Truncation requires at least ");
        reveal_strlit(" nodes for this upwind direction (margin_left=");
        reveal_strlit(", margin_right=");
        reveal_strlit("), got ");
    }
    let mut message = String::from_str(context);
    message.append(" with FluxBoundary::Truncation requires at least ");
    push_decimal(&mut message, min);
    message.append(" nodes for this upwind direction (margin_left=");
    push_decimal(&mut message, margin_left);
    message.append(", margin_right=");
    push_decimal(&mut message, margin_right);
    message.append("), got ");
    push_decimal(&mut message, n);
    Err(OxiflowError::InvalidDomain(message))
}

/// The cell whose computed value cell `i` takes under truncation: itself
/// when it lies in the safe range `[start, end]`, the nearest end of that
/// range otherwise.
pub fn truncated_source(i: usize, start: usize, end: usize) -> (r: usize)
    requires
        start <= end,
    ensures
        start <= r <= end,
        start <= i <= end ==> r == i,
        i < start ==> r == start,
        i > end ==> r == end,
{
    if i < start {
        start
    } else if i > end {
        end
    } else {
        i
    }
}

/// Gives every cell outside the safe range `[start, end]` the value already
/// computed for the nearest safe cell; the safe cells keep their values.
pub fn fill_truncated_cells<T: Copy>(values: &mut Vec<T>, start: usize, end: usize)
    requires
        start <= end < old(values)@.len(),
    ensures
        final(values)@.len() == old(values)@.len(),
        forall|i: int|
            0 <= i < old(values)@.len() ==> #[trigger] final(values)@[i] == old(values)@[(if i
                < start {
                start as int
            } else if i > end {
                end as int
            } else {
                i
            })],
{
    let ghost before = values@;
    let first = values[start];
    let last = values[end];
    let mut i: usize = 0;
    while i < start
        invariant
            i <= start <= end < values@.len(),
            values@.len() == before.len(),
            first == before[start as int],
            last == before[end as int],
            forall|j: int| 0 <= j < i ==> #[trigger] values@[j] == before[start as int],
            forall|j: int| i <= j < values@.len() ==> #[trigger] values@[j] == before[j],
        decreases start - i,
    {
        values.set(i, first);
        i = i + 1;
    }
    let n = values.len();
    let mut k: usize = end + 1;
    while k < n
        invariant
            start <= end < k <= values@.len(),
            n == values@.len(),
            values@.len() == before.len(),
            last == before[end as int],
            forall|j: int| 0 <= j < start ==> #[trigger] values@[j] == before[start as int],
            forall|j: int| start <= j <= end ==> #[trigger] values@[j] == before[j],
            forall|j: int| end < j < k ==> #[trigger] values@[j] == before[end as int],
            forall|j: int| k <= j < values@.len() ==> #[trigger] values@[j] == before[j],
        decreases n - k,
    {
        values.set(k, last);
        k = k + 1;
    }
}

/// Margins `(left, right)` of the three-point upwind reconstruction used by
/// the limited and adaptive fluxes: with the flow towards increasing `x`
/// the face flux reads one node on each side, against it two nodes to the
/// right. Ghost-cell padding needs one layer more on the left.
pub fn upwind_stencil_margins(flow_towards_right: bool, ghost_cells: bool) -> (r: (usize, usize))
    ensures
        !ghost_cells && flow_towards_right ==> r == (1usize, 1usize),
        !ghost_cells && !flow_towards_right ==> r == (0usize, 2usize),
        ghost_cells && flow_towards_right ==> r == (2usize, 1usize),
        ghost_cells && !flow_towards_right ==> r == (1usize, 2usize),
{
    if ghost_cells {
        if flow_towards_right {
            (2, 1)
        } else {
            (1, 2)
        }
    } else {
        if flow_towards_right {
            (1, 1)
        } else {
            (0, 2)
        }
    }
}

// ── Ghost cells ───────────────────────────────────────────────────────────────

/// The interior node paired with the ghost layer at `depth` (method of
/// images): `depth − 1` from the left edge, `n − depth` from the right edge.
pub fn ghost_interior_index(left_edge: bool, depth: usize, n: usize) -> (r: usize)
    requires
        1 <= depth <= n,
    ensures
        left_edge ==> r == depth - 1,
        !left_edge ==> r == n - depth,
        r < n,
{
    if left_edge {
        depth - 1
    } else {
        n - depth
    }
}

/// The message of a boundary condition that supplies no ghost value.
pub open spec fn missing_ghost_message(left_edge: bool, boundary: BoundaryType, depth: nat) -> Seq<
    char,
> {
    (if left_edge {
        "left"@
    } else {
        "right"@
    }) + " boundary condition ("@ + boundary_type_name(boundary)
        + ") does not supply a ghost value at depth "@ + decimal(depth)
        + " — FluxBoundary::GhostCell requires an exact value, not a generic fallback"@
}

/// The failure of a ghost-cell operator whose boundary condition on the
/// given edge supplies no ghost value at `depth`.
pub fn missing_ghost_error(
    context: &'static str,
    left_edge: bool,
    boundary: &BoundaryType,
    depth: usize,
) -> (r: OxiflowError)
    ensures
        r matches OxiflowError::PreconditionFailed { context: c, message } && c == context
            && message@ == missing_ghost_message(left_edge, *boundary, depth as nat),
{
    proof {
        reveal_strlit("left");
        reveal_strlit("right");
        reveal_strlit(" boundary condition (");
        reveal_strlit(") does not supply a ghost value at depth ");
        reveal_strlit(
            " — FluxBoundary::GhostCell requires an exact value, not a generic fallback",
        );
    }
    let mut message = if left_edge {
        String::from_str("left")
    } else {
        String::from_str("right")
    };
    message.append(" boundary condition (");
    message.append(boundary.name());
    message.append(") does not supply a ghost value at depth ");
    push_decimal(&mut message, depth);
    message.append(" — FluxBoundary::GhostCell requires an exact value, not a generic fallback");
    OxiflowError::PreconditionFailed { context, message }
}

/// `true` when `r` is the precondition failure of `context` with `message`.
pub open spec fn failed_with<T>(r: Result<T, OxiflowError>, context: &'static str, message: Seq<
    char,
>) -> bool {
    r matches Err(OxiflowError::PreconditionFailed { context: c, message: m }) && c == context
        && m@ == message
}

/// The message of a two-point operator whose boundary condition supplies
/// no ghost value next to the edge.
pub open spec fn missing_edge_ghost_message(left_edge: bool, boundary: BoundaryType) -> Seq<char> {
    (if left_edge {
        "left"@
    } else {
        "right"@
    }) + " boundary condition ("@ + boundary_type_name(boundary)
        + ") does not supply a ghost value at depth 1 — FluxBoundary::GhostCell requires an exact ghost value, not a generic fallback"@
}

/// The failure of a two-point ghost-cell operator whose boundary condition
/// on the given edge supplies no ghost value next to it.
pub fn missing_edge_ghost_error(context: &'static str, left_edge: bool, boundary: &BoundaryType) -> (r:
    OxiflowError)
    ensures
        failed_with(Err::<(), OxiflowError>(r), context, missing_edge_ghost_message(left_edge, *boundary)),
{
    proof {
        reveal_strlit("left");
        reveal_strlit("right");
        reveal_strlit(" boundary condition (");
        reveal_strlit(
            ") does not supply a ghost value at depth 1 — FluxBoundary::GhostCell requires an exact ghost value, not a generic fallback",
        );
    }
    let mut message = if left_edge {
        String::from_str("left")
    } else {
        String::from_str("right")
    };
    message.append(" boundary condition (");
    message.append(boundary.name());
    message.append(
        ") does not supply a ghost value at depth 1 — FluxBoundary::GhostCell requires an exact ghost value, not a generic fallback",
    );
    OxiflowError::PreconditionFailed { context, message }
}

/// The values of a sequence of supplied ghost values.
pub open spec fn supplied<T>(s: Seq<Option<T>>) -> Seq<T> {
    s.map_values(|o: Option<T>| o->0)
}

/// `true` when every ghost value is supplied.
pub open spec fn all_supplied<T>(s: Seq<Option<T>>) -> bool {
    forall|d: int| 0 <= d < s.len() ==> #[trigger] s[d] is Some
}

/// The padded field: the left ghosts deepest first, then the field, then
/// the right ghosts nearest first.
pub open spec fn padded<T>(u: Seq<T>, left: Seq<Option<T>>, right: Seq<Option<T>>) -> Seq<T> {
    supplied(left).reverse() + u + supplied(right)
}

/// Builds the ghost-padded copy of `u`: `left[d − 1]` and `right[d − 1]` are
/// the ghost values that the left and right boundary conditions supply at
/// depth `d` (`None` where they supply none). The left ghosts are checked
/// deepest first, then the right ones nearest first; the first missing one
/// fails the whole padding with the error of [`missing_ghost_error`].
pub fn ghost_padded_field<T: Copy>(
    u: &Vec<T>,
    left: &Vec<Option<T>>,
    right: &Vec<Option<T>>,
    boundaries: (&BoundaryType, &BoundaryType),
    context: &'static str,
) -> (r: Result<Vec<T>, OxiflowError>)
    ensures
        r is Ok <==> all_supplied(left@) && all_supplied(right@),
        r matches Ok(v) ==> v@ == padded(u@, left@, right@),
        r matches Ok(v) ==> v@.len() == left@.len() + u@.len() + right@.len(),
        r matches Ok(v) ==> forall|i: int|
            0 <= i < u@.len() ==> v@[left@.len() + i] == #[trigger] u@[i],
        r matches Ok(v) ==> forall|d: int|
            0 <= d < left@.len() ==> #[trigger] left@[d] == Some(v@[left@.len() - 1 - d]),
        r matches Ok(v) ==> forall|d: int|
            0 <= d < right@.len() ==> #[trigger] right@[d] == Some(
                v@[left@.len() + u@.len() + d],
            ),
        !all_supplied(left@) ==> exists|d: int|
            0 <= d < left@.len() && left@[d] is None && (forall|e: int|
                d < e < left@.len() ==> #[trigger] left@[e] is Some) && failed_with(
                r,
                context,
                missing_ghost_message(true, *boundaries.0, (d + 1) as nat),
            ),
        all_supplied(left@) && !all_supplied(right@) ==> exists|d: int|
            0 <= d < right@.len() && right@[d] is None && (forall|e: int|
                0 <= e < d ==> #[trigger] right@[e] is Some) && failed_with(
                r,
                context,
                missing_ghost_message(false, *boundaries.1, (d + 1) as nat),
            ),
{
    let mut extended: Vec<T> = Vec::new();
    let mut depth: usize = left.len();
    while depth > 0
        invariant
            depth <= left@.len(),
            forall|e: int| depth <= e < left@.len() ==> #[trigger] left@[e] is Some,
            extended@ == supplied(left@).subrange(depth as int, left@.len() as int).reverse(),
        decreases depth,
    {
        match left[depth - 1] {
            Some(g) => {
                let ghost before = extended@;
                extended.push(g);
                proof {
                    let full = supplied(left@);
                    assert(extended@ =~= full.subrange(depth - 1, left@.len() as int).reverse());
                }
            },
            None => {
                let err = missing_ghost_error(context, true, boundaries.0, depth);
                let r: Result<Vec<T>, OxiflowError> = Err(err);
                proof {
                    let d = depth - 1;
                    assert(left@[d] is None);
                    assert(failed_with(
                        r,
                        context,
                        missing_ghost_message(true, *boundaries.0, (d + 1) as nat),
                    ));
                    assert(!all_supplied(left@));
                }
                return r;
            },
        }
        depth = depth - 1;
    }
    assert(extended@ =~= supplied(left@).reverse());
    assert(all_supplied(left@));
    let ghost after_left = extended@;
    let mut i: usize = 0;
    while i < u.len()
        invariant
            i <= u@.len(),
            all_supplied(left@),
            extended@ == after_left + u@.subrange(0, i as int),
        decreases u@.len() - i,
    {
        extended.push(u[i]);
        proof {
            assert(extended@ =~= after_left + u@.subrange(0, i + 1));
        }
        i = i + 1;
    }
    assert(u@.subrange(0, u@.len() as int) =~= u@);
    let ghost after_u = extended@;
    let mut d: usize = 0;
    while d < right.len()
        invariant
            d <= right@.len(),
            all_supplied(left@),
            extended@ == after_u + supplied(right@).subrange(0, d as int),
            forall|e: int| 0 <= e < d ==> #[trigger] right@[e] is Some,
        decreases right@.len() - d,
    {
        match right[d] {
            Some(g) => {
                extended.push(g);
                proof {
                    assert(extended@ =~= after_u + supplied(right@).subrange(0, d + 1));
                }
            },
            None => {
                let err = missing_ghost_error(context, false, boundaries.1, d + 1);
                let r: Result<Vec<T>, OxiflowError> = Err(err);
                proof {
                    let dd = d as int;
                    assert(right@[dd] is None);
                    assert(failed_with(
                        r,
                        context,
                        missing_ghost_message(false, *boundaries.1, (dd + 1) as nat),
                    ));
                    assert(!all_supplied(right@));
                }
                return r;
            },
        }
        d = d + 1;
    }
    assert(supplied(right@).subrange(0, right@.len() as int) =~= supplied(right@));
    proof {
        lemma_padded_layout(u@, left@, right@);
    }
    Ok(extended)
}

/// Padding keeps the field in the middle: real cell `i` sits at index
/// `i + margin_left` of the padded field, between the left and right ghost
/// layers, so a stencil reaching `margin_left` cells left and `margin_right`
/// cells right of any real cell stays in bounds.
pub proof fn lemma_padded_keeps_field<T>(u: Seq<T>, left: Seq<Option<T>>, right: Seq<Option<T>>, i: int)
    requires
        0 <= i < u.len(),
    ensures
        padded(u, left, right).len() == left.len() + u.len() + right.len(),
        padded(u, left, right)[i + left.len()] == u[i],
        i + left.len() + right.len() < padded(u, left, right).len(),
{
}

/// With every ghost supplied, the padded field holds the depth-`d + 1` left
/// ghost `d` places left of the first real cell (deepest furthest out), the
/// field itself in order, and the depth-`d + 1` right ghost `d` places right
/// of the last real cell (nearest first).
pub proof fn lemma_padded_layout<T>(u: Seq<T>, left: Seq<Option<T>>, right: Seq<Option<T>>)
    requires
        all_supplied(left),
        all_supplied(right),
    ensures
        padded(u, left, right).len() == left.len() + u.len() + right.len(),
        forall|i: int| 0 <= i < u.len() ==> padded(u, left, right)[left.len() + i] == #[trigger] u[i],
        forall|d: int|
            0 <= d < left.len() ==> #[trigger] left[d] == Some(
                padded(u, left, right)[left.len() - 1 - d],
            ),
        forall|d: int|
            0 <= d < right.len() ==> #[trigger] right[d] == Some(
                padded(u, left, right)[left.len() + u.len() + d],
            ),
{
    let p = padded(u, left, right);
    assert forall|d: int| 0 <= d < left.len() implies #[trigger] left[d] == Some(
        p[left.len() - 1 - d],
    ) by {
        assert(left[d] is Some);
        assert(supplied(left).reverse()[left.len() - 1 - d] == supplied(left)[d]);
    }
    assert forall|d: int| 0 <= d < right.len() implies #[trigger] right[d] == Some(
        p[left.len() + u.len() + d],
    ) by {
        assert(right[d] is Some);
    }
}

} // verus!
