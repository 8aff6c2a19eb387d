//! Node selection of the finite-difference stencils.
//!
//! For every node `i` of an `n`-node mesh these functions give the nodes the
//! stencil differences. At the boundary nodes, where a stencil would reach
//! outside the mesh, the nearest available one-sided formula is reused
//! rather than inventing an exterior value:
//!
//! | Stencil | Interior | Boundary |
//! |---|---|---|
//! | upwind forward | `u[i+1] − u[i]` | last node: the formula of node `n−2` |
//! | upwind backward | `u[i] − u[i−1]` | first node: the formula of node `1` |
//! | centered gradient | `(u[i+1] − u[i−1]) / 2` | one-sided at both ends |
//! | centered Laplacian | `u[i−1] − 2u[i] + u[i+1]` | the formula of the nearest interior node |

use vstd::prelude::*;

verus! {

/// Direction of an upwind difference.
#[derive(Debug, Clone, Copy, PartialEq, Eq, Structural)]
pub enum Direction {
    /// `(u[i+1] − u[i]) / dx`, for flow towards decreasing `x`.
    Forward,
    /// `(u[i] − u[i−1]) / dx`, for flow towards increasing `x`.
    Backward,
}

/// The nodes `(hi, lo)` whose difference `(u[hi] − u[lo]) / dx` is the
/// upwind gradient at node `i`.
pub open spec fn upwind_nodes_spec(i: int, n: int, direction: Direction) -> (int, int) {
    match direction {
        Direction::Forward => if i < n - 1 {
            (i + 1, i)
        } else {
            (n - 1, n - 2)
        },
        Direction::Backward => if i > 0 {
            (i, i - 1)
        } else {
            (1, 0)
        },
    }
}

/// The nodes `(hi, lo)` of the upwind difference at node `i` of an
/// `n`-node mesh (`n ≥ 2`).
pub fn upwind_nodes(i: usize, n: usize, direction: Direction) -> (r: (usize, usize))
    requires
        2 <= n,
        i < n,
    ensures
        (r.0 as int, r.1 as int) == upwind_nodes_spec(i as int, n as int, direction),
        r.0 < n,
        r.1 < n,
        r.0 == r.1 + 1,
        direction == Direction::Forward && i < n - 1 ==> r.0 == i + 1 && r.1 == i,
        direction == Direction::Forward && i == n - 1 ==> r.0 == n - 1 && r.1 == n - 2,
        direction == Direction::Backward && i > 0 ==> r.0 == i && r.1 == i - 1,
        direction == Direction::Backward && i == 0 ==> r.0 == 1 && r.1 == 0,
{
    match direction {
        Direction::Forward => if i < n - 1 {
            (i + 1, i)
        } else {
            (n - 1, n - 2)
        },
        Direction::Backward => if i > 0 {
            (i, i - 1)
        } else {
            (1, 0)
        },
    }
}

/// The stencil of the centered gradient at node `i`: nodes `(hi, lo)` and
/// whether the difference spans two cells (divided by `2·dx`) or one.
pub open spec fn centered_nodes_spec(i: int, n: int) -> (int, int, bool) {
    if i == 0 {
        (1, 0, false)
    } else if i == n - 1 {
        (n - 1, n - 2, false)
    } else {
        (i + 1, i - 1, true)
    }
}

/// The stencil `(hi, lo, spans_two_cells)` of the centered gradient at node
/// `i` of an `n`-node mesh (`n ≥ 2`): central in the interior, one-sided at
/// both ends.
pub fn centered_nodes(i: usize, n: usize) -> (r: (usize, usize, bool))
    requires
        2 <= n,
        i < n,
    ensures
        (r.0 as int, r.1 as int, r.2) == centered_nodes_spec(i as int, n as int),
        r.0 < n,
        r.1 < n,
        r.0 == r.1 + (if r.2 {
            2int
        } else {
            1int
        }),
        0 < i < n - 1 ==> r.0 == i + 1 && r.1 == i - 1 && r.2,
        i == 0 ==> r.0 == 1 && r.1 == 0 && !r.2,
        i == n - 1 ==> r.0 == n - 1 && r.1 == n - 2 && !r.2,
{
    if i == 0 {
        (1, 0, false)
    } else if i == n - 1 {
        (n - 1, n - 2, false)
    } else {
        (i + 1, i - 1, true)
    }
}

/// The center of the three-point Laplacian stencil used at node `i` of an
/// `n`-node mesh (`n ≥ 3`): the node itself in the interior, the nearest
/// interior node at the two ends.
pub fn laplacian_center(i: usize, n: usize) -> (r: usize)
    requires
        3 <= n,
        i < n,
    ensures
        1 <= r <= n - 2,
        0 < i < n - 1 ==> r == i,
        i == 0 ==> r == 1,
        i == n - 1 ==> r == n - 2,
{
    if i == 0 {
        1
    } else if i == n - 1 {
        n - 2
    } else {
        i
    }
}

/// At the boundary nodes the stencils reuse the formula of the nearest node
/// that has one: the forward difference at the last node is the one at node
/// `n − 2` (the backward difference there), the backward difference at the
/// first node is the one at node `1` (the forward difference there), and the
/// centered gradient's ends are the one-sided differences.
pub proof fn lemma_boundary_stencils_reuse_neighbors(n: int)
    requires
        2 <= n,
    ensures
        upwind_nodes_spec(n - 1, n, Direction::Forward) == upwind_nodes_spec(
            n - 2,
            n,
            Direction::Forward,
        ),
        upwind_nodes_spec(0, n, Direction::Backward) == upwind_nodes_spec(
            1,
            n,
            Direction::Backward,
        ),
        upwind_nodes_spec(n - 1, n, Direction::Forward) == upwind_nodes_spec(
            n - 1,
            n,
            Direction::Backward,
        ),
        upwind_nodes_spec(0, n, Direction::Backward) == upwind_nodes_spec(
            0,
            n,
            Direction::Forward,
        ),
        (centered_nodes_spec(0, n).0, centered_nodes_spec(0, n).1) == upwind_nodes_spec(
            0,
            n,
            Direction::Forward,
        ),
        (centered_nodes_spec(n - 1, n).0, centered_nodes_spec(n - 1, n).1) == upwind_nodes_spec(
            n - 1,
            n,
            Direction::Backward,
        ),
{
}

/// The upwind difference at node `i` is taken between `i` and its
/// downstream-side neighbour wherever that neighbour exists: forward
/// differences use `(i + 1, i)` on every node but the last, backward
/// differences `(i, i − 1)` on every node but the first; only the missing
/// end falls back to the neighbouring pair.
pub proof fn lemma_upwind_nodes(i: int, n: int)
    requires
        2 <= n,
        0 <= i < n,
    ensures
        i < n - 1 ==> upwind_nodes_spec(i, n, Direction::Forward) == (i + 1, i),
        i == n - 1 ==> upwind_nodes_spec(i, n, Direction::Forward) == (n - 1, n - 2),
        i > 0 ==> upwind_nodes_spec(i, n, Direction::Backward) == (i, i - 1),
        i == 0 ==> upwind_nodes_spec(i, n, Direction::Backward) == (1int, 0int),
{
}

/// The centered gradient spans the two neighbours `(i + 1, i − 1)` over two
/// cells at every interior node, and is one-sided over a single cell at the
/// two ends.
pub proof fn lemma_centered_nodes(i: int, n: int)
    requires
        2 <= n,
        0 <= i < n,
    ensures
        0 < i < n - 1 ==> centered_nodes_spec(i, n) == (i + 1, i - 1, true),
        i == 0 ==> centered_nodes_spec(i, n) == (1int, 0int, false),
        i == n - 1 ==> centered_nodes_spec(i, n) == (n - 1, n - 2, false),
{
}

} // verus!
