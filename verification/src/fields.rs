//! Combinatorics of multiphysics field visualisation: the marching-squares
//! rule that turns a grid cell's corner classification into contour
//! segments, the row-major corners of a cell, the averaging window of
//! scalar smoothing, and the interface pairs of a fluid-structure snapshot.
//!
//! Where a contour crosses an edge, and the colours and lengths of what is
//! drawn, are computed with reals and stand outside; which edges a cell's
//! contour joins is decided here.

use vstd::prelude::*;

verus! {

// ─────────────────────────────────────────────────────────────────────────────
// Marching squares
// ─────────────────────────────────────────────────────────────────────────────

/// An edge of a grid cell. The corners are numbered counter-clockwise from
/// the cell's origin: 0 at `(x0, z0)`, 1 at `(x1, z0)`, 2 at `(x1, z1)`,
/// 3 at `(x0, z1)`.
#[derive(Debug, Clone, Copy, PartialEq, Eq, Structural)]
pub enum CellEdge {
    /// From corner 0 to corner 1.
    Bottom,
    /// From corner 1 to corner 2.
    Right,
    /// From corner 2 to corner 3.
    Top,
    /// From corner 3 to corner 0.
    Left,
}

/// The corners an edge joins.
pub open spec fn edge_corners(e: CellEdge) -> (int, int) {
    match e {
        CellEdge::Bottom => (0, 1),
        CellEdge::Right => (1, 2),
        CellEdge::Top => (2, 3),
        CellEdge::Left => (3, 0),
    }
}

/// The case number of a cell: bit `k` set when corner `k` is at or above
/// the iso value.
pub open spec fn case_number(above: [bool; 4]) -> int {
    (if above[0] { 1int } else { 0 }) + (if above[1] { 2int } else { 0 }) + (if above[2] { 4int } else { 0 })
        + (if above[3] { 8int } else { 0 })
}

/// The marching-squares table: the pairs of edges that a cell's contour
/// joins, by case number. The saddle cases 5 and 10 join two pairs.
pub open spec fn contour_table(code: int) -> Seq<(CellEdge, CellEdge)> {
    if code == 1 || code == 14 {
        seq![(CellEdge::Bottom, CellEdge::Left)]
    } else if code == 2 || code == 13 {
        seq![(CellEdge::Bottom, CellEdge::Right)]
    } else if code == 3 || code == 12 {
        seq![(CellEdge::Left, CellEdge::Right)]
    } else if code == 4 || code == 11 {
        seq![(CellEdge::Right, CellEdge::Top)]
    } else if code == 5 {
        seq![(CellEdge::Bottom, CellEdge::Right), (CellEdge::Left, CellEdge::Top)]
    } else if code == 6 || code == 9 {
        seq![(CellEdge::Bottom, CellEdge::Top)]
    } else if code == 7 || code == 8 {
        seq![(CellEdge::Left, CellEdge::Top)]
    } else if code == 10 {
        seq![(CellEdge::Bottom, CellEdge::Left), (CellEdge::Right, CellEdge::Top)]
    } else {
        Seq::empty()
    }
}

/// The case number of a cell from its corner classification.
pub fn contour_case(above: [bool; 4]) -> (code: u8)
    ensures
        code as int == case_number(above),
        code < 16,
{
    let mut code: u8 = 0;
    if above[0] {
        code = code + 1;
    }
    if above[1] {
        code = code + 2;
    }
    if above[2] {
        code = code + 4;
    }
    if above[3] {
        code = code + 8;
    }
    code
}

/// The edge pairs that the contour of a cell of case `code` joins.
pub fn contour_segments(code: u8) -> (segs: Vec<(CellEdge, CellEdge)>)
    ensures
        segs@ == contour_table(code as int),
{
    let mut segs: Vec<(CellEdge, CellEdge)> = Vec::new();
    if code == 1 || code == 14 {
        segs.push((CellEdge::Bottom, CellEdge::Left));
    } else if code == 2 || code == 13 {
        segs.push((CellEdge::Bottom, CellEdge::Right));
    } else if code == 3 || code == 12 {
        segs.push((CellEdge::Left, CellEdge::Right));
    } else if code == 4 || code == 11 {
        segs.push((CellEdge::Right, CellEdge::Top));
    } else if code == 5 {
        segs.push((CellEdge::Bottom, CellEdge::Right));
        segs.push((CellEdge::Left, CellEdge::Top));
    } else if code == 6 || code == 9 {
        segs.push((CellEdge::Bottom, CellEdge::Top));
    } else if code == 7 || code == 8 {
        segs.push((CellEdge::Left, CellEdge::Top));
    } else if code == 10 {
        segs.push((CellEdge::Bottom, CellEdge::Left));
        segs.push((CellEdge::Right, CellEdge::Top));
    }
    assert(segs@ =~= contour_table(code as int));
    segs
}

/// How many times edge `e` ends a segment of `segs`.
pub open spec fn edge_uses(segs: Seq<(CellEdge, CellEdge)>, e: CellEdge) -> nat
    decreases segs.len(),
{
    if segs.len() == 0 {
        0
    } else {
        edge_uses(segs.drop_last(), e) + (if segs.last().0 == e { 1nat } else { 0 }) + (if segs.last().1 == e {
            1nat
        } else {
            0
        })
    }
}

/// The contour of a cell is consistent with its corners: every edge whose
/// two corners lie on different sides of the iso value ends exactly one
/// contour segment, and no other edge ends any.
pub proof fn law_contour_joins_crossing_edges(above: [bool; 4], e: CellEdge)
    ensures
        edge_uses(contour_table(case_number(above)), e) == (if above[edge_corners(e).0] != above[edge_corners(e).1] {
            1nat
        } else {
            0nat
        }),
{
    reveal_with_fuel(edge_uses, 3);
}

/// Complementary cells have the same contour: flipping every corner's side
/// changes neither which edges are crossed nor, outside the two saddle
/// cases, how they are joined.
pub proof fn law_contour_complement(above: [bool; 4])
    ensures
        ({
            let flipped = [!above[0], !above[1], !above[2], !above[3]];
            case_number(flipped) == 15 - case_number(above) && (case_number(above) != 5 && case_number(above)
                != 10 ==> contour_table(case_number(flipped)) == contour_table(case_number(above)))
        }),
{
}

// ─────────────────────────────────────────────────────────────────────────────
// Grid cells
// ─────────────────────────────────────────────────────────────────────────────

/// The row-major positions of the corners of cell `(ix, iz)` of a grid
/// `nx` samples wide, in corner order 0..3.
pub fn cell_corner_indices(nx: usize, nz: usize, ix: usize, iz: usize) -> (c: [usize; 4])
    requires
        ix + 1 < nx,
        iz + 1 < nz,
        nx * nz <= usize::MAX,
    ensures
        c[0] == iz * nx + ix,
        c[1] == iz * nx + ix + 1,
        c[2] == (iz + 1) * nx + ix + 1,
        c[3] == (iz + 1) * nx + ix,
        c[2] < nx * nz,
{
    assert((iz + 1) * nx + ix + 1 < nx * nz) by (nonlinear_arith)
        requires
            ix + 1 < nx,
            iz + 1 < nz,
    ;
    assert((iz + 1) * nx == iz * nx + nx) by (nonlinear_arith);
    let base = iz * nx + ix;
    [base, base + 1, base + nx + 1, base + nx]
}

// ─────────────────────────────────────────────────────────────────────────────
// Smoothing windows and interface pairs
// ─────────────────────────────────────────────────────────────────────────────

/// The window `[lo, hi)` that scalar smoothing averages for sample `i` of
/// `n`: `radius` samples on either side, cut at the ends.
pub fn smoothing_window(i: usize, radius: usize, n: usize) -> (w: (usize, usize))
    requires
        i < n,
        i + radius + 1 <= usize::MAX,
    ensures
        w.0 == (if i >= radius { i - radius } else { 0 }),
        w.1 == (if i + radius + 1 <= n { i + radius + 1 } else { n as int }),
        w.0 <= i < w.1 <= n,
{
    let lo = if i >= radius { i - radius } else { 0 };
    let hi = if i + radius + 1 <= n { i + radius + 1 } else { n };
    (lo, hi)
}

/// The interface indices of a fluid-structure snapshot that name both a
/// fluid and a structural sample, in order.
pub open spec fn coupled_indices(indices: Seq<usize>, n_fluid: nat, n_structure: nat) -> Seq<usize> {
    indices.filter(|i: usize| i < n_fluid && i < n_structure)
}

/// The interface indices that name both a fluid and a structural sample.
pub fn coupling_indices(indices: &[usize], n_fluid: usize, n_structure: usize) -> (r: Vec<usize>)
    ensures
        r@ == coupled_indices(indices@, n_fluid as nat, n_structure as nat),
{
    let mut r: Vec<usize> = Vec::new();
    let mut k: usize = 0;
    while k < indices.len()
        invariant
            k <= indices@.len(),
            r@ == coupled_indices(indices@.take(k as int), n_fluid as nat, n_structure as nat),
        decreases indices.len() - k,
    {
        let i = indices[k];
        assert(indices@.take(k as int + 1).drop_last() =~= indices@.take(k as int));
        proof {
            reveal(Seq::filter);
        }
        if i < n_fluid && i < n_structure {
            r.push(i);
        }
        k = k + 1;
    }
    assert(indices@.take(k as int) =~= indices@);
    r
}

} // verus!
