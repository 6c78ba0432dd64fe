//! Boundary filter: ray-casting point-in-polygon test over integer
//! coordinates, exact by cross-multiplication instead of division.

use vstd::prelude::*;

verus! {

/// A 2-D point in integer pixel coordinates.
#[derive(Debug, Clone, Copy, PartialEq, Eq, Structural)]
pub struct Point {
    pub x: i32,
    pub y: i32,
}

impl Point {
    pub fn new(x: i32, y: i32) -> (p: Point)
        ensures
            p.x == x,
            p.y == y,
    {
        Point { x, y }
    }
}

/// An edge from `a` to `b` straddles the horizontal line at height `py` when
/// `py` lies between the endpoints' heights, one bound inclusive and one
/// exclusive so that a vertex shared by two edges is counted exactly once.
pub open spec fn edge_straddles(a: Point, b: Point, py: int) -> bool {
    (a.y < py && b.y >= py) || (b.y < py && a.y >= py)
}

/// Whether a straddling edge from `a` to `b` crosses the horizontal line at
/// height `py` strictly to the left of `px`: the exact rational comparison
/// `a.x + (py - a.y) * (b.x - a.x) / (b.y - a.y) < px`, cross-multiplied by
/// `b.y - a.y` (flipping the inequality when that factor is negative) so
/// that no division is needed.
pub open spec fn crossing_is_left(a: Point, b: Point, px: int, py: int) -> bool {
    if b.y >= a.y {
        (py - a.y) * (b.x - a.x) < (px - a.x) * (b.y - a.y)
    } else {
        (py - a.y) * (b.x - a.x) > (px - a.x) * (b.y - a.y)
    }
}

/// Edge `k` of the closed polygon runs from vertex `k` back to the previous
/// vertex; the edge of vertex 0 closes the ring from the last vertex.
pub open spec fn edge_toggles(poly: Seq<Point>, px: int, py: int, k: int) -> bool {
    let a = poly[k];
    let b = if k == 0 {
        poly[poly.len() - 1]
    } else {
        poly[k - 1]
    };
    edge_straddles(a, b, py) && crossing_is_left(a, b, px, py)
}

/// Parity of left crossings among the first `k` edges.
pub open spec fn crossings_parity(poly: Seq<Point>, px: int, py: int, k: int) -> bool
    decreases k,
{
    if k <= 0 {
        false
    } else {
        crossings_parity(poly, px, py, k - 1) != edge_toggles(poly, px, py, k - 1)
    }
}

/// A point lies inside the polygon when a horizontal ray cast leftward out
/// of it crosses the polygon's edges an odd number of times.
pub open spec fn polygon_contains(poly: Seq<Point>, px: int, py: int) -> bool {
    crossings_parity(poly, px, py, poly.len() as int)
}

/// The boundary verdict for an optional polygon: with no polygon configured,
/// every point is inside.
pub open spec fn inside_boundary(boundary: Option<Seq<Point>>, px: int, py: int) -> bool {
    match boundary {
        Some(poly) => polygon_contains(poly, px, py),
        None => true,
    }
}

/// The polygons of an optional boundary, as a sequence of vertices.
pub open spec fn boundary_view(boundary: Option<Vec<Point>>) -> Option<Seq<Point>> {
    match boundary {
        Some(poly) => Some(poly@),
        None => None,
    }
}

proof fn lemma_mul_bound(u: int, v: int, ub: int, vb: int)
    by (nonlinear_arith)
    requires
        -ub <= u <= ub,
        -vb <= v <= vb,
        0 <= ub,
        0 <= vb,
    ensures
        -(ub * vb) <= u * v <= ub * vb,
{
}

/// Decides whether the point `(px, py)` lies inside the optional boundary
/// polygon by ray casting, exactly as `inside_boundary` states.
pub fn inside_polygon(boundary: &Option<Vec<Point>>, px: i64, py: i64) -> (r: bool)
    requires
        match boundary {
            Some(poly) => poly@.len() >= 1,
            None => true,
        },
    ensures
        r == inside_boundary(boundary_view(*boundary), px as int, py as int),
{
    match boundary {
        None => true,
        Some(poly) => {
            let n: usize = poly.len();
            let mut inside: bool = false;
            let mut j: usize = n - 1;
            let mut k: usize = 0;
            while k < n
                invariant
                    1 <= n == poly@.len(),
                    0 <= k <= n,
                    j == if k == 0 { (n - 1) as int } else { (k - 1) as int },
                    inside == crossings_parity(poly@, px as int, py as int, k as int),
                decreases n - k,
            {
                let a = poly[k];
                let b = poly[j];
                let ax: i128 = a.x as i128;
                let ay: i128 = a.y as i128;
                let bx: i128 = b.x as i128;
                let by: i128 = b.y as i128;
                let pxw: i128 = px as i128;
                let pyw: i128 = py as i128;
                let straddles: bool = (ay < pyw && by >= pyw) || (by < pyw && ay >= pyw);
                proof {
                    lemma_mul_bound(
                        pyw - ay,
                        bx - ax,
                        0x10000000100000000,
                        0x100000000,
                    );
                    lemma_mul_bound(
                        pxw - ax,
                        by - ay,
                        0x10000000100000000,
                        0x100000000,
                    );
                }
                let lhs: i128 = (pyw - ay) * (bx - ax);
                let rhs: i128 = (pxw - ax) * (by - ay);
                let toggle: bool = straddles && (if by >= ay {
                    lhs < rhs
                } else {
                    lhs > rhs
                });
                assert(toggle == edge_toggles(poly@, px as int, py as int, k as int));
                if toggle {
                    inside = !inside;
                }
                j = k;
                k = k + 1;
            }
            inside
        },
    }
}

} // verus!
