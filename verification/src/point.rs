use vstd::prelude::*;

verus! {

/// Largest coordinate magnitude the predicates accept; it keeps every
/// cross-product computation inside `i128`.
pub const COORD_LIMIT: i64 = 1_000_000_000_000_000_000;

/// A vertex or query point with exact integer coordinates.
///
/// Callers working in fractional units scale them onto a fixed-point grid
/// first; containment is invariant under uniform positive scaling.
#[derive(Clone, Copy, PartialEq, Eq, Structural, Debug)]
pub struct Point {
    pub x: i64,
    pub y: i64,
}

/// Both coordinates lie within `COORD_LIMIT` of the origin.
pub open spec fn in_bounds(p: Point) -> bool {
    &&& -COORD_LIMIT <= p.x <= COORD_LIMIT
    &&& -COORD_LIMIT <= p.y <= COORD_LIMIT
}

/// Twice the signed area of the triangle (v1, v2, pt): positive when `pt`
/// lies strictly left of the directed line v1 -> v2, negative when it lies
/// strictly right, zero when it is exactly on the line.
pub open spec fn cross(pt: Point, v1: Point, v2: Point) -> int {
    (v2.x - v1.x) * (pt.y - v1.y) - (v2.y - v1.y) * (pt.x - v1.x)
}

/// `pt` is strictly left of the directed line v1 -> v2.
pub open spec fn is_left_spec(pt: Point, v1: Point, v2: Point) -> bool {
    cross(pt, v1, v2) > 0
}

/// `pt` is strictly right of the directed line v1 -> v2.
pub open spec fn is_right_spec(pt: Point, v1: Point, v2: Point) -> bool {
    cross(pt, v1, v2) < 0
}

proof fn lemma_mul_bound(a: int, b: int, m: int) by (nonlinear_arith)
    requires
        0 <= m,
        -m <= a <= m,
        -m <= b <= m,
    ensures
        -(m * m) <= a * b <= m * m,
{
}

/// Signed relative position of `pt` with respect to the directed line
/// v1 -> v2: positive means left, negative means right, zero means on
/// the infinite line through the edge.
pub fn relative_pos(pt: &Point, v1: &Point, v2: &Point) -> (r: i128)
    requires
        in_bounds(*pt),
        in_bounds(*v1),
        in_bounds(*v2),
    ensures
        r == cross(*pt, *v1, *v2),
{
    let ex: i128 = (v2.x as i128) - (v1.x as i128);
    let dy: i128 = (pt.y as i128) - (v1.y as i128);
    let ey: i128 = (v2.y as i128) - (v1.y as i128);
    let dx: i128 = (pt.x as i128) - (v1.x as i128);
    proof {
        lemma_mul_bound(ex as int, dy as int, 2 * (COORD_LIMIT as int));
        lemma_mul_bound(ey as int, dx as int, 2 * (COORD_LIMIT as int));
    }
    ex * dy - ey * dx
}

/// Returns true if the point is strictly left of the directed line.
pub fn is_left(pt: &Point, v1: &Point, v2: &Point) -> (r: bool)
    requires
        in_bounds(*pt),
        in_bounds(*v1),
        in_bounds(*v2),
    ensures
        r == is_left_spec(*pt, *v1, *v2),
{
    relative_pos(pt, v1, v2) > 0
}

/// Returns true if the point is strictly right of the directed line.
pub fn is_right(pt: &Point, v1: &Point, v2: &Point) -> (r: bool)
    requires
        in_bounds(*pt),
        in_bounds(*v1),
        in_bounds(*v2),
    ensures
        r == is_right_spec(*pt, *v1, *v2),
{
    relative_pos(pt, v1, v2) < 0
}

proof fn lemma_cross_antisym_raw(px: int, py: int, x1: int, y1: int, x2: int, y2: int)
    by (nonlinear_arith)
    ensures
        (x2 - x1) * (py - y1) - (y2 - y1) * (px - x1) == -((x1 - x2) * (py - y2) - (y1 - y2) * (px
            - x2)),
{
}

/// Reversing an edge negates the side of every point: `pt` is strictly
/// left of v1 -> v2 exactly when it is strictly right of v2 -> v1.
pub proof fn lemma_left_right_antisymmetry(pt: Point, v1: Point, v2: Point)
    ensures
        cross(pt, v2, v1) == -cross(pt, v1, v2),
        is_left_spec(pt, v1, v2) == is_right_spec(pt, v2, v1),
{
    lemma_cross_antisym_raw(
        pt.x as int,
        pt.y as int,
        v1.x as int,
        v1.y as int,
        v2.x as int,
        v2.y as int,
    );
}

/// A point exactly on the infinite line through an edge is neither
/// strictly left nor strictly right of it.
pub proof fn lemma_on_line_is_neither(pt: Point, v1: Point, v2: Point)
    requires
        cross(pt, v1, v2) == 0,
    ensures
        !is_left_spec(pt, v1, v2),
        !is_right_spec(pt, v1, v2),
{
}

} // verus!
