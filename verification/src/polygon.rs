use vstd::prelude::*;

use crate::point::{in_bounds, Point};
use crate::ring::{in_ring, in_ring_spec, ring_in_bounds};

verus! {

/// A polygon as an ordered sequence of closed rings: ring 0 is the shell,
/// every later ring is a hole whose enclosed area is excluded.
pub struct Polygon {
    pub rings: Vec<Vec<Point>>,
}

impl View for Polygon {
    type V = Seq<Seq<Point>>;

    open spec fn view(&self) -> Seq<Seq<Point>> {
        self.rings@.map_values(|r: Vec<Point>| r@)
    }
}

impl Polygon {
    /// Wraps a ring sequence; the first ring is taken as the shell.
    pub fn new(rings: Vec<Vec<Point>>) -> (p: Polygon)
        ensures
            p.rings == rings,
    {
        Polygon { rings }
    }
}

/// Every vertex of every ring is within coordinate bounds.
pub open spec fn poly_in_bounds(rings: Seq<Seq<Point>>) -> bool {
    forall|i: int| 0 <= i < rings.len() ==> ring_in_bounds(#[trigger] rings[i])
}

/// `pt` is inside the polygon: there is a shell, the shell encloses `pt`,
/// and no hole encloses `pt`. A polygon without rings contains nothing.
pub open spec fn inside_spec(pt: Point, rings: Seq<Seq<Point>>) -> bool {
    &&& rings.len() > 0
    &&& in_ring_spec(pt, rings[0])
    &&& forall|i: int| 1 <= i < rings.len() ==> !in_ring_spec(pt, #[trigger] rings[i])
}

/// Returns true iff `pt` is inside the polygon's shell and outside every
/// hole. Holes are checked in order only until one encloses the point.
pub fn inside(pt: &Point, poly: &Polygon) -> (r: bool)
    requires
        in_bounds(*pt),
        poly_in_bounds(poly@),
    ensures
        r == inside_spec(*pt, poly@),
{
    if poly.rings.len() == 0 {
        return false;
    }
    let shell = &poly.rings[0];
    assert(poly@[0] == shell@);
    if !in_ring(pt, shell) {
        return false;
    }
    let mut result: bool = true;
    let mut i: usize = 1;
    while result && i < poly.rings.len()
        invariant
            in_bounds(*pt),
            poly_in_bounds(poly@),
            1 <= poly.rings.len(),
            1 <= i <= poly.rings.len(),
            in_ring_spec(*pt, poly@[0]),
            result ==> forall|j: int| 1 <= j < i ==> !in_ring_spec(*pt, #[trigger] poly@[j]),
            !result ==> exists|j: int| 1 <= j < i && in_ring_spec(*pt, #[trigger] poly@[j]),
        decreases poly.rings.len() - i,
    {
        let hole = &poly.rings[i];
        assert(poly@[i as int] == hole@);
        if in_ring(pt, hole) {
            assert(in_ring_spec(*pt, poly@[i as int]));
            result = false;
        }
        i = i + 1;
    }
    result
}

/// Containment as a method on a point-like type.
pub trait Inside {
    /// The query point this value stands for.
    spec fn as_point(&self) -> Point;

    /// Returns true iff the point is inside the polygon's shell and
    /// outside every hole.
    fn inside(&self, poly: &Polygon) -> (r: bool)
        requires
            in_bounds(self.as_point()),
            poly_in_bounds(poly@),
        ensures
            r == inside_spec(self.as_point(), poly@),
    ;
}

impl Inside for Point {
    open spec fn as_point(&self) -> Point {
        *self
    }

    fn inside(&self, poly: &Polygon) -> (r: bool) {
        inside(self, poly)
    }
}

/// Shell and hole compose: a point enclosed by the shell is inside the
/// polygon made of the shell alone, and adding a hole that also encloses
/// the point puts it outside.
pub proof fn lemma_shell_hole_composition(pt: Point, shell: Seq<Point>, hole: Seq<Point>)
    requires
        in_ring_spec(pt, shell),
    ensures
        inside_spec(pt, seq![shell]),
        in_ring_spec(pt, hole) ==> !inside_spec(pt, seq![shell, hole]),
{
    assert(seq![shell][0] == shell);
    assert(seq![shell, hole][1] == hole);
}

} // verus!
