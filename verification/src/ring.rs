use vstd::prelude::*;

use crate::point::{
    in_bounds, is_left, is_left_spec, is_right, is_right_spec, lemma_left_right_antisymmetry,
    Point,
};

verus! {

/// Winding contribution of the directed edge v1 -> v2 as seen from `pt`:
/// +1 for an upward crossing of the horizontal ray through `pt` with `pt`
/// strictly left of the edge, -1 for a downward crossing with `pt`
/// strictly right, 0 otherwise. The y-interval is half-open on each side,
/// so a horizontal edge never contributes.
pub open spec fn edge_winding(pt: Point, v1: Point, v2: Point) -> int {
    if v1.y <= pt.y && v2.y > pt.y {
        if is_left_spec(pt, v1, v2) {
            1
        } else {
            0
        }
    } else if v1.y > pt.y && v2.y <= pt.y {
        if is_right_spec(pt, v1, v2) {
            -1
        } else {
            0
        }
    } else {
        0
    }
}

/// Sum of the winding contributions of the first `k` edges of `ring`,
/// edge `i` running from vertex `i` to vertex `i + 1`.
pub open spec fn winding_upto(pt: Point, ring: Seq<Point>, k: int) -> int
    recommends
        k < ring.len(),
    decreases k,
{
    if k <= 0 {
        0
    } else {
        winding_upto(pt, ring, k - 1) + edge_winding(pt, ring[k - 1], ring[k])
    }
}

/// Winding number of `ring` around `pt`: the signed count of times the
/// ring's consecutive edges cross the horizontal ray through `pt`. A ring
/// with fewer than two vertices has no edge and winds zero times.
pub open spec fn winding_number(pt: Point, ring: Seq<Point>) -> int {
    if ring.len() < 2 {
        0
    } else {
        winding_upto(pt, ring, ring.len() - 1)
    }
}

/// `pt` is enclosed by `ring`: the winding number is nonzero. A point
/// exactly on the boundary falls on either side of the half-open crossing
/// convention, depending on the edge directions.
pub open spec fn in_ring_spec(pt: Point, ring: Seq<Point>) -> bool {
    winding_number(pt, ring) != 0
}

/// Every vertex of the ring is within coordinate bounds.
pub open spec fn ring_in_bounds(ring: Seq<Point>) -> bool {
    forall|i: int| 0 <= i < ring.len() ==> in_bounds(#[trigger] ring[i])
}

/// Returns true iff the winding number of `ring` around `pt` is nonzero.
///
/// Edges are the consecutive vertex pairs of `ring`; a ring whose first
/// and last vertices differ is simply missing its closing edge, and a
/// ring with fewer than two vertices encloses nothing.
pub fn in_ring(pt: &Point, ring: &Vec<Point>) -> (r: bool)
    requires
        in_bounds(*pt),
        ring_in_bounds(ring@),
    ensures
        r == in_ring_spec(*pt, ring@),
{
    if ring.len() < 2 {
        return false;
    }
    let mut wn: i128 = 0;
    let mut i: usize = 0;
    while i < ring.len() - 1
        invariant
            in_bounds(*pt),
            ring_in_bounds(ring@),
            2 <= ring.len(),
            0 <= i <= ring.len() - 1,
            wn == winding_upto(*pt, ring@, i as int),
            -(i as int) <= wn <= i as int,
        decreases ring.len() - 1 - i,
    {
        let v1 = ring[i];
        let v2 = ring[i + 1];
        if v1.y <= pt.y && v2.y > pt.y {
            if is_left(pt, &v1, &v2) {
                wn = wn + 1;
            }
        } else if v1.y > pt.y && v2.y <= pt.y {
            if is_right(pt, &v1, &v2) {
                wn = wn - 1;
            }
        }
        i = i + 1;
    }
    wn != 0
}

/// Reversing an edge negates its winding contribution: the upward test of
/// v1 -> v2 becomes the downward test of v2 -> v1, on the opposite side.
pub proof fn lemma_edge_winding_reverse(pt: Point, v1: Point, v2: Point)
    ensures
        edge_winding(pt, v2, v1) == -edge_winding(pt, v1, v2),
{
    lemma_left_right_antisymmetry(pt, v1, v2);
    lemma_left_right_antisymmetry(pt, v2, v1);
}

proof fn lemma_winding_upto_reverse(pt: Point, ring: Seq<Point>, k: int)
    requires
        2 <= ring.len(),
        0 <= k <= ring.len() - 1,
    ensures
        winding_upto(pt, ring.reverse(), k) == winding_upto(pt, ring, ring.len() - 1 - k)
            - winding_upto(pt, ring, ring.len() - 1),
    decreases k,
{
    let n = ring.len() as int;
    let rev = ring.reverse();
    assert(rev.len() == n);
    if k > 0 {
        lemma_winding_upto_reverse(pt, ring, k - 1);
        assert(winding_upto(pt, rev, k) == winding_upto(pt, rev, k - 1) + edge_winding(
            pt,
            rev[k - 1],
            rev[k],
        ));
        assert(rev[k - 1] == ring[n - k]);
        assert(rev[k] == ring[n - 1 - k]);
        lemma_edge_winding_reverse(pt, ring[n - 1 - k], ring[n - k]);
        assert(winding_upto(pt, ring, n - k) == winding_upto(pt, ring, n - k - 1) + edge_winding(
            pt,
            ring[n - k - 1],
            ring[n - k],
        ));
    }
}

/// Orientation invariance: traversing a ring's vertices in the opposite
/// order negates the winding number around every point, so whether a
/// point is enclosed does not depend on the ring's winding direction.
pub proof fn lemma_orientation_invariance(pt: Point, ring: Seq<Point>)
    ensures
        winding_number(pt, ring.reverse()) == -winding_number(pt, ring),
        in_ring_spec(pt, ring.reverse()) == in_ring_spec(pt, ring),
{
    if ring.len() < 2 {
        assert(ring.reverse().len() == ring.len());
    } else {
        lemma_winding_upto_reverse(pt, ring, ring.len() - 1);
    }
}

} // verus!
