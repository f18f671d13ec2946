//! Back-face culling by the winding of a face on the screen.
use crate::raster::Point;
use vstd::prelude::*;

verus! {

/// The cross product of the edge from `p0` to `p1` with the edge from `p1`
/// to `p2`: twice the signed area of the triangle they span.
pub open spec fn winding(p0: Point, p1: Point, p2: Point) -> int {
    (p1.x - p0.x) * (p2.y - p1.y) - (p2.x - p1.x) * (p1.y - p0.y)
}

/// The face that starts with the corners `p0`, `p1`, `p2` turns away from the
/// viewer. A face seen exactly edge-on does not.
pub open spec fn is_back_facing(p0: Point, p1: Point, p2: Point) -> bool {
    winding(p0, p1, p2) > 0
}

/// `q` is `p` stretched from the origin by the positive ratio `num / den`.
pub open spec fn is_scaled(p: Point, q: Point, num: int, den: int) -> bool {
    den * q.x == num * p.x && den * q.y == num * p.y
}

/// The exact product of two differences of 32-bit values.
fn product(a: i64, b: i64) -> (p: i128)
    requires
        -0x1_0000_0000 <= a <= 0x1_0000_0000,
        -0x1_0000_0000 <= b <= 0x1_0000_0000,
    ensures
        p == a * b,
{
    assert(-0x1_0000_0000 * 0x1_0000_0000 <= a * b <= 0x1_0000_0000 * 0x1_0000_0000)
        by (nonlinear_arith)
        requires
            -0x1_0000_0000 <= a <= 0x1_0000_0000,
            -0x1_0000_0000 <= b <= 0x1_0000_0000,
    ;
    a as i128 * b as i128
}

/// Decides from the first three corners of a face, in their winding order,
/// whether the face is hidden and must not be drawn.
pub fn cull(p0: Point, p1: Point, p2: Point) -> (hidden: bool)
    ensures
        hidden == is_back_facing(p0, p1, p2),
{
    let dx0: i64 = p1.x as i64 - p0.x as i64;
    let dx1: i64 = p2.x as i64 - p1.x as i64;
    let dy0: i64 = p1.y as i64 - p0.y as i64;
    let dy1: i64 = p2.y as i64 - p1.y as i64;
    product(dx0, dy1) > product(dx1, dy0)
}

/// Stretching all three corners by the same positive ratio does not change
/// whether a face is culled.
pub proof fn lemma_cull_scale_invariant(
    p0: Point,
    p1: Point,
    p2: Point,
    q0: Point,
    q1: Point,
    q2: Point,
    num: int,
    den: int,
)
    requires
        num > 0,
        den > 0,
        is_scaled(p0, q0, num, den),
        is_scaled(p1, q1, num, den),
        is_scaled(p2, q2, num, den),
    ensures
        is_back_facing(q0, q1, q2) == is_back_facing(p0, p1, p2),
{
    let a = p1.x - p0.x;
    let b = p2.y - p1.y;
    let c = p2.x - p1.x;
    let d = p1.y - p0.y;
    let sa = q1.x - q0.x;
    let sb = q2.y - q1.y;
    let sc = q2.x - q1.x;
    let sd = q1.y - q0.y;
    lemma_scaled_difference(p0.x as int, p1.x as int, q0.x as int, q1.x as int, num, den);
    lemma_scaled_difference(p1.y as int, p2.y as int, q1.y as int, q2.y as int, num, den);
    lemma_scaled_difference(p1.x as int, p2.x as int, q1.x as int, q2.x as int, num, den);
    lemma_scaled_difference(p0.y as int, p1.y as int, q0.y as int, q1.y as int, num, den);
    lemma_scaled_product(a, b, sa, sb, num, den);
    lemma_scaled_product(c, d, sc, sd, num, den);
    let w = a * b - c * d;
    let v = sa * sb - sc * sd;
    assert((den * den) * v == (num * num) * w) by (nonlinear_arith)
        requires
            (den * den) * (sa * sb) == (num * num) * (a * b),
            (den * den) * (sc * sd) == (num * num) * (c * d),
            v == sa * sb - sc * sd,
            w == a * b - c * d,
    ;
    assert((v > 0) == (w > 0)) by (nonlinear_arith)
        requires
            (den * den) * v == (num * num) * w,
            num > 0,
            den > 0,
    ;
}

/// A difference of two stretched values is the stretched difference.
proof fn lemma_scaled_difference(p: int, r: int, q: int, s: int, num: int, den: int)
    by (nonlinear_arith)
    requires
        den * q == num * p,
        den * s == num * r,
    ensures
        den * (s - q) == num * (r - p),
{
}

/// A product of two stretched values is the product stretched twice.
proof fn lemma_scaled_product(a: int, b: int, sa: int, sb: int, num: int, den: int)
    requires
        den * sa == num * a,
        den * sb == num * b,
    ensures
        (den * den) * (sa * sb) == (num * num) * (a * b),
{
    assert((den * den) * (sa * sb) == (den * sa) * (den * sb)) by (nonlinear_arith);
    assert((num * a) * (num * b) == (num * num) * (a * b)) by (nonlinear_arith);
}

/// Exchanging any two of the three corners negates the winding.
pub proof fn lemma_winding_antisymmetric(p0: Point, p1: Point, p2: Point)
    ensures
        winding(p1, p0, p2) == -winding(p0, p1, p2),
        winding(p0, p2, p1) == -winding(p0, p1, p2),
        winding(p2, p1, p0) == -winding(p0, p1, p2),
{
    assert(winding(p1, p0, p2) == -winding(p0, p1, p2)) by (nonlinear_arith);
    assert(winding(p0, p2, p1) == -winding(p0, p1, p2)) by (nonlinear_arith);
    assert(winding(p2, p1, p0) == -winding(p0, p1, p2)) by (nonlinear_arith);
}

/// Exchanging any two of the three corners of a face that is not seen
/// edge-on flips the decision; a face seen edge-on is drawn in either order.
pub proof fn lemma_cull_antisymmetric(p0: Point, p1: Point, p2: Point)
    ensures
        winding(p0, p1, p2) != 0 ==> {
            &&& is_back_facing(p1, p0, p2) == !is_back_facing(p0, p1, p2)
            &&& is_back_facing(p0, p2, p1) == !is_back_facing(p0, p1, p2)
            &&& is_back_facing(p2, p1, p0) == !is_back_facing(p0, p1, p2)
        },
        winding(p0, p1, p2) == 0 ==> {
            &&& !is_back_facing(p0, p1, p2)
            &&& !is_back_facing(p1, p0, p2)
            &&& !is_back_facing(p0, p2, p1)
            &&& !is_back_facing(p2, p1, p0)
        },
{
    lemma_winding_antisymmetric(p0, p1, p2);
}

} // verus!
