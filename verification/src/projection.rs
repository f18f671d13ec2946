//! From an angle of rotation to positions on the screen.
use crate::cube::vertex;
use crate::cube::VERTICES;
use crate::fixed::floor_div;
use crate::fixed::floor_ratio;
use crate::fixed::lemma_floor_ratio_bounded;
use crate::fixed::saturate;
use crate::fixed::saturate_i32;
use crate::fixed::ONE;
use crate::linalg::apply;
use crate::linalg::matrix_times_vector;
use crate::linalg::weighted_sum;
use crate::linalg::Matrix;
use crate::linalg::Vector;
use crate::raster::Point;
use vstd::prelude::*;

verus! {

/// Horizontal centre of the screen: half its width.
pub const OFFSET_X: i32 = 2621440;

/// Vertical centre of the screen: half its height.
pub const OFFSET_Y: i32 = 1310720;

/// Cells per unit of projected width: half the screen's width.
pub const SCALE_X: i32 = 2621440;

/// Cells per unit of projected height: half the screen's height.
pub const SCALE_Y: i32 = 1310720;

/// Where the centre of the cube lies on the depth axis: two and a half
/// units away from the viewer.
pub const CAMERA_DEPTH: i32 = -163840;

/// `v` is a fixed-point value between minus one and one, as every cosine
/// and sine is.
pub open spec fn in_unit_range(v: i32) -> bool {
    -ONE <= v <= ONE
}

/// The matrix that turns the cube about the vertical axis by the angle with
/// the given cosine and sine, and then moves it away from the viewer.
pub open spec fn rotation(cos: i32, sin: i32) -> Matrix {
    Matrix(
        [
            [cos, 0i32, sin, 0i32],
            [0i32, ONE, 0i32, 0i32],
            [(-sin) as i32, 0i32, cos, 0i32],
            [0i32, 0i32, CAMERA_DEPTH, ONE],
        ],
    )
}

/// Builds the matrix for one frame from the cosine and sine of its angle.
/// Values outside the unit range are no cosine or sine and give `None`.
pub fn cube_to_world(cos: i32, sin: i32) -> (m: Option<Matrix>)
    ensures
        m == if in_unit_range(cos) && in_unit_range(sin) {
            Some(rotation(cos, sin))
        } else {
            None
        },
{
    if -65536 <= cos && cos <= 65536 && -65536 <= sin && sin <= 65536 {
        let m = Matrix(
            [[cos, 0, sin, 0], [0, ONE, 0, 0], [-sin, 0, cos, 0], [0, 0, CAMERA_DEPTH, ONE]],
        );
        assert(m.0 =~= rotation(cos, sin).0);
        Some(m)
    } else {
        None
    }
}

/// One screen coordinate of a point in view space: its coordinate across
/// the view divided by its depth, scaled to cells and moved to the centre of
/// the screen. The quotient is rounded down; the result is clamped.
pub open spec fn projected(coord: int, depth: int, scale: int, offset: int) -> int {
    saturate(floor_ratio(coord * scale, depth) + offset)
}

/// The screen position of the view-space point `world`, whose depth is not
/// zero.
pub open spec fn screen_of(world: Vector) -> Point {
    Point {
        x: projected(world.0[0] as int, world.0[2] as int, SCALE_X as int, OFFSET_X as int) as i32,
        y: projected(world.0[1] as int, world.0[2] as int, SCALE_Y as int, OFFSET_Y as int) as i32,
    }
}

/// The depth of corner `index` of the cube after `m` is applied to it.
pub open spec fn depth(m: Matrix, index: int) -> int {
    apply(m, vertex(index)).0[2] as int
}

/// No corner of the cube lies at depth zero once `m` is applied.
pub open spec fn can_project(m: Matrix) -> bool {
    forall|index: int| 0 <= index < 8 ==> depth(m, index) != 0
}

/// The screen positions of the eight corners of the cube under `m`.
pub open spec fn screen_positions(m: Matrix) -> Seq<Point> {
    Seq::new(8, |index: int| screen_of(apply(m, vertex(index))))
}

/// One screen coordinate from a view-space coordinate and a nonzero depth.
fn project_coordinate(coord: i32, depth: i32, scale: i32, offset: i32) -> (r: i32)
    requires
        depth != 0,
    ensures
        r == projected(coord as int, depth as int, scale as int, offset as int),
{
    assert(-0x4000_0000_0000_0000 <= coord * scale <= 0x4000_0000_0000_0000) by (nonlinear_arith)
        requires
            -0x8000_0000 <= coord <= 0x8000_0000,
            -0x8000_0000 <= scale <= 0x8000_0000,
    ;
    let scaled: i128 = coord as i128 * scale as i128;
    let quotient: i128 = floor_div(scaled, depth as i128);
    assert(-0x4000_0000_0000_0000 <= quotient <= 0x4000_0000_0000_0000) by {
        lemma_floor_ratio_bounded(scaled as int, depth as int, 0x4000_0000_0000_0000);
    }
    saturate_i32(quotient + offset as i128)
}

/// Projects a point of view space onto the screen by dividing by its depth.
/// A point at depth zero has no projection.
pub fn project(world: &Vector) -> (p: Option<Point>)
    ensures
        p == if world.0[2] == 0 {
            None
        } else {
            Some(screen_of(*world))
        },
{
    let depth: i32 = world.0[2];
    if depth == 0 {
        None
    } else {
        Some(
            Point {
                x: project_coordinate(world.0[0], depth, SCALE_X, OFFSET_X),
                y: project_coordinate(world.0[1], depth, SCALE_Y, OFFSET_Y),
            },
        )
    }
}

/// Applies `m` to every corner of the cube and projects the results onto
/// the screen, in the order of the corners. Gives `None` if a corner comes
/// to lie at depth zero.
pub fn project_vertices(m: &Matrix) -> (screen: Option<[Point; 8]>)
    ensures
        screen is Some <==> can_project(*m),
        screen matches Some(s) ==> s@ == screen_positions(*m),
{
    let mut screen: [Point; 8] = [Point { x: 0, y: 0 };8];
    let mut index: usize = 0;
    while index < 8
        invariant
            index <= 8,
            forall|k: int| 0 <= k < index ==> depth(*m, k) != 0,
            forall|k: int| 0 <= k < index ==> #[trigger] screen[k] == screen_of(apply(*m, vertex(k))),
        decreases 8 - index,
    {
        let corner = Vector(VERTICES[index]);
        let world = matrix_times_vector(m, &corner);
        match project(&world) {
            None => {
                assert(depth(*m, index as int) == 0);
                return None;
            },
            Some(p) => {
                screen[index] = p;
            },
        }
        index += 1;
    }
    assert(screen@ =~= screen_positions(*m));
    Some(screen)
}

/// Plus one for a corner on the positive side of `axis`, minus one for a
/// corner on its negative side.
pub open spec fn side(index: int, axis: int) -> int {
    if VERTICES[index][axis] > 0 {
        1
    } else {
        -1
    }
}

/// Where corner `index` comes to lie across the view once the cube is
/// turned.
pub open spec fn turned_across(cos: i32, sin: i32, index: int) -> int {
    side(index, 0) * cos - side(index, 2) * sin
}

/// Where corner `index` comes to lie along the depth axis once the cube is
/// turned, before it is moved away from the viewer.
pub open spec fn turned_along(cos: i32, sin: i32, index: int) -> int {
    side(index, 0) * sin + side(index, 2) * cos
}

/// A value times plus or minus one is the value or its negative.
pub proof fn lemma_signed(sign: int, v: int)
    requires
        sign == 1 || sign == -1,
    ensures
        sign * v == if sign == 1 {
            v
        } else {
            -v
        },
{
    assert(1 * v == v && (-1) * v == -v) by (nonlinear_arith);
}

/// The matrix of an angle takes every corner of the cube to its turned
/// place exactly: nothing is rounded and nothing is clamped.
pub proof fn lemma_turned_corner(cos: i32, sin: i32, index: int)
    requires
        in_unit_range(cos),
        in_unit_range(sin),
        0 <= index < 8,
    ensures
        apply(rotation(cos, sin), vertex(index)).0[0] == turned_across(cos, sin, index),
        apply(rotation(cos, sin), vertex(index)).0[1] == side(index, 1) * ONE,
        apply(rotation(cos, sin), vertex(index)).0[2] == turned_along(cos, sin, index)
            + CAMERA_DEPTH,
        apply(rotation(cos, sin), vertex(index)).0[3] == ONE,
{
    let m = rotation(cos, sin);
    let v = vertex(index);
    let x = v.0[0] as int;
    let y = v.0[1] as int;
    let z = v.0[2] as int;
    assert(x == side(index, 0) * 65536);
    assert(y == side(index, 1) * 65536);
    assert(z == side(index, 2) * 65536);
    assert(v.0[3] == 65536);
    assert(m.0[0] =~= [cos, 0i32, sin, 0i32]);
    assert(m.0[1] =~= [0i32, ONE, 0i32, 0i32]);
    assert(m.0[2] =~= [(-sin) as i32, 0i32, cos, 0i32]);
    assert(m.0[3] =~= [0i32, 0i32, CAMERA_DEPTH, ONE]);
    lemma_signed(side(index, 0), cos as int);
    lemma_signed(side(index, 0), sin as int);
    lemma_signed(side(index, 2), cos as int);
    lemma_signed(side(index, 2), sin as int);
    let sx = side(index, 0);
    let sz = side(index, 2);
    assert(x * cos == (sx * cos) * 65536) by (nonlinear_arith)
        requires
            x == sx * 65536,
    ;
    assert(x * sin == (sx * sin) * 65536) by (nonlinear_arith)
        requires
            x == sx * 65536,
    ;
    assert(z * cos == (sz * cos) * 65536) by (nonlinear_arith)
        requires
            z == sz * 65536,
    ;
    assert(z * (-sin) == -(sz * sin) * 65536) by (nonlinear_arith)
        requires
            z == sz * 65536,
    ;
    assert(x * 0 == 0 && y * 0 == 0 && z * 0 == 0);
    assert(weighted_sum(m, v, 0) == turned_across(cos, sin, index) * 65536);
    assert(weighted_sum(m, v, 1) == y * 65536);
    assert(weighted_sum(m, v, 2) == (turned_along(cos, sin, index) + CAMERA_DEPTH) * 65536);
    assert(weighted_sum(m, v, 3) == 65536 * 65536);
}

/// Whatever the angle, every corner of the turned cube lies in front of the
/// viewer, between half a unit and four and a half units away, so that the
/// division by its depth is defined.
pub proof fn lemma_cube_in_front(cos: i32, sin: i32, index: int)
    requires
        in_unit_range(cos),
        in_unit_range(sin),
        0 <= index < 8,
    ensures
        CAMERA_DEPTH - 2 * ONE <= depth(rotation(cos, sin), index) <= CAMERA_DEPTH + 2 * ONE,
        depth(rotation(cos, sin), index) < 0,
{
    lemma_turned_corner(cos, sin, index);
    lemma_signed(side(index, 0), sin as int);
    lemma_signed(side(index, 2), cos as int);
}

/// Every angle gives a matrix under which the whole cube can be projected.
pub proof fn lemma_rotation_can_project(cos: i32, sin: i32)
    requires
        in_unit_range(cos),
        in_unit_range(sin),
    ensures
        can_project(rotation(cos, sin)),
{
    assert forall|index: int| 0 <= index < 8 implies depth(rotation(cos, sin), index) != 0 by {
        lemma_cube_in_front(cos, sin, index);
    }
}

} // verus!
