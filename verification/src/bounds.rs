//! What holds of the cube on the screen at every angle.
use crate::cube::vertex;
use crate::fixed::floor_ratio;
use crate::fixed::lemma_floor_ratio_stable;
use crate::fixed::lemma_floor_ratio_within;
use crate::fixed::magnitude;
use crate::fixed::ONE;
use crate::linalg::apply;
use crate::projection::in_unit_range;
use crate::projection::lemma_signed;
use crate::projection::lemma_turned_corner;
use crate::projection::rotation;
use crate::projection::screen_of;
use crate::projection::screen_positions;
use crate::projection::side;
use crate::projection::turned_across;
use crate::projection::turned_along;
use crate::projection::CAMERA_DEPTH;
use crate::projection::OFFSET_X;
use crate::projection::OFFSET_Y;
use crate::projection::SCALE_X;
use crate::projection::SCALE_Y;
use crate::raster::on_screen;
use vstd::prelude::*;

verus! {

/// `cos` and `sin` are the cosine and sine of one angle, up to the error of
/// rounding them to fixed point: their squares add up to one, or to no more
/// than a sixteenth above it.
pub open spec fn is_near_unit_circle(cos: i32, sin: i32) -> bool {
    cos * cos + sin * sin <= 17 * (ONE * ONE / 16)
}

/// Turning a corner about the axis keeps its distance from the axis.
pub proof fn lemma_turn_keeps_distance(cos: int, sin: int, sx: int, sz: int)
    requires
        sx == 1 || sx == -1,
        sz == 1 || sz == -1,
    ensures
        (sx * cos - sz * sin) * (sx * cos - sz * sin) + (sx * sin + sz * cos) * (sx * sin + sz
            * cos) == 2 * (cos * cos + sin * sin),
{
    lemma_signed(sx, cos);
    lemma_signed(sx, sin);
    lemma_signed(sz, cos);
    lemma_signed(sz, sin);
    assert((cos - sin) * (cos - sin) + (sin + cos) * (sin + cos) == 2 * (cos * cos + sin * sin))
        by (nonlinear_arith);
    assert((cos + sin) * (cos + sin) + (sin - cos) * (sin - cos) == 2 * (cos * cos + sin * sin))
        by (nonlinear_arith);
    assert((-cos - sin) * (-cos - sin) + (-sin + cos) * (-sin + cos) == 2 * (cos * cos + sin
        * sin)) by (nonlinear_arith);
    assert((-cos + sin) * (-cos + sin) + (-sin - cos) * (-sin - cos) == 2 * (cos * cos + sin
        * sin)) by (nonlinear_arith);
}

/// At every angle, every corner of the cube is projected to a position
/// inside the screen: the animation never draws outside the grid.
pub proof fn lemma_cube_on_screen(cos: i32, sin: i32, index: int)
    requires
        in_unit_range(cos),
        in_unit_range(sin),
        is_near_unit_circle(cos, sin),
        0 <= index < 8,
    ensures
        on_screen(screen_positions(rotation(cos, sin))[index]),
{
    let world = apply(rotation(cos, sin), vertex(index));
    let u = turned_across(cos, sin, index);
    let t = turned_along(cos, sin, index);
    let far = -(t + CAMERA_DEPTH);
    lemma_turned_corner(cos, sin, index);
    lemma_turn_keeps_distance(cos as int, sin as int, side(index, 0), side(index, 2));
    let length = cos * cos + sin * sin;
    assert(u * u + t * t == 2 * length);
    assert(length <= 4563402752);
    // the corner stays more than one unit away from the viewer
    assert(t < 98304) by (nonlinear_arith)
        requires
            u * u + t * t <= 2 * 4563402752,
    ;
    assert(far > 65536);
    // and less far to the side than it is away
    assert(-163840 < u + t < 163840 && -163840 < t - u < 163840) by (nonlinear_arith)
        requires
            u * u + t * t <= 2 * 4563402752,
    ;
    assert(-far < u < far);
    assert(world.0[2] == -far);
    assert(world.0[0] == u);
    let sy = side(index, 1);
    assert(world.0[1] == sy * 65536);
    assert(-(2621440 * far) < u * 2621440 < 2621440 * far) by (nonlinear_arith)
        requires
            -far < u < far,
    ;
    lemma_floor_ratio_within(u * SCALE_X, -far, SCALE_X as int);
    assert(-(1310720 * far) < (sy * 65536) * 1310720 < 1310720 * far) by (nonlinear_arith)
        requires
            sy == 1 || sy == -1,
            far > 65536,
    ;
    lemma_floor_ratio_within((sy * 65536) * SCALE_Y, -far, SCALE_Y as int);
    assert(screen_positions(rotation(cos, sin))[index] == screen_of(world));
}

/// The whole part of one screen coordinate of a turned corner, before the
/// centre of the screen is added: `coord * scale` divided by a depth of
/// `-far`, where `far` is at least half a unit and `coord` at most
/// `reach` halves of a unit.
proof fn lemma_quotient_bounded(coord: int, scale: int, far: int, reach: int)
    requires
        far >= 32768,
        scale > 0,
        reach > 0,
        magnitude(coord) <= reach * 32768,
    ensures
        floor_ratio(coord * scale, -far) == (-(coord * scale)) / far,
        magnitude((-(coord * scale)) / far + 1) <= reach * scale + 1,
{
    assert(magnitude(coord * scale) < (reach * scale + 1) * far) by (nonlinear_arith)
        requires
            magnitude(coord) <= reach * 32768,
            far >= 32768,
            scale > 0,
            reach > 0,
    ;
    lemma_floor_ratio_within(coord * scale, -far, reach * scale + 1);
}

/// A small change of cosine and sine moves the cube on the screen by
/// little: where both change by at most `delta`, no corner moves by more
/// than 801 times `delta` across the screen, nor by more than 161 times
/// `delta` along its height.
pub proof fn lemma_screen_positions_stable(
    cos: i32,
    sin: i32,
    cos2: i32,
    sin2: i32,
    delta: int,
    index: int,
)
    requires
        in_unit_range(cos),
        in_unit_range(sin),
        in_unit_range(cos2),
        in_unit_range(sin2),
        magnitude(cos2 - cos) <= delta,
        magnitude(sin2 - sin) <= delta,
        0 <= index < 8,
    ensures
        magnitude(
            screen_positions(rotation(cos2, sin2))[index].x - screen_positions(
                rotation(cos, sin),
            )[index].x,
        ) <= 801 * delta,
        magnitude(
            screen_positions(rotation(cos2, sin2))[index].y - screen_positions(
                rotation(cos, sin),
            )[index].y,
        ) <= 161 * delta,
{
    let world = apply(rotation(cos, sin), vertex(index));
    let world2 = apply(rotation(cos2, sin2), vertex(index));
    lemma_turned_corner(cos, sin, index);
    lemma_turned_corner(cos2, sin2, index);
    let sx = side(index, 0);
    let sy = side(index, 1);
    let sz = side(index, 2);
    lemma_signed(sx, cos as int);
    lemma_signed(sx, sin as int);
    lemma_signed(sz, cos as int);
    lemma_signed(sz, sin as int);
    lemma_signed(sx, cos2 as int);
    lemma_signed(sx, sin2 as int);
    lemma_signed(sz, cos2 as int);
    lemma_signed(sz, sin2 as int);
    let u = turned_across(cos, sin, index);
    let u2 = turned_across(cos2, sin2, index);
    let far = -(turned_along(cos, sin, index) + CAMERA_DEPTH);
    let far2 = -(turned_along(cos2, sin2, index) + CAMERA_DEPTH);
    assert(magnitude(u2 - u) <= 2 * delta);
    assert(magnitude(far2 - far) <= 2 * delta);
    assert(far >= 32768 && far2 >= 32768);
    assert(magnitude(u) <= 4 * 32768 && magnitude(u2) <= 4 * 32768);
    let v = sy * 65536;
    assert(magnitude(v) <= 2 * 32768);

    // across the screen
    let n = -(u * SCALE_X);
    let n2 = -(u2 * SCALE_X);
    lemma_quotient_bounded(u, SCALE_X as int, far, 4);
    lemma_quotient_bounded(u2, SCALE_X as int, far2, 4);
    assert(magnitude(n2 - n) <= 2 * delta * 2621440);
    lemma_floor_ratio_stable(
        n,
        far,
        n2,
        far2,
        2 * delta * 2621440,
        2 * delta,
        10485761,
        32768,
        801 * delta,
    );

    // along its height
    let h = -(v * SCALE_Y);
    lemma_quotient_bounded(v, SCALE_Y as int, far, 2);
    lemma_quotient_bounded(v, SCALE_Y as int, far2, 2);
    lemma_floor_ratio_stable(h, far, h, far2, 0, 2 * delta, 2621441, 32768, 161 * delta);

    assert(world.0[0] == u && world.0[1] == v && world.0[2] == -far);
    assert(world2.0[0] == u2 && world2.0[1] == v && world2.0[2] == -far2);
    assert(screen_of(world).x == n / far + OFFSET_X);
    assert(screen_of(world2).x == n2 / far2 + OFFSET_X);
    assert(screen_of(world).y == h / far + OFFSET_Y);
    assert(screen_of(world2).y == h / far2 + OFFSET_Y);
    assert(screen_positions(rotation(cos, sin))[index] == screen_of(world));
    assert(screen_positions(rotation(cos2, sin2))[index] == screen_of(world2));
}

} // verus!
