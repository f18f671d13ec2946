//! Homogeneous vectors and 4x4 matrices over fixed-point scalars.
use crate::fixed::floor_div;
use crate::fixed::saturate;
use crate::fixed::saturate_i32;
use crate::fixed::ONE;
use vstd::prelude::*;

verus! {

/// A point of space in homogeneous coordinates: x, y, z and w.
#[derive(Clone, Copy, Debug, PartialEq, Eq)]
pub struct Vector(pub [i32; 4]);

/// A 4x4 matrix held as four columns: `self.0[k]` is column `k`, and
/// `self.0[k][i]` is the entry in row `i` of that column.
#[derive(Clone, Copy, Debug, PartialEq, Eq)]
pub struct Matrix(pub [[i32; 4]; 4]);

/// Row `row` of the exact product of `m` and `v`, before it is scaled back:
/// the sum of the columns' entries in that row, each weighted by the
/// component of `v` that belongs to the column.
pub open spec fn weighted_sum(m: Matrix, v: Vector, row: int) -> int {
    v.0[0] * m.0[0][row] + v.0[1] * m.0[1][row] + v.0[2] * m.0[2][row] + v.0[3] * m.0[3][row]
}

/// Component `row` of the matrix `m` applied to the vector `v`: the exact
/// weighted sum, scaled back to fixed point by rounding down, and clamped.
pub open spec fn transformed(m: Matrix, v: Vector, row: int) -> int {
    saturate(weighted_sum(m, v, row) / (ONE as int))
}

/// The matrix `m` applied to the vector `v`.
pub open spec fn apply(m: Matrix, v: Vector) -> Vector {
    Vector(
        [
            transformed(m, v, 0) as i32,
            transformed(m, v, 1) as i32,
            transformed(m, v, 2) as i32,
            transformed(m, v, 3) as i32,
        ],
    )
}

/// The exact product of two 32-bit values.
fn product(a: i32, b: i32) -> (p: i128)
    ensures
        p == a * b,
        -0x4000_0000_0000_0000 <= p <= 0x4000_0000_0000_0000,
{
    assert(-0x4000_0000_0000_0000 <= a * b <= 0x4000_0000_0000_0000) by (nonlinear_arith)
        requires
            -0x8000_0000 <= a <= 0x8000_0000,
            -0x8000_0000 <= b <= 0x8000_0000,
    ;
    a as i128 * b as i128
}

/// One component of the matrix applied to the vector.
fn transform_row(m: &Matrix, v: &Vector, row: usize) -> (r: i32)
    requires
        row < 4,
    ensures
        r == transformed(*m, *v, row as int),
{
    let sum: i128 = product(v.0[0], m.0[0][row]) + product(v.0[1], m.0[1][row]) + product(
        v.0[2],
        m.0[2][row],
    ) + product(v.0[3], m.0[3][row]);
    saturate_i32(floor_div(sum, 65536))
}

/// Applies the matrix `m` to the vector `v`.
///
/// The result is the sum of the four columns of `m`, the column `k` weighted
/// by component `k` of `v`. Each component of the sum is computed exactly,
/// rounded down to fixed point and clamped to the 32-bit range.
pub fn matrix_times_vector(m: &Matrix, v: &Vector) -> (r: Vector)
    ensures
        r == apply(*m, *v),
{
    let r = Vector(
        [
            transform_row(m, v, 0),
            transform_row(m, v, 1),
            transform_row(m, v, 2),
            transform_row(m, v, 3),
        ],
    );
    assert(r.0 =~= apply(*m, *v).0);
    r
}

} // verus!
