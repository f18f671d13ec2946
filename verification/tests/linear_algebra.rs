use spinning_cube::fixed::ONE;
use spinning_cube::linalg::matrix_times_vector;
use spinning_cube::linalg::Matrix;
use spinning_cube::linalg::Vector;

fn identity() -> Matrix {
    Matrix([[ONE, 0, 0, 0], [0, ONE, 0, 0], [0, 0, ONE, 0], [0, 0, 0, ONE]])
}

#[test]
fn identity_matrix_keeps_the_vector() {
    let v = Vector([3 * ONE, -2 * ONE, 12345, ONE]);
    assert_eq!(matrix_times_vector(&identity(), &v), v);
}

#[test]
fn zero_matrix_gives_the_zero_vector() {
    let m = Matrix([[0; 4]; 4]);
    let v = Vector([3 * ONE, -2 * ONE, 12345, ONE]);
    assert_eq!(matrix_times_vector(&m, &v), Vector([0, 0, 0, 0]));
}

#[test]
fn the_last_column_translates() {
    let mut m = identity();
    m.0[3] = [5 * ONE, -7 * ONE, ONE / 2, ONE];
    let v = Vector([ONE, 2 * ONE, 3 * ONE, ONE]);
    assert_eq!(
        matrix_times_vector(&m, &v),
        Vector([6 * ONE, -5 * ONE, 3 * ONE + ONE / 2, ONE])
    );
}

#[test]
fn a_component_weights_its_own_column() {
    let m = Matrix([
        [0, ONE, 0, 0],
        [0, 0, 2 * ONE, 0],
        [3 * ONE, 0, 0, 0],
        [0, 0, 0, 4 * ONE],
    ]);
    assert_eq!(
        matrix_times_vector(&m, &Vector([ONE, 0, 0, 0])),
        Vector([0, ONE, 0, 0])
    );
    assert_eq!(
        matrix_times_vector(&m, &Vector([0, ONE, 0, 0])),
        Vector([0, 0, 2 * ONE, 0])
    );
    assert_eq!(
        matrix_times_vector(&m, &Vector([0, 0, ONE, 0])),
        Vector([3 * ONE, 0, 0, 0])
    );
    assert_eq!(
        matrix_times_vector(&m, &Vector([0, 0, 0, ONE])),
        Vector([0, 0, 0, 4 * ONE])
    );
}

#[test]
fn the_product_is_the_weighted_sum_of_the_columns() {
    let m = Matrix([
        [ONE, 2 * ONE, 3 * ONE, 4 * ONE],
        [5 * ONE, 6 * ONE, 7 * ONE, 8 * ONE],
        [9 * ONE, 10 * ONE, 11 * ONE, 12 * ONE],
        [13 * ONE, 14 * ONE, 15 * ONE, 16 * ONE],
    ]);
    let v = Vector([ONE, -ONE, 2 * ONE, ONE / 2]);
    // 1*col0 - 1*col1 + 2*col2 + 0.5*col3
    assert_eq!(
        matrix_times_vector(&m, &v),
        Vector([
            (1 - 5 + 18) * ONE + 13 * ONE / 2,
            (2 - 6 + 20 + 7) * ONE,
            (3 - 7 + 22) * ONE + 15 * ONE / 2,
            (4 - 8 + 24 + 8) * ONE,
        ])
    );
}

#[test]
fn a_quarter_turn_about_the_vertical_axis() {
    // cos = 0, sin = 1
    let m = Matrix([[0, 0, ONE, 0], [0, ONE, 0, 0], [-ONE, 0, 0, 0], [0, 0, 0, ONE]]);
    assert_eq!(
        matrix_times_vector(&m, &Vector([ONE, 0, 0, ONE])),
        Vector([0, 0, ONE, ONE])
    );
    assert_eq!(
        matrix_times_vector(&m, &Vector([0, 0, ONE, ONE])),
        Vector([-ONE, 0, 0, ONE])
    );
}

#[test]
fn products_are_rounded_down() {
    let half = Matrix([[ONE / 2, 0, 0, 0], [0, 0, 0, 0], [0, 0, 0, 0], [0, 0, 0, 0]]);
    assert_eq!(matrix_times_vector(&half, &Vector([1, 0, 0, 0])).0[0], 0);
    assert_eq!(matrix_times_vector(&half, &Vector([-1, 0, 0, 0])).0[0], -1);
    assert_eq!(matrix_times_vector(&half, &Vector([3, 0, 0, 0])).0[0], 1);
    assert_eq!(matrix_times_vector(&half, &Vector([-3, 0, 0, 0])).0[0], -2);
}

#[test]
fn the_sum_is_rounded_once() {
    // Four quarters of the smallest step add up to one step before rounding.
    let m = Matrix([[ONE / 4, 0, 0, 0]; 4]);
    assert_eq!(matrix_times_vector(&m, &Vector([1, 1, 1, 1])).0[0], 1);
}

#[test]
fn components_that_do_not_fit_are_clamped() {
    let m = Matrix([[i32::MAX, i32::MIN, 0, 0], [0; 4], [0; 4], [0; 4]]);
    let r = matrix_times_vector(&m, &Vector([i32::MAX, 0, 0, 0]));
    assert_eq!(r, Vector([i32::MAX, i32::MIN, 0, 0]));
    let all = Matrix([[i32::MIN; 4]; 4]);
    let r = matrix_times_vector(&all, &Vector([i32::MIN; 4]));
    assert_eq!(r, Vector([i32::MAX; 4]));
}
