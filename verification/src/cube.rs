//! The cube: eight corners and six faces.
//!
//! ```text
//! 4    +------+  6
//!     /|     /|
//! 5  +------+ |  7
//!    | |    | |
//! 0  | +----|-+  2
//!    |/     |/
//! 1  +------+    3
//! ```
use crate::linalg::Vector;
use vstd::prelude::*;

verus! {

/// The corners of the cube, one unit from the origin along every axis, each
/// as its x, y, z and w.
pub const VERTICES: [[i32; 4]; 8] = [
    [-65536, -65536, -65536, 65536],
    [-65536, -65536, 65536, 65536],
    [65536, -65536, -65536, 65536],
    [65536, -65536, 65536, 65536],
    [-65536, 65536, -65536, 65536],
    [-65536, 65536, 65536, 65536],
    [65536, 65536, -65536, 65536],
    [65536, 65536, 65536, 65536],
];

/// The corners of each face, in the order that gives the face its winding
/// and its edges: every corner is joined to the one before it, and the first
/// to the last.
pub const FACES: [[u8; 4]; 6] = [
    [1, 5, 7, 3],
    [3, 7, 6, 2],
    [0, 4, 5, 1],
    [2, 6, 4, 0],
    [0, 1, 3, 2],
    [5, 4, 6, 7],
];

/// Corner `index` of the cube as a vector.
pub open spec fn vertex(index: int) -> Vector {
    Vector(VERTICES[index])
}

/// Every face names four corners of the cube.
pub proof fn lemma_faces_name_vertices(face: int, corner: int)
    requires
        0 <= face < 6,
        0 <= corner < 4,
    ensures
        FACES[face][corner] < 8,
{
}

/// Every corner has the coordinates plus or minus one and the weight one.
pub proof fn lemma_vertices_are_unit(vertex: int, axis: int)
    requires
        0 <= vertex < 8,
        0 <= axis < 3,
    ensures
        VERTICES[vertex][axis] == 65536 || VERTICES[vertex][axis] == -65536,
        VERTICES[vertex][3] == 65536,
{
}

} // verus!
