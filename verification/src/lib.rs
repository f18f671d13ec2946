//! A wireframe cube, rotated, projected and rasterised into a grid of
//! characters, in exact fixed-point arithmetic.
pub mod bounds;
pub mod cube;
pub mod fixed;
pub mod frame;
pub mod linalg;
pub mod projection;
pub mod raster;
pub mod render;
pub mod visibility;
