//! A verified 2D affine-transformation core.
//!
//! Shapes are moved, scaled and rotated about their own anchor point through
//! homogeneous-coordinate 3x3 matrices.  All geometry is carried in
//! fixed-point integers (see [`fixed::ONE`]), so every operation has an exact
//! contract; the platform layer that owns the window, the keyboard and the
//! frame buffer converts at the boundary.

pub mod fixed;
pub mod matrix;
pub mod transform;
pub mod primitives;
pub mod raster;
pub mod line;
pub mod frame;
