use vstd::prelude::*;
use crate::fixed::ONE;
use crate::matrix::{Mat3, Matrix, entries_within};
use crate::transform::{
    is_point_mat, shift_pts, scale_cols, rot_cols, translation_matrix, scale_matrix,
    rotation_matrix, lemma_mul_translation, lemma_mul_scale, lemma_mul_rotation,
};

verus! {

/// A 2D point in fixed-point coordinates.
#[derive(Clone, Copy, PartialEq, Eq, Structural, Debug)]
pub struct Point2D {
    pub x: i64,
    pub y: i64,
}

/// An RGB draw color.
#[derive(Clone, Copy, PartialEq, Eq, Structural, Debug)]
pub struct Color {
    pub r: u8,
    pub g: u8,
    pub b: u8,
}

/// One rasterized pixel: integer surface coordinates and the color written
/// there.
#[derive(Clone, Copy, PartialEq, Eq, Structural, Debug)]
pub struct PixelWrite {
    pub x: i32,
    pub y: i32,
    pub color: Color,
}

/// Largest coordinate magnitude a shape may store, in raw fixed-point units.
pub const COORD_LIMIT: i64 = 1_000_000_000_000;

/// Largest scale factor magnitude, in raw fixed-point units.
pub const SCALE_LIMIT: i64 = 10_000_000_000;

/// Bound on intermediate entries right after the scale step of the pivot
/// composition.
const SCALED_LIMIT: i64 = 2_000_000_000_000_000_000;

/// A shape scaled about its own anchor: carry every row to the anchor, apply
/// the raw scale columns, carry it back.
pub open spec fn scale_pts(m: Mat3, kx: int, ky: int) -> Mat3 {
    shift_pts(scale_cols(shift_pts(m, -m.m20, -m.m21), kx, ky), m.m20, m.m21)
}

/// A shape rotated about its own anchor: carry every row to the anchor,
/// apply the raw rotation columns, carry it back.
pub open spec fn rotate_pts(m: Mat3, c: int, s: int) -> Mat3 {
    shift_pts(rot_cols(shift_pts(m, -m.m20, -m.m21), c, s), m.m20, m.m21)
}

/// The capability set every drawable 2D shape provides: conversion to and
/// from a homogeneous point matrix, and rasterization.  Translation, scaling
/// and rotation about the shape's own anchor are shared behavior, written
/// once against those conversions.
pub trait Primitive2D: Sized {
    /// The shape's point-set matrix: one homogeneous row per stored point,
    /// the anchor row last.
    spec fn model(&self) -> Mat3;

    /// Structural invariant on the stored geometry.
    spec fn inv(&self) -> bool;

    /// What the shape keeps of a point matrix handed to `from_matrix`.
    spec fn restored(m: Mat3) -> Mat3;

    /// The shape's draw color.
    spec fn color(&self) -> Color;

    /// The pixels the shape rasterizes to.
    spec fn pixels(&self) -> Seq<PixelWrite>;

    /// Serializes the current geometry, anchor included, into a point matrix.
    fn to_matrix(&self) -> (m: Matrix)
        requires
            self.inv(),
        ensures
            m@ == self.model(),
            is_point_mat(m@),
            entries_within(m@, COORD_LIMIT as int);

    /// Reads a transformed point matrix back into the shape's own fields.
    fn from_matrix(&mut self, m: &Matrix)
        requires
            old(self).inv(),
            is_point_mat(m@),
            entries_within(m@, COORD_LIMIT as int),
        ensures
            final(self).inv(),
            final(self).model() == Self::restored(m@),
            final(self).color() == old(self).color();

    /// Rasterizes the shape: one entry per covered pixel.
    fn draw(&self) -> (v: Vec<PixelWrite>)
        requires
            self.inv(),
        ensures
            v@ == self.pixels();

    /// Shifts the shape by `(dx, dy)`.  The pivot composition
    /// `obj * T(-x,-y) * T(dx,dy) * T(x,y)` collapses to a plain shift of
    /// every row, with no rounding at all.
    fn translate(&mut self, dx: i64, dy: i64)
        requires
            old(self).inv(),
            entries_within(shift_pts(old(self).model(), dx as int, dy as int), COORD_LIMIT as int),
        ensures
            final(self).inv(),
            final(self).color() == old(self).color(),
            final(self).model() == Self::restored(shift_pts(old(self).model(), dx as int, dy as int)),
    {
        let obj = self.to_matrix();
        let x = obj.m20;
        let y = obj.m21;
        proof {
            lemma_mul_translation(obj@, -(x as int), -(y as int), COORD_LIMIT as int);
        }
        let m1 = obj.mul(&translation_matrix(-x, -y));
        proof {
            lemma_mul_translation(m1@, dx as int, dy as int, 2 * COORD_LIMIT as int);
        }
        let m2 = m1.mul(&translation_matrix(dx, dy));
        proof {
            lemma_mul_translation(m2@, x as int, y as int, 4 * COORD_LIMIT as int);
        }
        let m3 = m2.mul(&translation_matrix(x, y));
        self.from_matrix(&m3);
    }

    /// Scales the shape by `(sx, sy)` about its own anchor, so repeated
    /// scaling keeps the shape centered instead of drifting.
    fn scale(&mut self, sx: i64, sy: i64)
        requires
            old(self).inv(),
            -SCALE_LIMIT <= sx <= SCALE_LIMIT,
            -SCALE_LIMIT <= sy <= SCALE_LIMIT,
            entries_within(scale_pts(old(self).model(), sx as int, sy as int), COORD_LIMIT as int),
        ensures
            final(self).inv(),
            final(self).color() == old(self).color(),
            final(self).model() == Self::restored(scale_pts(old(self).model(), sx as int, sy as int)),
    {
        let obj = self.to_matrix();
        let x = obj.m20;
        let y = obj.m21;
        proof {
            lemma_mul_translation(obj@, -(x as int), -(y as int), COORD_LIMIT as int);
        }
        let m1 = obj.mul(&translation_matrix(-x, -y));
        proof {
            lemma_mul_scale(
                m1@, sx as int, sy as int, 2 * COORD_LIMIT as int, SCALE_LIMIT as int,
                SCALED_LIMIT as int,
            );
        }
        let m2 = m1.mul(&scale_matrix(sx, sy));
        proof {
            lemma_mul_translation(m2@, x as int, y as int, SCALED_LIMIT as int);
        }
        let m3 = m2.mul(&translation_matrix(x, y));
        self.from_matrix(&m3);
    }

    /// Rotates the shape about its own anchor.  The angle enters as its
    /// fixed-point cosine and sine.
    fn rotate(&mut self, c: i64, s: i64)
        requires
            old(self).inv(),
            -ONE <= c <= ONE,
            -ONE <= s <= ONE,
            entries_within(rotate_pts(old(self).model(), c as int, s as int), COORD_LIMIT as int),
        ensures
            final(self).inv(),
            final(self).color() == old(self).color(),
            final(self).model() == Self::restored(rotate_pts(old(self).model(), c as int, s as int)),
    {
        let obj = self.to_matrix();
        let x = obj.m20;
        let y = obj.m21;
        proof {
            lemma_mul_translation(obj@, -(x as int), -(y as int), COORD_LIMIT as int);
        }
        let m1 = obj.mul(&translation_matrix(-x, -y));
        proof {
            lemma_mul_rotation(m1@, c as int, s as int, 2 * COORD_LIMIT as int);
        }
        let m2 = m1.mul(&rotation_matrix(c, s));
        proof {
            lemma_mul_translation(m2@, x as int, y as int, 4 * COORD_LIMIT as int);
        }
        let m3 = m2.mul(&translation_matrix(x, y));
        self.from_matrix(&m3);
    }
}

} // verus!
