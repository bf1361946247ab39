use vstd::prelude::*;
use crate::fixed::{ONE, tdiv, lemma_tdiv_exact, lemma_tdiv_le};
use crate::matrix::{Mat3, Matrix, dot3, mat_mul, s_identity, entries_within, mul_in_range, ENTRY_MAX};

verus! {

/// A point matrix: one homogeneous point per row, third column at unit scale.
pub open spec fn is_point_mat(m: Mat3) -> bool {
    &&& m.m02 == ONE as int
    &&& m.m12 == ONE as int
    &&& m.m22 == ONE as int
}

/// Every point row shifted by `(u, v)`.
pub open spec fn shift_pts(m: Mat3, u: int, v: int) -> Mat3 {
    Mat3 {
        m00: m.m00 + u,
        m01: m.m01 + v,
        m02: ONE as int,
        m10: m.m10 + u,
        m11: m.m11 + v,
        m12: ONE as int,
        m20: m.m20 + u,
        m21: m.m21 + v,
        m22: ONE as int,
    }
}

/// Every point row scaled about the origin by `(kx, ky)`, with one
/// truncating rescale per coordinate.
pub open spec fn scale_cols(m: Mat3, kx: int, ky: int) -> Mat3 {
    Mat3 {
        m00: tdiv(m.m00 * kx, ONE as int),
        m01: tdiv(m.m01 * ky, ONE as int),
        m02: ONE as int,
        m10: tdiv(m.m10 * kx, ONE as int),
        m11: tdiv(m.m11 * ky, ONE as int),
        m12: ONE as int,
        m20: tdiv(m.m20 * kx, ONE as int),
        m21: tdiv(m.m21 * ky, ONE as int),
        m22: ONE as int,
    }
}

/// Every point row rotated about the origin by the angle whose fixed-point
/// cosine and sine are `(c, s)`, with one truncating rescale per coordinate.
pub open spec fn rot_cols(m: Mat3, c: int, s: int) -> Mat3 {
    Mat3 {
        m00: tdiv(m.m00 * c - m.m01 * s, ONE as int),
        m01: tdiv(m.m00 * s + m.m01 * c, ONE as int),
        m02: ONE as int,
        m10: tdiv(m.m10 * c - m.m11 * s, ONE as int),
        m11: tdiv(m.m10 * s + m.m11 * c, ONE as int),
        m12: ONE as int,
        m20: tdiv(m.m20 * c - m.m21 * s, ONE as int),
        m21: tdiv(m.m20 * s + m.m21 * c, ONE as int),
        m22: ONE as int,
    }
}

/// Translation by `(dx, dy)` in homogeneous row-vector form.
pub open spec fn s_translation(dx: int, dy: int) -> Mat3 {
    Mat3 {
        m00: ONE as int,
        m01: 0,
        m02: 0,
        m10: 0,
        m11: ONE as int,
        m12: 0,
        m20: dx,
        m21: dy,
        m22: ONE as int,
    }
}

/// Scaling of the positional axes by `(sx, sy)` in homogeneous form.
pub open spec fn s_scale(sx: int, sy: int) -> Mat3 {
    Mat3 {
        m00: sx,
        m01: 0,
        m02: 0,
        m10: 0,
        m11: sy,
        m12: 0,
        m20: 0,
        m21: 0,
        m22: ONE as int,
    }
}

/// Rotation in homogeneous row-vector form.  The angle enters as its
/// fixed-point cosine and sine, the one trigonometric convention this crate
/// uses; a rotation by zero is `(c, s) == (ONE, 0)`.
pub open spec fn s_rotation(c: int, s: int) -> Mat3 {
    Mat3 {
        m00: c,
        m01: s,
        m02: 0,
        m10: -s,
        m11: c,
        m12: 0,
        m20: 0,
        m21: 0,
        m22: ONE as int,
    }
}

/// Builds the translation matrix for an offset of `(dx, dy)`.
pub fn translation_matrix(dx: i64, dy: i64) -> (r: Matrix)
    ensures
        r@ == s_translation(dx as int, dy as int),
{
    Matrix { m00: ONE, m01: 0, m02: 0, m10: 0, m11: ONE, m12: 0, m20: dx, m21: dy, m22: ONE }
}

/// Builds the scale matrix for factors `(sx, sy)` at fixed-point scale.
pub fn scale_matrix(sx: i64, sy: i64) -> (r: Matrix)
    ensures
        r@ == s_scale(sx as int, sy as int),
{
    Matrix { m00: sx, m01: 0, m02: 0, m10: 0, m11: sy, m12: 0, m20: 0, m21: 0, m22: ONE }
}

/// Builds the rotation matrix from the angle's fixed-point cosine and sine.
pub fn rotation_matrix(c: i64, s: i64) -> (r: Matrix)
    requires
        s > i64::MIN,
    ensures
        r@ == s_rotation(c as int, s as int),
{
    Matrix { m00: c, m01: s, m02: 0, m10: -s, m11: c, m12: 0, m20: 0, m21: 0, m22: ONE }
}

/// law: the zero translation, the unit scale and the zero rotation are each
/// the identity matrix.
pub proof fn lemma_builders_identity()
    ensures
        s_translation(0, 0) == s_identity(),
        s_scale(ONE as int, ONE as int) == s_identity(),
        s_rotation(ONE as int, 0) == s_identity(),
{
}

/// Multiplying a point matrix by a translation shifts every row exactly:
/// the rescaling division loses nothing.
pub proof fn lemma_mul_translation(m: Mat3, u: int, v: int, b: int)
    requires
        is_point_mat(m),
        entries_within(m, b),
        -b <= u <= b,
        -b <= v <= b,
        0 <= 2 * b <= ENTRY_MAX as int,
    ensures
        mat_mul(m, s_translation(u, v)) == shift_pts(m, u, v),
        is_point_mat(shift_pts(m, u, v)),
        entries_within(shift_pts(m, u, v), 2 * b),
        entries_within(s_translation(u, v), ENTRY_MAX as int),
        mul_in_range(m, s_translation(u, v)),
{
    lemma_dot_tx(m.m00, m.m01, m.m02, u);
    lemma_dot_tx(m.m10, m.m11, m.m12, u);
    lemma_dot_tx(m.m20, m.m21, m.m22, u);
    lemma_dot_ty(m.m00, m.m01, m.m02, v);
    lemma_dot_ty(m.m10, m.m11, m.m12, v);
    lemma_dot_ty(m.m20, m.m21, m.m22, v);
    lemma_dot_unit(m.m00, m.m01, m.m02);
    lemma_dot_unit(m.m10, m.m11, m.m12);
    lemma_dot_unit(m.m20, m.m21, m.m22);
    lemma_tdiv_exact(m.m00 + u, ONE as int);
    lemma_tdiv_exact(m.m01 + v, ONE as int);
    lemma_tdiv_exact(m.m10 + u, ONE as int);
    lemma_tdiv_exact(m.m11 + v, ONE as int);
    lemma_tdiv_exact(m.m20 + u, ONE as int);
    lemma_tdiv_exact(m.m21 + v, ONE as int);
    lemma_tdiv_exact(ONE as int, ONE as int);
}

/// Multiplying a point matrix by a scale matrix scales both coordinate
/// columns, one truncating rescale per entry.
pub proof fn lemma_mul_scale(m: Mat3, kx: int, ky: int, b: int, kb: int, q: int)
    requires
        is_point_mat(m),
        entries_within(m, b),
        -kb <= kx <= kb,
        -kb <= ky <= kb,
        0 <= b <= ENTRY_MAX as int,
        0 <= kb <= ENTRY_MAX as int,
        ONE as int <= q <= i64::MAX as int,
        b * kb <= q * (ONE as int),
    ensures
        mat_mul(m, s_scale(kx, ky)) == scale_cols(m, kx, ky),
        is_point_mat(scale_cols(m, kx, ky)),
        entries_within(scale_cols(m, kx, ky), q),
        entries_within(s_scale(kx, ky), ENTRY_MAX as int),
        mul_in_range(m, s_scale(kx, ky)),
{
    lemma_dot_unit(m.m00, m.m01, m.m02);
    lemma_dot_unit(m.m10, m.m11, m.m12);
    lemma_dot_unit(m.m20, m.m21, m.m22);
    lemma_dot_sc(m.m00, m.m01, m.m02, kx, ky);
    lemma_dot_sc(m.m10, m.m11, m.m12, kx, ky);
    lemma_dot_sc(m.m20, m.m21, m.m22, kx, ky);
    lemma_tdiv_exact(ONE as int, ONE as int);
    assert(-(b * kb) <= m.m00 * kx <= b * kb) by (nonlinear_arith)
        requires
            -b <= m.m00 <= b,
            -kb <= kx <= kb,
            0 <= b,
            0 <= kb;
    assert(-(b * kb) <= m.m01 * ky <= b * kb) by (nonlinear_arith)
        requires
            -b <= m.m01 <= b,
            -kb <= ky <= kb,
            0 <= b,
            0 <= kb;
    assert(-(b * kb) <= m.m10 * kx <= b * kb) by (nonlinear_arith)
        requires
            -b <= m.m10 <= b,
            -kb <= kx <= kb,
            0 <= b,
            0 <= kb;
    assert(-(b * kb) <= m.m11 * ky <= b * kb) by (nonlinear_arith)
        requires
            -b <= m.m11 <= b,
            -kb <= ky <= kb,
            0 <= b,
            0 <= kb;
    assert(-(b * kb) <= m.m20 * kx <= b * kb) by (nonlinear_arith)
        requires
            -b <= m.m20 <= b,
            -kb <= kx <= kb,
            0 <= b,
            0 <= kb;
    assert(-(b * kb) <= m.m21 * ky <= b * kb) by (nonlinear_arith)
        requires
            -b <= m.m21 <= b,
            -kb <= ky <= kb,
            0 <= b,
            0 <= kb;
    lemma_tdiv_le(m.m00 * kx, ONE as int, q);
    lemma_tdiv_le(m.m01 * ky, ONE as int, q);
    lemma_tdiv_le(m.m10 * kx, ONE as int, q);
    lemma_tdiv_le(m.m11 * ky, ONE as int, q);
    lemma_tdiv_le(m.m20 * kx, ONE as int, q);
    lemma_tdiv_le(m.m21 * ky, ONE as int, q);
}

/// Multiplying a point matrix by a rotation matrix turns both coordinate
/// columns, one truncating rescale per entry.
pub proof fn lemma_mul_rotation(m: Mat3, c: int, s: int, b: int)
    requires
        is_point_mat(m),
        entries_within(m, b),
        -(ONE as int) <= c <= ONE as int,
        -(ONE as int) <= s <= ONE as int,
        ONE as int <= b,
        4 * b <= ENTRY_MAX as int,
    ensures
        mat_mul(m, s_rotation(c, s)) == rot_cols(m, c, s),
        is_point_mat(rot_cols(m, c, s)),
        entries_within(rot_cols(m, c, s), 2 * b),
        entries_within(s_rotation(c, s), ENTRY_MAX as int),
        mul_in_range(m, s_rotation(c, s)),
{
    lemma_dot_unit(m.m00, m.m01, m.m02);
    lemma_dot_unit(m.m10, m.m11, m.m12);
    lemma_dot_unit(m.m20, m.m21, m.m22);
    lemma_dot_rot(m.m00, m.m01, m.m02, c, s);
    lemma_dot_rot(m.m10, m.m11, m.m12, c, s);
    lemma_dot_rot(m.m20, m.m21, m.m22, c, s);
    lemma_tdiv_exact(ONE as int, ONE as int);
    lemma_rot_row(m.m00, m.m01, c, s, b);
    lemma_rot_row(m.m10, m.m11, c, s, b);
    lemma_rot_row(m.m20, m.m21, c, s, b);
    lemma_tdiv_le(m.m00 * c - m.m01 * s, ONE as int, 2 * b);
    lemma_tdiv_le(m.m00 * s + m.m01 * c, ONE as int, 2 * b);
    lemma_tdiv_le(m.m10 * c - m.m11 * s, ONE as int, 2 * b);
    lemma_tdiv_le(m.m10 * s + m.m11 * c, ONE as int, 2 * b);
    lemma_tdiv_le(m.m20 * c - m.m21 * s, ONE as int, 2 * b);
    lemma_tdiv_le(m.m20 * s + m.m21 * c, ONE as int, 2 * b);
}

/// One point row against the first translation column.
proof fn lemma_dot_tx(x: int, y: int, w: int, u: int)
    requires
        w == ONE as int,
    ensures
        dot3(x, y, w, ONE as int, 0, u) == (x + u) * (ONE as int),
{
    assert(x * (ONE as int) + y * 0 + w * u == (x + u) * (ONE as int)) by (nonlinear_arith)
        requires
            w == ONE as int;
}

/// One point row against the second translation column.
proof fn lemma_dot_ty(x: int, y: int, w: int, v: int)
    requires
        w == ONE as int,
    ensures
        dot3(x, y, w, 0, ONE as int, v) == (y + v) * (ONE as int),
{
    assert(x * 0 + y * (ONE as int) + w * v == (y + v) * (ONE as int)) by (nonlinear_arith)
        requires
            w == ONE as int;
}

/// One point row against the homogeneous column shared by every builder.
proof fn lemma_dot_unit(x: int, y: int, w: int)
    requires
        w == ONE as int,
    ensures
        dot3(x, y, w, 0, 0, ONE as int) == (ONE as int) * (ONE as int),
{
    assert(x * 0 + y * 0 + w * (ONE as int) == (ONE as int) * (ONE as int)) by (nonlinear_arith)
        requires
            w == ONE as int;
}

/// One point row against the two coordinate columns of a scale matrix.
proof fn lemma_dot_sc(x: int, y: int, w: int, kx: int, ky: int)
    ensures
        dot3(x, y, w, kx, 0, 0) == x * kx,
        dot3(x, y, w, 0, ky, 0) == y * ky,
{
    assert(x * kx + y * 0 + w * 0 == x * kx) by (nonlinear_arith);
    assert(x * 0 + y * ky + w * 0 == y * ky) by (nonlinear_arith);
}

/// One point row against the two coordinate columns of a rotation matrix.
proof fn lemma_dot_rot(x: int, y: int, w: int, c: int, s: int)
    ensures
        dot3(x, y, w, c, -s, 0) == x * c - y * s,
        dot3(x, y, w, s, c, 0) == x * s + y * c,
{
    assert(x * c + y * (-s) + w * 0 == x * c - y * s) by (nonlinear_arith);
    assert(x * s + y * c + w * 0 == x * s + y * c) by (nonlinear_arith);
}

/// One row of the rotation product: the signs work out and the raw entries
/// stay within `2 * b * ONE`.
proof fn lemma_rot_row(x: int, y: int, c: int, s: int, b: int)
    requires
        -b <= x <= b,
        -b <= y <= b,
        -(ONE as int) <= c <= ONE as int,
        -(ONE as int) <= s <= ONE as int,
        0 <= b,
    ensures
        x * c + y * (-s) == x * c - y * s,
        -(2 * b * (ONE as int)) <= x * c - y * s <= 2 * b * (ONE as int),
        -(2 * b * (ONE as int)) <= x * s + y * c <= 2 * b * (ONE as int),
{
    assert(y * (-s) == -(y * s)) by (nonlinear_arith);
    assert(-(b * (ONE as int)) <= x * c <= b * (ONE as int)) by (nonlinear_arith)
        requires
            -b <= x <= b,
            -(ONE as int) <= c <= ONE as int,
            0 <= b;
    assert(-(b * (ONE as int)) <= y * s <= b * (ONE as int)) by (nonlinear_arith)
        requires
            -b <= y <= b,
            -(ONE as int) <= s <= ONE as int,
            0 <= b;
    assert(-(b * (ONE as int)) <= x * s <= b * (ONE as int)) by (nonlinear_arith)
        requires
            -b <= x <= b,
            -(ONE as int) <= s <= ONE as int,
            0 <= b;
    assert(-(b * (ONE as int)) <= y * c <= b * (ONE as int)) by (nonlinear_arith)
        requires
            -b <= y <= b,
            -(ONE as int) <= c <= ONE as int,
            0 <= b;
}

} // verus!
