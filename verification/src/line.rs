use vstd::prelude::*;
use crate::fixed::{ONE, tdiv, tdiv128, lemma_tdiv_exact, lemma_tdiv_of_divisible, lemma_tdiv_le, lemma_tdiv_neg};
use crate::matrix::{Mat3, Matrix};
use crate::primitives::{Point2D, Color, PixelWrite, Primitive2D, COORD_LIMIT, scale_pts, rotate_pts};
use crate::transform::shift_pts;
use crate::raster::{line_pixels, line_len, line_pixel, PIX_LIMIT};

verus! {

/// Midpoint of two fixed-point coordinates, rounded toward zero.
pub open spec fn mid_s(a: int, b: int) -> int {
    tdiv(a + b, 2)
}

/// The point matrix of a segment: the two endpoint rows first, the anchor
/// row -- the segment's own midpoint -- last.
pub open spec fn line_model(x1: int, y1: int, x2: int, y2: int) -> Mat3 {
    Mat3 {
        m00: x1,
        m01: y1,
        m02: ONE as int,
        m10: x2,
        m11: y2,
        m12: ONE as int,
        m20: mid_s(x1, x2),
        m21: mid_s(y1, y2),
        m22: ONE as int,
    }
}

/// What a segment keeps of an arbitrary point matrix: the two endpoint rows;
/// the anchor row is recomputed as their midpoint, so the two conversions
/// stay consistent.
pub open spec fn line_restored(m: Mat3) -> Mat3 {
    line_model(m.m00, m.m01, m.m10, m.m11)
}

/// A matrix that is some segment's own model.
pub open spec fn is_line_model(m: Mat3) -> bool {
    m == line_model(m.m00, m.m01, m.m10, m.m11)
}

/// A whole transform step as a segment sees it: the point rows move, then
/// the anchor row is recomputed.
pub open spec fn l_translate(m: Mat3, dx: int, dy: int) -> Mat3 {
    line_restored(shift_pts(m, dx, dy))
}

/// Scaling about the anchor, as a segment sees it.
pub open spec fn l_scale(m: Mat3, kx: int, ky: int) -> Mat3 {
    line_restored(scale_pts(m, kx, ky))
}

/// Rotation about the anchor, as a segment sees it.
pub open spec fn l_rotate(m: Mat3, c: int, s: int) -> Mat3 {
    line_restored(rotate_pts(m, c, s))
}

/// Fixed-point coordinate to pixel coordinate: drop the scale, rounding
/// toward zero.
pub open spec fn px_s(v: int) -> int {
    tdiv(v, ONE as int)
}

/// A line segment: two endpoints and a draw color.
pub struct Line {
    pub p1: Point2D,
    pub p2: Point2D,
    pub color: Color,
}

/// Midpoint of two bounded fixed-point coordinates.
fn mid_coord(a: i64, b: i64) -> (r: i64)
    requires
        -COORD_LIMIT <= a <= COORD_LIMIT,
        -COORD_LIMIT <= b <= COORD_LIMIT,
    ensures
        r == mid_s(a as int, b as int),
        -COORD_LIMIT <= r <= COORD_LIMIT,
{
    proof {
        lemma_tdiv_le(a as int + b as int, 2, COORD_LIMIT as int);
    }
    tdiv128(a as i128 + b as i128, 2) as i64
}

/// Fixed-point coordinate to pixel coordinate, truncating toward zero.
fn to_px(v: i64) -> (r: i32)
    requires
        -COORD_LIMIT <= v <= COORD_LIMIT,
    ensures
        r as int == px_s(v as int),
        -PIX_LIMIT <= r <= PIX_LIMIT,
{
    proof {
        lemma_tdiv_le(v as int, ONE as int, PIX_LIMIT as int);
    }
    tdiv128(v as i128, ONE as i128) as i32
}

impl Line {
    /// Creates the segment with the given fixed-point endpoints and color.
    pub fn new(x1: i64, y1: i64, x2: i64, y2: i64, color: Color) -> (l: Line)
        requires
            -COORD_LIMIT <= x1 <= COORD_LIMIT,
            -COORD_LIMIT <= y1 <= COORD_LIMIT,
            -COORD_LIMIT <= x2 <= COORD_LIMIT,
            -COORD_LIMIT <= y2 <= COORD_LIMIT,
        ensures
            l.inv(),
            l.p1 == (Point2D { x: x1, y: y1 }),
            l.p2 == (Point2D { x: x2, y: y2 }),
            l.color == color,
    {
        Line { p1: Point2D { x: x1, y: y1 }, p2: Point2D { x: x2, y: y2 }, color }
    }
}

impl Primitive2D for Line {
    open spec fn model(&self) -> Mat3 {
        line_model(self.p1.x as int, self.p1.y as int, self.p2.x as int, self.p2.y as int)
    }

    open spec fn inv(&self) -> bool {
        &&& -COORD_LIMIT <= self.p1.x <= COORD_LIMIT
        &&& -COORD_LIMIT <= self.p1.y <= COORD_LIMIT
        &&& -COORD_LIMIT <= self.p2.x <= COORD_LIMIT
        &&& -COORD_LIMIT <= self.p2.y <= COORD_LIMIT
    }

    open spec fn restored(m: Mat3) -> Mat3 {
        line_restored(m)
    }

    open spec fn color(&self) -> Color {
        self.color
    }

    open spec fn pixels(&self) -> Seq<PixelWrite> {
        Seq::new(
            line_len(px_s(self.p1.x as int), px_s(self.p1.y as int), px_s(self.p2.x as int), px_s(self.p2.y as int)) as nat,
            |i: int| (PixelWrite {
                x: line_pixel(px_s(self.p1.x as int), px_s(self.p1.y as int), px_s(self.p2.x as int), px_s(self.p2.y as int), i).0 as i32,
                y: line_pixel(px_s(self.p1.x as int), px_s(self.p1.y as int), px_s(self.p2.x as int), px_s(self.p2.y as int), i).1 as i32,
                color: self.color,
            }),
        )
    }

    fn to_matrix(&self) -> (m: Matrix) {
        let mx = mid_coord(self.p1.x, self.p2.x);
        let my = mid_coord(self.p1.y, self.p2.y);
        Matrix {
            m00: self.p1.x,
            m01: self.p1.y,
            m02: ONE,
            m10: self.p2.x,
            m11: self.p2.y,
            m12: ONE,
            m20: mx,
            m21: my,
            m22: ONE,
        }
    }

    fn from_matrix(&mut self, m: &Matrix) {
        self.p1.x = m.m00;
        self.p1.y = m.m01;
        self.p2.x = m.m10;
        self.p2.y = m.m11;
    }

    fn draw(&self) -> (v: Vec<PixelWrite>) {
        let x0 = to_px(self.p1.x);
        let y0 = to_px(self.p1.y);
        let x1 = to_px(self.p2.x);
        let y1 = to_px(self.p2.y);
        let v = line_pixels(x0, y0, x1, y1, self.color);
        proof {
            assert(v@ =~= self.pixels());
        }
        v
    }
}

/// law: translating a segment by `(dx, dy)` and then by `(-dx, -dy)`
/// restores its endpoints exactly; translation never rounds.
pub proof fn lemma_translate_round_trip(m: Mat3, dx: int, dy: int)
    requires
        is_line_model(m),
    ensures
        l_translate(l_translate(m, dx, dy), -dx, -dy) == m,
{
}

/// law: the unit scale, the zero rotation and the zero translation each
/// leave a segment exactly where it was.
pub proof fn lemma_unit_ops(m: Mat3)
    requires
        is_line_model(m),
    ensures
        l_translate(m, 0, 0) == m,
        l_scale(m, ONE as int, ONE as int) == m,
        l_rotate(m, ONE as int, 0) == m,
{
    let ax = m.m20;
    let ay = m.m21;
    lemma_tdiv_exact(m.m00 - ax, ONE as int);
    lemma_tdiv_exact(m.m01 - ay, ONE as int);
    lemma_tdiv_exact(m.m10 - ax, ONE as int);
    lemma_tdiv_exact(m.m11 - ay, ONE as int);
    assert((m.m00 + -ax) * (ONE as int) == (m.m00 - ax) * (ONE as int));
    assert((m.m01 + -ay) * (ONE as int) == (m.m01 - ay) * (ONE as int));
    assert((m.m10 + -ax) * (ONE as int) == (m.m10 - ax) * (ONE as int));
    assert((m.m11 + -ay) * (ONE as int) == (m.m11 - ay) * (ONE as int));
    assert(l_scale(m, ONE as int, ONE as int) == m);
    assert((m.m00 + -ax) * (ONE as int) - (m.m01 + -ay) * 0 == (m.m00 - ax) * (ONE as int));
    assert((m.m00 + -ax) * 0 + (m.m01 + -ay) * (ONE as int) == (m.m01 - ay) * (ONE as int));
    assert((m.m10 + -ax) * (ONE as int) - (m.m11 + -ay) * 0 == (m.m10 - ax) * (ONE as int));
    assert((m.m10 + -ax) * 0 + (m.m11 + -ay) * (ONE as int) == (m.m11 - ay) * (ONE as int));
    assert(l_rotate(m, ONE as int, 0) == m);
}

/// law: scaling and rotating a segment leave its anchor -- the midpoint row
/// of `to_matrix` -- unchanged, while translating shifts it by exactly
/// `(dx, dy)`.  Stated for segments whose endpoint sums are even, so the
/// stored midpoint is exact.
pub proof fn lemma_anchor(m: Mat3, kx: int, ky: int, c: int, s: int, dx: int, dy: int)
    requires
        is_line_model(m),
        m.m00 + m.m10 == 2 * m.m20,
        m.m01 + m.m11 == 2 * m.m21,
    ensures
        l_scale(m, kx, ky).m20 == m.m20,
        l_scale(m, kx, ky).m21 == m.m21,
        l_rotate(m, c, s).m20 == m.m20,
        l_rotate(m, c, s).m21 == m.m21,
        l_translate(m, dx, dy).m20 == m.m20 + dx,
        l_translate(m, dx, dy).m21 == m.m21 + dy,
{
    let ax = m.m20;
    let ay = m.m21;
    let u1 = m.m00 - ax;
    let v1 = m.m01 - ay;
    assert(m.m10 - ax == -u1);
    assert(m.m11 - ay == -v1);
    // translation: the recomputed midpoint shifts with the endpoints
    lemma_tdiv_exact(ax + dx, 2);
    lemma_tdiv_exact(ay + dy, 2);
    assert((m.m00 + dx) + (m.m10 + dx) == (ax + dx) * 2);
    assert((m.m01 + dy) + (m.m11 + dy) == (ay + dy) * 2);
    // scaling: the two scaled offsets cancel in the midpoint
    assert((m.m00 + -ax) * kx == u1 * kx) by (nonlinear_arith)
        requires
            m.m00 + -ax == u1;
    assert((m.m10 + -ax) * kx == -(u1 * kx)) by (nonlinear_arith)
        requires
            m.m10 + -ax == -u1;
    assert((m.m01 + -ay) * ky == v1 * ky) by (nonlinear_arith)
        requires
            m.m01 + -ay == v1;
    assert((m.m11 + -ay) * ky == -(v1 * ky)) by (nonlinear_arith)
        requires
            m.m11 + -ay == -v1;
    lemma_tdiv_neg(u1 * kx, ONE as int);
    lemma_tdiv_neg(v1 * ky, ONE as int);
    lemma_tdiv_exact(ax, 2);
    lemma_tdiv_exact(ay, 2);
    assert((tdiv(u1 * kx, ONE as int) + ax) + (-tdiv(u1 * kx, ONE as int) + ax) == ax * 2);
    assert(l_scale(m, kx, ky).m20 == ax);
    assert(l_scale(m, kx, ky).m21 == ay);
    // rotation: the two rotated offsets cancel in the midpoint
    let rx1 = u1 * c - v1 * s;
    let ry1 = u1 * s + v1 * c;
    assert((m.m00 + -ax) * c - (m.m01 + -ay) * s == rx1) by (nonlinear_arith)
        requires
            m.m00 + -ax == u1,
            m.m01 + -ay == v1,
            rx1 == u1 * c - v1 * s;
    assert((m.m10 + -ax) * c - (m.m11 + -ay) * s == -rx1) by (nonlinear_arith)
        requires
            m.m10 + -ax == -u1,
            m.m11 + -ay == -v1,
            rx1 == u1 * c - v1 * s;
    assert((m.m00 + -ax) * s + (m.m01 + -ay) * c == ry1) by (nonlinear_arith)
        requires
            m.m00 + -ax == u1,
            m.m01 + -ay == v1,
            ry1 == u1 * s + v1 * c;
    assert((m.m10 + -ax) * s + (m.m11 + -ay) * c == -ry1) by (nonlinear_arith)
        requires
            m.m10 + -ax == -u1,
            m.m11 + -ay == -v1,
            ry1 == u1 * s + v1 * c;
    lemma_tdiv_neg(rx1, ONE as int);
    lemma_tdiv_neg(ry1, ONE as int);
    assert((tdiv(rx1, ONE as int) + ax) + (-tdiv(rx1, ONE as int) + ax) == ax * 2);
    assert(l_rotate(m, c, s).m20 == ax);
    assert(l_rotate(m, c, s).m21 == ay);
}

/// One coordinate scaled by `k` and back by its fixed-point reciprocal: when
/// the first product is an exact multiple of the scale, nothing is lost.
proof fn lemma_fix_scale_cancel(u: int, k: int, kinv: int)
    requires
        k * kinv == (ONE as int) * (ONE as int),
        (u * k) % (ONE as int) == 0,
    ensures
        tdiv(tdiv(u * k, ONE as int) * kinv, ONE as int) == u,
{
    let t = tdiv(u * k, ONE as int);
    lemma_tdiv_of_divisible(u * k, ONE as int);
    assert(t * kinv == u * (ONE as int)) by (nonlinear_arith)
        requires
            t * (ONE as int) == u * k,
            k * kinv == (ONE as int) * (ONE as int);
    lemma_tdiv_exact(u, ONE as int);
}

/// law: scaling a segment by `(k, k)` and then by the fixed-point reciprocal
/// restores it exactly, provided the endpoint sums are even and the scaled
/// offsets land on exact fixed-point multiples; on other inputs the single
/// rounding per step may lose the lowest bit.
pub proof fn lemma_scale_round_trip(m: Mat3, k: int, kinv: int)
    requires
        is_line_model(m),
        m.m00 + m.m10 == 2 * m.m20,
        m.m01 + m.m11 == 2 * m.m21,
        k * kinv == (ONE as int) * (ONE as int),
        ((m.m00 - m.m20) * k) % (ONE as int) == 0,
        ((m.m01 - m.m21) * k) % (ONE as int) == 0,
    ensures
        l_scale(l_scale(m, k, k), kinv, kinv) == m,
{
    let ax = m.m20;
    let ay = m.m21;
    let u1 = m.m00 - ax;
    let v1 = m.m01 - ay;
    lemma_anchor(m, k, k, ONE as int, 0, 0, 0);
    let m1 = l_scale(m, k, k);
    let t1 = tdiv(u1 * k, ONE as int);
    let w1 = tdiv(v1 * k, ONE as int);
    assert((m.m00 + -ax) * k == u1 * k) by (nonlinear_arith)
        requires
            m.m00 + -ax == u1;
    assert((m.m01 + -ay) * k == v1 * k) by (nonlinear_arith)
        requires
            m.m01 + -ay == v1;
    assert((m.m10 + -ax) * k == -(u1 * k)) by (nonlinear_arith)
        requires
            m.m10 + -ax == -u1;
    assert((m.m11 + -ay) * k == -(v1 * k)) by (nonlinear_arith)
        requires
            m.m11 + -ay == -v1;
    lemma_tdiv_neg(u1 * k, ONE as int);
    lemma_tdiv_neg(v1 * k, ONE as int);
    assert(m1.m00 == t1 + ax);
    assert(m1.m01 == w1 + ay);
    assert(m1.m10 == -t1 + ax);
    assert(m1.m11 == -w1 + ay);
    assert(m1.m20 == ax);
    assert(m1.m21 == ay);
    // the way back
    lemma_fix_scale_cancel(u1, k, kinv);
    lemma_fix_scale_cancel(v1, k, kinv);
    assert((m1.m00 + -ax) * kinv == t1 * kinv) by (nonlinear_arith)
        requires
            m1.m00 + -ax == t1;
    assert((m1.m01 + -ay) * kinv == w1 * kinv) by (nonlinear_arith)
        requires
            m1.m01 + -ay == w1;
    assert((m1.m10 + -ax) * kinv == -(t1 * kinv)) by (nonlinear_arith)
        requires
            m1.m10 + -ax == -t1;
    assert((m1.m11 + -ay) * kinv == -(w1 * kinv)) by (nonlinear_arith)
        requires
            m1.m11 + -ay == -w1;
    lemma_tdiv_neg(t1 * kinv, ONE as int);
    lemma_tdiv_neg(w1 * kinv, ONE as int);
    let m2 = l_scale(m1, kinv, kinv);
    assert(m2.m00 == m.m00);
    assert(m2.m01 == m.m01);
    assert(m2.m10 == m.m10);
    assert(m2.m11 == m.m11);
    assert(m2.m20 == m.m20);
    assert(m2.m21 == m.m21);
}

/// One offset rotated forward and back: with the cosine and sine on the
/// fixed-point unit circle and exact first products, both coordinates come
/// back unchanged.
proof fn lemma_fix_rotate_cancel(u: int, v: int, c: int, s: int)
    requires
        c * c + s * s == (ONE as int) * (ONE as int),
        (u * c - v * s) % (ONE as int) == 0,
        (u * s + v * c) % (ONE as int) == 0,
    ensures
        tdiv(tdiv(u * c - v * s, ONE as int) * c + tdiv(u * s + v * c, ONE as int) * s, ONE as int) == u,
        tdiv(tdiv(u * s + v * c, ONE as int) * c - tdiv(u * c - v * s, ONE as int) * s, ONE as int) == v,
{
    let p = tdiv(u * c - v * s, ONE as int);
    let q = tdiv(u * s + v * c, ONE as int);
    lemma_tdiv_of_divisible(u * c - v * s, ONE as int);
    lemma_tdiv_of_divisible(u * s + v * c, ONE as int);
    assert(p * c + q * s == u * (ONE as int)) by (nonlinear_arith)
        requires
            p * (ONE as int) == u * c - v * s,
            q * (ONE as int) == u * s + v * c,
            c * c + s * s == (ONE as int) * (ONE as int);
    assert(q * c - p * s == v * (ONE as int)) by (nonlinear_arith)
        requires
            p * (ONE as int) == u * c - v * s,
            q * (ONE as int) == u * s + v * c,
            c * c + s * s == (ONE as int) * (ONE as int);
    lemma_tdiv_exact(u, ONE as int);
    lemma_tdiv_exact(v, ONE as int);
}

/// law: rotating a segment by an angle and then by its opposite restores it
/// exactly, provided the cosine and sine lie on the fixed-point unit circle,
/// the endpoint sums are even, and the first rotation's products are exact
/// fixed-point multiples; on other inputs the single rounding per step may
/// lose the lowest bit.
pub proof fn lemma_rotate_round_trip(m: Mat3, c: int, s: int)
    requires
        is_line_model(m),
        m.m00 + m.m10 == 2 * m.m20,
        m.m01 + m.m11 == 2 * m.m21,
        c * c + s * s == (ONE as int) * (ONE as int),
        ((m.m00 - m.m20) * c - (m.m01 - m.m21) * s) % (ONE as int) == 0,
        ((m.m00 - m.m20) * s + (m.m01 - m.m21) * c) % (ONE as int) == 0,
    ensures
        l_rotate(l_rotate(m, c, s), c, -s) == m,
{
    let ax = m.m20;
    let ay = m.m21;
    let u1 = m.m00 - ax;
    let v1 = m.m01 - ay;
    lemma_anchor(m, ONE as int, ONE as int, c, s, 0, 0);
    let m1 = l_rotate(m, c, s);
    let p1 = tdiv(u1 * c - v1 * s, ONE as int);
    let q1 = tdiv(u1 * s + v1 * c, ONE as int);
    assert((m.m00 + -ax) * c - (m.m01 + -ay) * s == u1 * c - v1 * s) by (nonlinear_arith)
        requires
            m.m00 + -ax == u1,
            m.m01 + -ay == v1;
    assert((m.m00 + -ax) * s + (m.m01 + -ay) * c == u1 * s + v1 * c) by (nonlinear_arith)
        requires
            m.m00 + -ax == u1,
            m.m01 + -ay == v1;
    assert((m.m10 + -ax) * c - (m.m11 + -ay) * s == -(u1 * c - v1 * s)) by (nonlinear_arith)
        requires
            m.m10 + -ax == -u1,
            m.m11 + -ay == -v1;
    assert((m.m10 + -ax) * s + (m.m11 + -ay) * c == -(u1 * s + v1 * c)) by (nonlinear_arith)
        requires
            m.m10 + -ax == -u1,
            m.m11 + -ay == -v1;
    lemma_tdiv_neg(u1 * c - v1 * s, ONE as int);
    lemma_tdiv_neg(u1 * s + v1 * c, ONE as int);
    assert(m1.m00 == p1 + ax);
    assert(m1.m01 == q1 + ay);
    assert(m1.m10 == -p1 + ax);
    assert(m1.m11 == -q1 + ay);
    assert(m1.m20 == ax);
    assert(m1.m21 == ay);
    // the way back, by the opposite angle
    lemma_fix_rotate_cancel(u1, v1, c, s);
    assert((m1.m00 + -ax) * c - (m1.m01 + -ay) * (-s) == p1 * c + q1 * s) by (nonlinear_arith)
        requires
            m1.m00 + -ax == p1,
            m1.m01 + -ay == q1;
    assert((m1.m00 + -ax) * (-s) + (m1.m01 + -ay) * c == q1 * c - p1 * s) by (nonlinear_arith)
        requires
            m1.m00 + -ax == p1,
            m1.m01 + -ay == q1;
    assert((m1.m10 + -ax) * c - (m1.m11 + -ay) * (-s) == -(p1 * c + q1 * s)) by (nonlinear_arith)
        requires
            m1.m10 + -ax == -p1,
            m1.m11 + -ay == -q1;
    assert((m1.m10 + -ax) * (-s) + (m1.m11 + -ay) * c == -(q1 * c - p1 * s)) by (nonlinear_arith)
        requires
            m1.m10 + -ax == -p1,
            m1.m11 + -ay == -q1;
    lemma_tdiv_neg(p1 * c + q1 * s, ONE as int);
    lemma_tdiv_neg(q1 * c - p1 * s, ONE as int);
    let m2 = l_rotate(m1, c, -s);
    assert(m2.m00 == m.m00);
    assert(m2.m01 == m.m01);
    assert(m2.m10 == m.m10);
    assert(m2.m11 == m.m11);
    assert(m2.m20 == m.m20);
    assert(m2.m21 == m.m21);
}

} // verus!
