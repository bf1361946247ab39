use vstd::prelude::*;
use crate::fixed::{ONE, tdiv, lemma_tdiv_exact, tdiv128};

verus! {

/// Mathematical model of a 3x3 matrix: nine unbounded integer entries,
/// row-major.
pub ghost struct Mat3 {
    pub m00: int,
    pub m01: int,
    pub m02: int,
    pub m10: int,
    pub m11: int,
    pub m12: int,
    pub m20: int,
    pub m21: int,
    pub m22: int,
}

/// A 3x3 fixed-point matrix, row-major.  Row vectors multiply on the left,
/// so transforms compose left to right.
#[derive(Clone, Copy, PartialEq, Eq, Structural)]
pub struct Matrix {
    pub m00: i64,
    pub m01: i64,
    pub m02: i64,
    pub m10: i64,
    pub m11: i64,
    pub m12: i64,
    pub m20: i64,
    pub m21: i64,
    pub m22: i64,
}

impl View for Matrix {
    type V = Mat3;

    open spec fn view(&self) -> Mat3 {
        Mat3 {
            m00: self.m00 as int,
            m01: self.m01 as int,
            m02: self.m02 as int,
            m10: self.m10 as int,
            m11: self.m11 as int,
            m12: self.m12 as int,
            m20: self.m20 as int,
            m21: self.m21 as int,
            m22: self.m22 as int,
        }
    }
}

/// Inner product of a row and a column.
pub open spec fn dot3(a0: int, a1: int, a2: int, b0: int, b1: int, b2: int) -> int {
    a0 * b0 + a1 * b1 + a2 * b2
}

/// Exact integer product of two matrices, before fixed-point rescaling.
pub open spec fn mat_prod(a: Mat3, b: Mat3) -> Mat3 {
    Mat3 {
        m00: dot3(a.m00, a.m01, a.m02, b.m00, b.m10, b.m20),
        m01: dot3(a.m00, a.m01, a.m02, b.m01, b.m11, b.m21),
        m02: dot3(a.m00, a.m01, a.m02, b.m02, b.m12, b.m22),
        m10: dot3(a.m10, a.m11, a.m12, b.m00, b.m10, b.m20),
        m11: dot3(a.m10, a.m11, a.m12, b.m01, b.m11, b.m21),
        m12: dot3(a.m10, a.m11, a.m12, b.m02, b.m12, b.m22),
        m20: dot3(a.m20, a.m21, a.m22, b.m00, b.m10, b.m20),
        m21: dot3(a.m20, a.m21, a.m22, b.m01, b.m11, b.m21),
        m22: dot3(a.m20, a.m21, a.m22, b.m02, b.m12, b.m22),
    }
}

/// Fixed-point matrix product: the exact product of the raw entries,
/// rescaled by `ONE` with truncation toward zero.
pub open spec fn mat_mul(a: Mat3, b: Mat3) -> Mat3 {
    Mat3 {
        m00: tdiv(mat_prod(a, b).m00, ONE as int),
        m01: tdiv(mat_prod(a, b).m01, ONE as int),
        m02: tdiv(mat_prod(a, b).m02, ONE as int),
        m10: tdiv(mat_prod(a, b).m10, ONE as int),
        m11: tdiv(mat_prod(a, b).m11, ONE as int),
        m12: tdiv(mat_prod(a, b).m12, ONE as int),
        m20: tdiv(mat_prod(a, b).m20, ONE as int),
        m21: tdiv(mat_prod(a, b).m21, ONE as int),
        m22: tdiv(mat_prod(a, b).m22, ONE as int),
    }
}

/// Every entry of `m` lies within `b` in magnitude.
pub open spec fn entries_within(m: Mat3, b: int) -> bool {
    &&& -b <= m.m00 <= b
    &&& -b <= m.m01 <= b
    &&& -b <= m.m02 <= b
    &&& -b <= m.m10 <= b
    &&& -b <= m.m11 <= b
    &&& -b <= m.m12 <= b
    &&& -b <= m.m20 <= b
    &&& -b <= m.m21 <= b
    &&& -b <= m.m22 <= b
}

/// Bound on the operands of the executable multiply, chosen so that the
/// 128-bit intermediate sums cannot overflow.
pub const ENTRY_MAX: i64 = 5_000_000_000_000_000_000;

/// All nine rescaled entries of the product fit in an `i64` word.
pub open spec fn mul_in_range(a: Mat3, b: Mat3) -> bool {
    entries_within(mat_mul(a, b), i64::MAX as int)
}

/// One fixed-point inner product: 128-bit exact arithmetic, one final
/// truncating rescale.
fn fx_dot(a0: i64, a1: i64, a2: i64, b0: i64, b1: i64, b2: i64) -> (r: i64)
    requires
        -ENTRY_MAX <= a0 <= ENTRY_MAX,
        -ENTRY_MAX <= a1 <= ENTRY_MAX,
        -ENTRY_MAX <= a2 <= ENTRY_MAX,
        -ENTRY_MAX <= b0 <= ENTRY_MAX,
        -ENTRY_MAX <= b1 <= ENTRY_MAX,
        -ENTRY_MAX <= b2 <= ENTRY_MAX,
        i64::MIN <= tdiv(dot3(a0 as int, a1 as int, a2 as int, b0 as int, b1 as int, b2 as int), ONE as int) <= i64::MAX,
    ensures
        r == tdiv(dot3(a0 as int, a1 as int, a2 as int, b0 as int, b1 as int, b2 as int), ONE as int),
{
    proof {
        assert(-30_000_000_000_000_000_000_000_000_000_000_000_000 <= (a0 as int) * (b0 as int)
            <= 30_000_000_000_000_000_000_000_000_000_000_000_000) by (nonlinear_arith)
            requires
                -ENTRY_MAX <= a0 <= ENTRY_MAX,
                -ENTRY_MAX <= b0 <= ENTRY_MAX;
        assert(-30_000_000_000_000_000_000_000_000_000_000_000_000 <= (a1 as int) * (b1 as int)
            <= 30_000_000_000_000_000_000_000_000_000_000_000_000) by (nonlinear_arith)
            requires
                -ENTRY_MAX <= a1 <= ENTRY_MAX,
                -ENTRY_MAX <= b1 <= ENTRY_MAX;
        assert(-30_000_000_000_000_000_000_000_000_000_000_000_000 <= (a2 as int) * (b2 as int)
            <= 30_000_000_000_000_000_000_000_000_000_000_000_000) by (nonlinear_arith)
            requires
                -ENTRY_MAX <= a2 <= ENTRY_MAX,
                -ENTRY_MAX <= b2 <= ENTRY_MAX;
    }
    let s: i128 = (a0 as i128) * (b0 as i128) + (a1 as i128) * (b1 as i128) + (a2 as i128) * (b2 as i128);
    let q: i128 = tdiv128(s, ONE as i128);
    q as i64
}

impl Matrix {
    /// Entrywise construction.
    pub fn new(
        m00: i64, m01: i64, m02: i64,
        m10: i64, m11: i64, m12: i64,
        m20: i64, m21: i64, m22: i64,
    ) -> (r: Matrix)
        ensures
            r@ == (Mat3 {
                m00: m00 as int, m01: m01 as int, m02: m02 as int,
                m10: m10 as int, m11: m11 as int, m12: m12 as int,
                m20: m20 as int, m21: m21 as int, m22: m22 as int,
            }),
    {
        Matrix { m00, m01, m02, m10, m11, m12, m20, m21, m22 }
    }

    /// The identity transform: unit diagonal at fixed-point scale.
    pub fn identity() -> (r: Matrix)
        ensures
            r@ == s_identity(),
    {
        Matrix { m00: ONE, m01: 0, m02: 0, m10: 0, m11: ONE, m12: 0, m20: 0, m21: 0, m22: ONE }
    }

    /// Fixed-point matrix multiply; the result is `self` composed with `rhs`,
    /// row vectors reading left to right.
    pub fn mul(&self, rhs: &Matrix) -> (r: Matrix)
        requires
            entries_within(self@, ENTRY_MAX as int),
            entries_within(rhs@, ENTRY_MAX as int),
            mul_in_range(self@, rhs@),
        ensures
            r@ == mat_mul(self@, rhs@),
    {
        Matrix {
            m00: fx_dot(self.m00, self.m01, self.m02, rhs.m00, rhs.m10, rhs.m20),
            m01: fx_dot(self.m00, self.m01, self.m02, rhs.m01, rhs.m11, rhs.m21),
            m02: fx_dot(self.m00, self.m01, self.m02, rhs.m02, rhs.m12, rhs.m22),
            m10: fx_dot(self.m10, self.m11, self.m12, rhs.m00, rhs.m10, rhs.m20),
            m11: fx_dot(self.m10, self.m11, self.m12, rhs.m01, rhs.m11, rhs.m21),
            m12: fx_dot(self.m10, self.m11, self.m12, rhs.m02, rhs.m12, rhs.m22),
            m20: fx_dot(self.m20, self.m21, self.m22, rhs.m00, rhs.m10, rhs.m20),
            m21: fx_dot(self.m20, self.m21, self.m22, rhs.m01, rhs.m11, rhs.m21),
            m22: fx_dot(self.m20, self.m21, self.m22, rhs.m02, rhs.m12, rhs.m22),
        }
    }
}

/// The identity matrix in fixed-point form.
pub open spec fn s_identity() -> Mat3 {
    Mat3 { m00: ONE as int, m01: 0, m02: 0, m10: 0, m11: ONE as int, m12: 0, m20: 0, m21: 0, m22: ONE as int }
}

/// A row times a matrix, then times a column, associates: the heart of
/// matrix-product associativity.
proof fn lemma_dot_swap(
    a0: int, a1: int, a2: int,
    x00: int, x01: int, x02: int,
    x10: int, x11: int, x12: int,
    x20: int, x21: int, x22: int,
    c0: int, c1: int, c2: int,
)
    ensures
        dot3(
            dot3(a0, a1, a2, x00, x10, x20),
            dot3(a0, a1, a2, x01, x11, x21),
            dot3(a0, a1, a2, x02, x12, x22),
            c0, c1, c2,
        ) == dot3(
            a0, a1, a2,
            dot3(x00, x01, x02, c0, c1, c2),
            dot3(x10, x11, x12, c0, c1, c2),
            dot3(x20, x21, x22, c0, c1, c2),
        ),
{
    assert((a0 * x00 + a1 * x10 + a2 * x20) * c0
        == a0 * (x00 * c0) + a1 * (x10 * c0) + a2 * (x20 * c0)) by (nonlinear_arith);
    assert((a0 * x01 + a1 * x11 + a2 * x21) * c1
        == a0 * (x01 * c1) + a1 * (x11 * c1) + a2 * (x21 * c1)) by (nonlinear_arith);
    assert((a0 * x02 + a1 * x12 + a2 * x22) * c2
        == a0 * (x02 * c2) + a1 * (x12 * c2) + a2 * (x22 * c2)) by (nonlinear_arith);
    assert(a0 * (x00 * c0 + x01 * c1 + x02 * c2)
        == a0 * (x00 * c0) + a0 * (x01 * c1) + a0 * (x02 * c2)) by (nonlinear_arith);
    assert(a1 * (x10 * c0 + x11 * c1 + x12 * c2)
        == a1 * (x10 * c0) + a1 * (x11 * c1) + a1 * (x12 * c2)) by (nonlinear_arith);
    assert(a2 * (x20 * c0 + x21 * c1 + x22 * c2)
        == a2 * (x20 * c0) + a2 * (x21 * c1) + a2 * (x22 * c2)) by (nonlinear_arith);
}

/// law: the exact 3x3 matrix product is associative.  The executable
/// fixed-point multiply equals this exact product up to one final rescaling
/// division per entry.
pub proof fn lemma_mat_prod_assoc(a: Mat3, b: Mat3, c: Mat3)
    ensures
        mat_prod(mat_prod(a, b), c) == mat_prod(a, mat_prod(b, c)),
{
    lemma_dot_swap(a.m00, a.m01, a.m02, b.m00, b.m01, b.m02, b.m10, b.m11, b.m12, b.m20, b.m21, b.m22, c.m00, c.m10, c.m20);
    lemma_dot_swap(a.m00, a.m01, a.m02, b.m00, b.m01, b.m02, b.m10, b.m11, b.m12, b.m20, b.m21, b.m22, c.m01, c.m11, c.m21);
    lemma_dot_swap(a.m00, a.m01, a.m02, b.m00, b.m01, b.m02, b.m10, b.m11, b.m12, b.m20, b.m21, b.m22, c.m02, c.m12, c.m22);
    lemma_dot_swap(a.m10, a.m11, a.m12, b.m00, b.m01, b.m02, b.m10, b.m11, b.m12, b.m20, b.m21, b.m22, c.m00, c.m10, c.m20);
    lemma_dot_swap(a.m10, a.m11, a.m12, b.m00, b.m01, b.m02, b.m10, b.m11, b.m12, b.m20, b.m21, b.m22, c.m01, c.m11, c.m21);
    lemma_dot_swap(a.m10, a.m11, a.m12, b.m00, b.m01, b.m02, b.m10, b.m11, b.m12, b.m20, b.m21, b.m22, c.m02, c.m12, c.m22);
    lemma_dot_swap(a.m20, a.m21, a.m22, b.m00, b.m01, b.m02, b.m10, b.m11, b.m12, b.m20, b.m21, b.m22, c.m00, c.m10, c.m20);
    lemma_dot_swap(a.m20, a.m21, a.m22, b.m00, b.m01, b.m02, b.m10, b.m11, b.m12, b.m20, b.m21, b.m22, c.m01, c.m11, c.m21);
    lemma_dot_swap(a.m20, a.m21, a.m22, b.m00, b.m01, b.m02, b.m10, b.m11, b.m12, b.m20, b.m21, b.m22, c.m02, c.m12, c.m22);
}

/// `q` carried to fixed-point scale: every entry times `ONE`.
pub open spec fn mat_scaled(q: Mat3) -> Mat3 {
    Mat3 {
        m00: q.m00 * (ONE as int),
        m01: q.m01 * (ONE as int),
        m02: q.m02 * (ONE as int),
        m10: q.m10 * (ONE as int),
        m11: q.m11 * (ONE as int),
        m12: q.m12 * (ONE as int),
        m20: q.m20 * (ONE as int),
        m21: q.m21 * (ONE as int),
        m22: q.m22 * (ONE as int),
    }
}

/// A dot product of two rescaled triples carries the square of the scale.
proof fn lemma_dot_scaled(a0: int, a1: int, a2: int, b0: int, b1: int, b2: int)
    ensures
        dot3(
            a0 * (ONE as int), a1 * (ONE as int), a2 * (ONE as int),
            b0 * (ONE as int), b1 * (ONE as int), b2 * (ONE as int),
        ) == (dot3(a0, a1, a2, b0, b1, b2) * (ONE as int)) * (ONE as int),
{
    assert((a0 * (ONE as int)) * (b0 * (ONE as int)) + (a1 * (ONE as int)) * (b1 * (ONE as int))
        + (a2 * (ONE as int)) * (b2 * (ONE as int))
        == ((a0 * b0 + a1 * b1 + a2 * b2) * (ONE as int)) * (ONE as int)) by (nonlinear_arith);
}

/// The fixed-point product of two matrices at whole-unit scale is the exact
/// integer product, carried back to scale: nothing rounds.
proof fn lemma_mul_scaled(a: Mat3, b: Mat3)
    ensures
        mat_mul(mat_scaled(a), mat_scaled(b)) == mat_scaled(mat_prod(a, b)),
{
    lemma_dot_scaled(a.m00, a.m01, a.m02, b.m00, b.m10, b.m20);
    lemma_dot_scaled(a.m00, a.m01, a.m02, b.m01, b.m11, b.m21);
    lemma_dot_scaled(a.m00, a.m01, a.m02, b.m02, b.m12, b.m22);
    lemma_dot_scaled(a.m10, a.m11, a.m12, b.m00, b.m10, b.m20);
    lemma_dot_scaled(a.m10, a.m11, a.m12, b.m01, b.m11, b.m21);
    lemma_dot_scaled(a.m10, a.m11, a.m12, b.m02, b.m12, b.m22);
    lemma_dot_scaled(a.m20, a.m21, a.m22, b.m00, b.m10, b.m20);
    lemma_dot_scaled(a.m20, a.m21, a.m22, b.m01, b.m11, b.m21);
    lemma_dot_scaled(a.m20, a.m21, a.m22, b.m02, b.m12, b.m22);
    lemma_tdiv_exact(mat_prod(a, b).m00 * (ONE as int), ONE as int);
    lemma_tdiv_exact(mat_prod(a, b).m01 * (ONE as int), ONE as int);
    lemma_tdiv_exact(mat_prod(a, b).m02 * (ONE as int), ONE as int);
    lemma_tdiv_exact(mat_prod(a, b).m10 * (ONE as int), ONE as int);
    lemma_tdiv_exact(mat_prod(a, b).m11 * (ONE as int), ONE as int);
    lemma_tdiv_exact(mat_prod(a, b).m12 * (ONE as int), ONE as int);
    lemma_tdiv_exact(mat_prod(a, b).m20 * (ONE as int), ONE as int);
    lemma_tdiv_exact(mat_prod(a, b).m21 * (ONE as int), ONE as int);
    lemma_tdiv_exact(mat_prod(a, b).m22 * (ONE as int), ONE as int);
}

/// law: on matrices whose entries are whole units, the fixed-point multiply
/// is associative outright: both groupings give the same matrix.
pub proof fn lemma_mat_mul_assoc_scaled(a: Mat3, b: Mat3, c: Mat3)
    ensures
        mat_mul(mat_mul(mat_scaled(a), mat_scaled(b)), mat_scaled(c))
            == mat_mul(mat_scaled(a), mat_mul(mat_scaled(b), mat_scaled(c))),
{
    lemma_mul_scaled(a, b);
    lemma_mul_scaled(b, c);
    lemma_mul_scaled(mat_prod(a, b), c);
    lemma_mul_scaled(a, mat_prod(b, c));
    lemma_mat_prod_assoc(a, b, c);
}

/// law: the fixed-point multiply leaves any matrix unchanged when either
/// factor is the identity; no rounding occurs.
pub proof fn lemma_mul_identity(m: Mat3)
    ensures
        mat_mul(m, s_identity()) == m,
        mat_mul(s_identity(), m) == m,
{
    lemma_tdiv_exact(m.m00, ONE as int);
    lemma_tdiv_exact(m.m01, ONE as int);
    lemma_tdiv_exact(m.m02, ONE as int);
    lemma_tdiv_exact(m.m10, ONE as int);
    lemma_tdiv_exact(m.m11, ONE as int);
    lemma_tdiv_exact(m.m12, ONE as int);
    lemma_tdiv_exact(m.m20, ONE as int);
    lemma_tdiv_exact(m.m21, ONE as int);
    lemma_tdiv_exact(m.m22, ONE as int);
}

} // verus!
