use affine2d::fixed::ONE;
use affine2d::matrix::Matrix;
use affine2d::transform::{rotation_matrix, scale_matrix, translation_matrix};

/// Matrix product associativity on transforms whose entries sit at full
/// fixed-point scale, where no rescaling division rounds.
#[test]
fn mul_is_associative() {
    let a = translation_matrix(3 * ONE, -2 * ONE);
    let b = scale_matrix(2 * ONE, 2 * ONE);
    let c = translation_matrix(-7 * ONE, 11 * ONE);
    let ab_c = a.mul(&b).mul(&c);
    let a_bc = a.mul(&b.mul(&c));
    assert!(ab_c == a_bc);

    let d = scale_matrix(3 * ONE, -ONE);
    let ab_d = a.mul(&b).mul(&d);
    let a_bd = a.mul(&b.mul(&d));
    assert!(ab_d == a_bd);
}

/// The zero translation, the unit scale and the zero rotation each build the
/// identity matrix.
#[test]
fn builders_give_identity() {
    let id = Matrix::identity();
    assert!(translation_matrix(0, 0) == id);
    assert!(scale_matrix(ONE, ONE) == id);
    assert!(rotation_matrix(ONE, 0) == id);
}

/// Multiplying by the identity changes nothing, on either side.
#[test]
fn identity_is_neutral() {
    let id = Matrix::identity();
    let m = Matrix::new(
        5 * ONE, -3 * ONE, ONE,
        2 * ONE, 9 * ONE, ONE,
        7, -13, ONE,
    );
    assert!(m.mul(&id) == m);
    assert!(id.mul(&m) == m);
}

/// One concrete product, checked entry by entry: a point row through a
/// translation picks up the offset.
#[test]
fn translation_moves_a_point_row() {
    let p = Matrix::new(
        10 * ONE, 20 * ONE, ONE,
        30 * ONE, 40 * ONE, ONE,
        20 * ONE, 30 * ONE, ONE,
    );
    let t = translation_matrix(5 * ONE, -5 * ONE);
    let r = p.mul(&t);
    assert_eq!(r.m00, 15 * ONE);
    assert_eq!(r.m01, 15 * ONE);
    assert_eq!(r.m10, 35 * ONE);
    assert_eq!(r.m11, 35 * ONE);
    assert_eq!(r.m20, 25 * ONE);
    assert_eq!(r.m21, 25 * ONE);
    assert_eq!(r.m02, ONE);
    assert_eq!(r.m12, ONE);
    assert_eq!(r.m22, ONE);
}
