use affine2d::fixed::ONE;
use affine2d::line::Line;
use affine2d::primitives::{Color, Primitive2D};

fn green() -> Color {
    Color { r: 0, g: 255, b: 0 }
}

/// Translating there and back restores the endpoints exactly.
#[test]
fn translate_round_trip() {
    let mut l = Line::new(100 * ONE, 100 * ONE, 300 * ONE, 250 * ONE, green());
    l.translate(37 * ONE + 1, -91 * ONE + 3);
    l.translate(-(37 * ONE + 1), 91 * ONE - 3);
    assert_eq!(l.p1.x, 100 * ONE);
    assert_eq!(l.p1.y, 100 * ONE);
    assert_eq!(l.p2.x, 300 * ONE);
    assert_eq!(l.p2.y, 250 * ONE);
}

/// Rotating by an angle and then its opposite restores the endpoints, here
/// with the exact fixed-point cosine and sine pair (0.6, 0.8).
#[test]
fn rotate_round_trip() {
    let mut l = Line::new(10 * ONE, 0, -10 * ONE, 0, green());
    l.rotate(6000, 8000);
    // the segment really turned
    assert_eq!(l.p1.x, 6 * ONE);
    assert_eq!(l.p1.y, 8 * ONE);
    l.rotate(6000, -8000);
    assert_eq!(l.p1.x, 10 * ONE);
    assert_eq!(l.p1.y, 0);
    assert_eq!(l.p2.x, -10 * ONE);
    assert_eq!(l.p2.y, 0);
}

/// Scaling by two and then by a half restores the endpoints.
#[test]
fn scale_round_trip() {
    let mut l = Line::new(100 * ONE, 100 * ONE, 100 * ONE, 200 * ONE, green());
    l.scale(2 * ONE, 2 * ONE);
    l.scale(ONE / 2, ONE / 2);
    assert_eq!(l.p1.x, 100 * ONE);
    assert_eq!(l.p1.y, 100 * ONE);
    assert_eq!(l.p2.x, 100 * ONE);
    assert_eq!(l.p2.y, 200 * ONE);
}

/// Scaling and rotating leave the anchor row of `to_matrix` unchanged;
/// translating shifts it by exactly the offset.
#[test]
fn anchor_follows_the_rules() {
    let mut l = Line::new(100 * ONE, 100 * ONE, 200 * ONE, 300 * ONE, green());
    let before = l.to_matrix();
    assert_eq!(before.m20, 150 * ONE);
    assert_eq!(before.m21, 200 * ONE);

    l.scale(3 * ONE, 2 * ONE);
    let after_scale = l.to_matrix();
    assert_eq!(after_scale.m20, before.m20);
    assert_eq!(after_scale.m21, before.m21);

    l.rotate(6000, 8000);
    let after_rotate = l.to_matrix();
    assert_eq!(after_rotate.m20, before.m20);
    assert_eq!(after_rotate.m21, before.m21);

    l.translate(5 * ONE, -7 * ONE);
    let after_translate = l.to_matrix();
    assert_eq!(after_translate.m20, before.m20 + 5 * ONE);
    assert_eq!(after_translate.m21, before.m21 - 7 * ONE);
}

/// A vertical segment from (100, 100) to (100, 200), scaled by two about its
/// own midpoint (100, 150), lands on (100, 50) and (100, 250).
#[test]
fn scale_about_own_midpoint() {
    let mut l = Line::new(100 * ONE, 100 * ONE, 100 * ONE, 200 * ONE, green());
    l.scale(2 * ONE, 2 * ONE);
    assert_eq!(l.p1.x, 100 * ONE);
    assert_eq!(l.p1.y, 50 * ONE);
    assert_eq!(l.p2.x, 100 * ONE);
    assert_eq!(l.p2.y, 250 * ONE);
}

/// A degenerate scale by zero flattens the segment onto its anchor; this is
/// permitted, not an error.
#[test]
fn scale_by_zero_degenerates() {
    let mut l = Line::new(100 * ONE, 100 * ONE, 100 * ONE, 200 * ONE, green());
    l.scale(0, 0);
    assert_eq!(l.p1.y, 150 * ONE);
    assert_eq!(l.p2.y, 150 * ONE);
    assert_eq!(l.p1.x, 100 * ONE);
    assert_eq!(l.p2.x, 100 * ONE);
}

/// Fractional scale factors work at fixed-point precision: one and a half
/// times a ten-unit segment about its center.
#[test]
fn fractional_scale_is_exact() {
    let mut l = Line::new(0, 0, 10 * ONE, 0, green());
    l.scale(15_000, 15_000);
    assert_eq!(l.p1.x, -25_000);
    assert_eq!(l.p2.x, 125_000);
    assert_eq!(l.p1.y, 0);
    assert_eq!(l.p2.y, 0);
}

/// Where a scaled offset does not land on the fixed-point grid, the single
/// rescale truncates toward zero.
#[test]
fn scale_truncates_toward_zero() {
    let mut l = Line::new(0, 0, 2 * ONE, 0, green());
    l.scale(3_333, 3_333);
    assert_eq!(l.p1.x, ONE - 3_333);
    assert_eq!(l.p2.x, ONE + 3_333);
}

/// The matrix round trip keeps the endpoints and the color.
#[test]
fn matrix_round_trip() {
    let mut l = Line::new(ONE, 2 * ONE, 3 * ONE, 4 * ONE, green());
    let m = l.to_matrix();
    l.from_matrix(&m);
    assert_eq!(l.p1.x, ONE);
    assert_eq!(l.p1.y, 2 * ONE);
    assert_eq!(l.p2.x, 3 * ONE);
    assert_eq!(l.p2.y, 4 * ONE);
    assert_eq!(l.color, green());
}
