use affine2d::fixed::ONE;
use affine2d::frame::{apply_frame, frame_deltas, Key, SCALE_STEP};
use affine2d::line::Line;
use affine2d::primitives::Color;

fn white() -> Color {
    Color { r: 255, g: 255, b: 255 }
}

/// With no key held, a frame starts from the neutral deltas.
#[test]
fn no_keys_no_motion() {
    let d = frame_deltas(&vec![]);
    assert_eq!(d.dx, 0);
    assert_eq!(d.dy, 0);
    assert_eq!(d.scale, ONE);
    assert_eq!(d.angle, 0);
}

/// Each key moves exactly its own delta by the fixed mapping.
#[test]
fn single_key_effects() {
    assert_eq!(frame_deltas(&vec![Key::W]).dy, -ONE);
    assert_eq!(frame_deltas(&vec![Key::S]).dy, ONE);
    assert_eq!(frame_deltas(&vec![Key::A]).dx, -ONE);
    assert_eq!(frame_deltas(&vec![Key::D]).dx, ONE);
    assert_eq!(frame_deltas(&vec![Key::Up]).scale, ONE + SCALE_STEP);
    assert_eq!(frame_deltas(&vec![Key::Down]).scale, ONE - SCALE_STEP);
    assert_eq!(frame_deltas(&vec![Key::Left]).angle, -ONE);
    assert_eq!(frame_deltas(&vec![Key::Right]).angle, ONE);
    assert_eq!(frame_deltas(&vec![Key::Other]).dx, 0);
}

/// Several keys in one frame accumulate independently.
#[test]
fn combined_keys_accumulate() {
    let d = frame_deltas(&vec![Key::D, Key::D, Key::W, Key::Up, Key::Left, Key::Other]);
    assert_eq!(d.dx, 2 * ONE);
    assert_eq!(d.dy, -ONE);
    assert_eq!(d.scale, ONE + SCALE_STEP);
    assert_eq!(d.angle, -ONE);
}

/// Pressing only "D" for one frame shifts both endpoints' x-coordinates by
/// exactly one unit and changes nothing else.
#[test]
fn d_key_moves_one_unit_right() {
    let d = frame_deltas(&vec![Key::D]);
    assert_eq!(d.dx, ONE);
    assert_eq!(d.dy, 0);
    assert_eq!(d.scale, ONE);
    assert_eq!(d.angle, 0);

    let mut l = Line::new(100 * ONE, 100 * ONE, 100 * ONE, 200 * ONE, white());
    // an angle of zero enters as its cosine and sine, (ONE, 0)
    apply_frame(&mut l, d.dx, d.dy, d.scale, ONE, 0);
    assert_eq!(l.p1.x, 101 * ONE);
    assert_eq!(l.p1.y, 100 * ONE);
    assert_eq!(l.p2.x, 101 * ONE);
    assert_eq!(l.p2.y, 200 * ONE);
    assert_eq!(l.color, white());
}

/// A neutral frame leaves the segment exactly where it was.
#[test]
fn neutral_frame_is_identity() {
    let mut l = Line::new(-3 * ONE, 7 * ONE, 13 * ONE, -5 * ONE, white());
    apply_frame(&mut l, 0, 0, ONE, ONE, 0);
    assert_eq!(l.p1.x, -3 * ONE);
    assert_eq!(l.p1.y, 7 * ONE);
    assert_eq!(l.p2.x, 13 * ONE);
    assert_eq!(l.p2.y, -5 * ONE);
}
