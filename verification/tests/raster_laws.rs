use affine2d::fixed::ONE;
use affine2d::line::Line;
use affine2d::primitives::{Color, Primitive2D};
use affine2d::raster::line_pixels;

fn red() -> Color {
    Color { r: 255, g: 0, b: 0 }
}

/// A line from (0,0) to (0,5) covers exactly the six integer points in
/// between, in order, with no duplicates and no gaps.
#[test]
fn vertical_line_covers_six_pixels() {
    let v = line_pixels(0, 0, 0, 5, red());
    assert_eq!(v.len(), 6);
    for (i, p) in v.iter().enumerate() {
        assert_eq!(p.x, 0);
        assert_eq!(p.y, i as i32);
        assert_eq!(p.color, red());
    }
    for i in 0..v.len() {
        for j in 0..v.len() {
            if i != j {
                assert!(v[i] != v[j]);
            }
        }
    }
}

/// A perfect diagonal steps one pixel on each axis per entry.
#[test]
fn diagonal_line() {
    let v = line_pixels(0, 0, 3, 3, red());
    assert_eq!(v.len(), 4);
    for (i, p) in v.iter().enumerate() {
        assert_eq!(p.x, i as i32);
        assert_eq!(p.y, i as i32);
    }
}

/// A degenerate segment is a single pixel.
#[test]
fn single_point_line() {
    let v = line_pixels(2, -2, 2, -2, red());
    assert_eq!(v.len(), 1);
    assert_eq!(v[0].x, 2);
    assert_eq!(v[0].y, -2);
}

/// A shallow line starts and ends on its endpoints and never jumps more
/// than one pixel per step on either axis.
#[test]
fn shallow_line_is_connected() {
    let v = line_pixels(0, 0, 5, 2, red());
    assert_eq!(v.len(), 6);
    assert_eq!((v[0].x, v[0].y), (0, 0));
    assert_eq!((v[5].x, v[5].y), (5, 2));
    for w in v.windows(2) {
        assert!((w[1].x - w[0].x).abs() <= 1);
        assert!((w[1].y - w[0].y).abs() <= 1);
    }
}

/// A line drawn leftwards and upwards still walks from its first endpoint
/// to its second.
#[test]
fn reversed_line() {
    let v = line_pixels(3, 4, -1, 4, red());
    assert_eq!(v.len(), 5);
    for (i, p) in v.iter().enumerate() {
        assert_eq!(p.x, 3 - i as i32);
        assert_eq!(p.y, 4);
    }
}

/// Drawing a segment rasterizes its fixed-point endpoints at pixel scale.
#[test]
fn draw_uses_pixel_coordinates() {
    let l = Line::new(0, 0, 0, 5 * ONE, red());
    let v = l.draw();
    assert_eq!(v.len(), 6);
    for (i, p) in v.iter().enumerate() {
        assert_eq!(p.x, 0);
        assert_eq!(p.y, i as i32);
        assert_eq!(p.color, red());
    }
}
