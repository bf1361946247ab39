use vstd::prelude::*;
use crate::fixed::tdiv;
use crate::primitives::{Color, PixelWrite};

verus! {

/// Largest pixel coordinate magnitude the rasterizer accepts.
pub const PIX_LIMIT: i32 = 100_000_000;

/// Magnitude of an integer.
pub open spec fn sabs(x: int) -> int {
    if x >= 0 {
        x
    } else {
        -x
    }
}

/// Sign of an integer.
pub open spec fn sgn(x: int) -> int {
    if x > 0 {
        1
    } else if x < 0 {
        -1
    } else {
        0
    }
}

/// Number of pixels of the segment: one per step along the major axis, both
/// endpoints included.
pub open spec fn line_len(x0: int, y0: int, x1: int, y1: int) -> int {
    if sabs(x1 - x0) >= sabs(y1 - y0) {
        1 + sabs(x1 - x0)
    } else {
        1 + sabs(y1 - y0)
    }
}

/// Pixel `i` of the segment: the major axis advances one pixel per step and
/// the minor axis follows the ideal line, rounded to the nearest pixel.
pub open spec fn line_pixel(x0: int, y0: int, x1: int, y1: int, i: int) -> (int, int) {
    let adx = sabs(x1 - x0);
    let ady = sabs(y1 - y0);
    if adx >= ady {
        if adx == 0 {
            (x0, y0)
        } else {
            (x0 + sgn(x1 - x0) * i, y0 + sgn(y1 - y0) * tdiv(2 * i * ady + adx, 2 * adx))
        }
    } else {
        (x0 + sgn(x1 - x0) * tdiv(2 * i * adx + ady, 2 * ady), y0 + sgn(y1 - y0) * i)
    }
}

/// The rounded minor offset at step `i`: at most `i`, never negative, and it
/// grows by zero or one per step while the minor delta stays within the major.
proof fn lemma_minor_step(amin: int, amaj: int, i: int)
    requires
        0 <= amin <= amaj,
        0 < amaj,
        0 <= i,
    ensures
        0 <= tdiv(2 * i * amin + amaj, 2 * amaj) <= i,
        tdiv(2 * i * amin + amaj, 2 * amaj)
            <= tdiv(2 * (i + 1) * amin + amaj, 2 * amaj)
            <= tdiv(2 * i * amin + amaj, 2 * amaj) + 1,
{
    let den = 2 * amaj;
    let n1 = 2 * i * amin + amaj;
    let n2 = 2 * (i + 1) * amin + amaj;
    assert(0 <= 2 * i * amin) by (nonlinear_arith)
        requires
            0 <= i,
            0 <= amin;
    assert(n2 == n1 + 2 * amin) by (nonlinear_arith)
        requires
            n1 == 2 * i * amin + amaj,
            n2 == 2 * (i + 1) * amin + amaj;
    assert(n1 < (i + 1) * den) by (nonlinear_arith)
        requires
            0 <= amin <= amaj,
            0 < amaj,
            0 <= i,
            n1 == 2 * i * amin + amaj,
            den == 2 * amaj;
    vstd::arithmetic::div_mod::lemma_div_pos_is_pos(n1, den);
    vstd::arithmetic::div_mod::lemma_div_pos_is_pos(n2, den);
    vstd::arithmetic::div_mod::lemma_div_is_ordered(n1, n2, den);
    vstd::arithmetic::div_mod::lemma_div_is_ordered(n2, n1 + den, den);
    vstd::arithmetic::div_mod::lemma_div_plus_one(n1, den);
    vstd::arithmetic::div_mod::lemma_fundamental_div_mod(n1, den);
    let q1 = n1 / den;
    assert(den * q1 <= n1);
    assert(q1 <= i) by (nonlinear_arith)
        requires
            den * q1 <= n1,
            n1 < (i + 1) * den,
            0 < den;
}

/// The rounded minor offset reaches the full minor delta exactly at the last
/// step.
proof fn lemma_minor_last(amin: int, amaj: int)
    requires
        0 <= amin <= amaj,
        0 < amaj,
    ensures
        tdiv(2 * amaj * amin + amaj, 2 * amaj) == amin,
{
    assert(2 * amaj * amin + amaj == (2 * amaj) * amin + amaj) by (nonlinear_arith);
    vstd::arithmetic::div_mod::lemma_div_multiples_vanish_fancy(amin, amaj, 2 * amaj);
    assert((2 * amaj) * amin == 2 * amaj * amin) by (nonlinear_arith);
}

/// law: a segment's pixels start at one endpoint and finish at the other.
pub proof fn lemma_line_endpoints(x0: int, y0: int, x1: int, y1: int)
    ensures
        line_pixel(x0, y0, x1, y1, 0) == (x0, y0),
        line_pixel(x0, y0, x1, y1, line_len(x0, y0, x1, y1) - 1) == (x1, y1),
{
    let adx = sabs(x1 - x0);
    let ady = sabs(y1 - y0);
    if adx >= ady {
        if adx != 0 {
            lemma_minor_step(ady, adx, 0);
            assert(2 * 0 * ady == 0) by (nonlinear_arith);
            lemma_minor_last(ady, adx);
            assert(sgn(x1 - x0) * adx == x1 - x0) by (nonlinear_arith)
                requires
                    adx == sabs(x1 - x0);
            assert(sgn(y1 - y0) * ady == y1 - y0) by (nonlinear_arith)
                requires
                    ady == sabs(y1 - y0);
        }
    } else {
        lemma_minor_step(adx, ady, 0);
        assert(2 * 0 * adx == 0) by (nonlinear_arith);
        lemma_minor_last(adx, ady);
        assert(sgn(y1 - y0) * ady == y1 - y0) by (nonlinear_arith)
            requires
                ady == sabs(y1 - y0);
        assert(sgn(x1 - x0) * adx == x1 - x0) by (nonlinear_arith)
            requires
                adx == sabs(x1 - x0);
    }
}

/// law: consecutive pixels of a segment touch: each coordinate changes by at
/// most one per step, so the drawn line has no gaps.
pub proof fn lemma_line_connected(x0: int, y0: int, x1: int, y1: int, i: int)
    requires
        0 <= i,
        i + 1 < line_len(x0, y0, x1, y1),
    ensures
        sabs(line_pixel(x0, y0, x1, y1, i + 1).0 - line_pixel(x0, y0, x1, y1, i).0) <= 1,
        sabs(line_pixel(x0, y0, x1, y1, i + 1).1 - line_pixel(x0, y0, x1, y1, i).1) <= 1,
{
    let adx = sabs(x1 - x0);
    let ady = sabs(y1 - y0);
    if adx >= ady {
        lemma_minor_step(ady, adx, i);
        let g = sgn(x1 - x0);
        assert(g * (i + 1) - g * i == g) by (nonlinear_arith);
        let o1 = tdiv(2 * i * ady + adx, 2 * adx);
        let o2 = tdiv(2 * (i + 1) * ady + adx, 2 * adx);
        let h = sgn(y1 - y0);
        assert(-1 <= h * o2 - h * o1 <= 1) by (nonlinear_arith)
            requires
                o1 <= o2 <= o1 + 1,
                -1 <= h <= 1;
    } else {
        lemma_minor_step(adx, ady, i);
        let g = sgn(y1 - y0);
        assert(g * (i + 1) - g * i == g) by (nonlinear_arith);
        let o1 = tdiv(2 * i * adx + ady, 2 * ady);
        let o2 = tdiv(2 * (i + 1) * adx + ady, 2 * ady);
        let h = sgn(x1 - x0);
        assert(-1 <= h * o2 - h * o1 <= 1) by (nonlinear_arith)
            requires
                o1 <= o2 <= o1 + 1,
                -1 <= h <= 1;
    }
}

/// law: no pixel of a segment repeats: the major coordinate is strictly
/// monotone in the step index.
pub proof fn lemma_line_no_dups(x0: int, y0: int, x1: int, y1: int, i: int, j: int)
    requires
        0 <= i < line_len(x0, y0, x1, y1),
        0 <= j < line_len(x0, y0, x1, y1),
        i != j,
    ensures
        line_pixel(x0, y0, x1, y1, i) != line_pixel(x0, y0, x1, y1, j),
{
    let adx = sabs(x1 - x0);
    let ady = sabs(y1 - y0);
    if adx >= ady {
        if adx == 0 {
            assert(line_len(x0, y0, x1, y1) == 1);
        } else {
            let g = sgn(x1 - x0);
            assert(g == 1 || g == -1);
            assert(g * i != g * j) by (nonlinear_arith)
                requires
                    i != j,
                    g == 1 || g == -1;
        }
    } else {
        let g = sgn(y1 - y0);
        assert(g == 1 || g == -1);
        assert(g * i != g * j) by (nonlinear_arith)
            requires
                i != j,
                g == 1 || g == -1;
    }
}

/// law: a vertical segment covers exactly the integer points between its
/// endpoints, one per row.
pub proof fn lemma_line_vertical(x0: int, y0: int, y1: int, i: int)
    requires
        0 <= i < line_len(x0, y0, x0, y1),
    ensures
        line_pixel(x0, y0, x0, y1, i) == (x0, y0 + sgn(y1 - y0) * i),
{
    let ady = sabs(y1 - y0);
    if ady == 0 {
        assert(sgn(y1 - y0) * i == 0) by (nonlinear_arith)
            requires
                sgn(y1 - y0) == 0;
    } else {
        lemma_minor_step(0, ady, i);
        assert(2 * i * 0 == 0) by (nonlinear_arith);
        assert(sgn(x0 - x0) * tdiv(0 + ady, 2 * ady) == 0) by (nonlinear_arith)
            requires
                sgn(x0 - x0) == 0;
    }
}

/// Rasterizes the segment between two integer pixel coordinates, one entry
/// per covered pixel, endpoints included.
pub fn line_pixels(x0: i32, y0: i32, x1: i32, y1: i32, color: Color) -> (v: Vec<PixelWrite>)
    requires
        -PIX_LIMIT <= x0 <= PIX_LIMIT,
        -PIX_LIMIT <= y0 <= PIX_LIMIT,
        -PIX_LIMIT <= x1 <= PIX_LIMIT,
        -PIX_LIMIT <= y1 <= PIX_LIMIT,
    ensures
        v@.len() == line_len(x0 as int, y0 as int, x1 as int, y1 as int),
        forall|i: int| 0 <= i < v@.len() ==> {
            &&& (#[trigger] v@[i]).x as int == line_pixel(x0 as int, y0 as int, x1 as int, y1 as int, i).0
            &&& v@[i].y as int == line_pixel(x0 as int, y0 as int, x1 as int, y1 as int, i).1
            &&& v@[i].color == color
        },
{
    let adx: i64 = if x1 >= x0 { (x1 as i64) - (x0 as i64) } else { (x0 as i64) - (x1 as i64) };
    let ady: i64 = if y1 >= y0 { (y1 as i64) - (y0 as i64) } else { (y0 as i64) - (y1 as i64) };
    let sx: i64 = if x1 > x0 { 1 } else if x1 < x0 { -1 } else { 0 };
    let sy: i64 = if y1 > y0 { 1 } else if y1 < y0 { -1 } else { 0 };
    let n: i64 = if adx >= ady { adx } else { ady };
    let mut v: Vec<PixelWrite> = Vec::new();
    let mut i: i64 = 0;
    while i <= n
        invariant
            adx == sabs(x1 as int - x0 as int),
            ady == sabs(y1 as int - y0 as int),
            sx == sgn(x1 as int - x0 as int),
            sy == sgn(y1 as int - y0 as int),
            n == if adx >= ady { adx } else { ady },
            -PIX_LIMIT <= x0 <= PIX_LIMIT,
            -PIX_LIMIT <= y0 <= PIX_LIMIT,
            -PIX_LIMIT <= x1 <= PIX_LIMIT,
            -PIX_LIMIT <= y1 <= PIX_LIMIT,
            0 <= i <= n + 1,
            v@.len() == i,
            forall|j: int| 0 <= j < v@.len() ==> {
                &&& (#[trigger] v@[j]).x as int == line_pixel(x0 as int, y0 as int, x1 as int, y1 as int, j).0
                &&& v@[j].y as int == line_pixel(x0 as int, y0 as int, x1 as int, y1 as int, j).1
                &&& v@[j].color == color
            },
        decreases n + 1 - i,
    {
        proof {
            assert(-(n as int) <= sx as int * i as int <= n as int) by (nonlinear_arith)
                requires
                    -1 <= sx <= 1,
                    0 <= i <= n;
            assert(-(n as int) <= sy as int * i as int <= n as int) by (nonlinear_arith)
                requires
                    -1 <= sy <= 1,
                    0 <= i <= n;
        }
        let (px, py): (i64, i64) = if adx >= ady {
            if adx == 0 {
                (x0 as i64, y0 as i64)
            } else {
                proof {
                    lemma_minor_step(ady as int, adx as int, i as int);
                    assert(-(n as int) <= sy as int * tdiv(2 * (i as int) * (ady as int) + adx as int, 2 * (adx as int)) <= n as int)
                        by (nonlinear_arith)
                        requires
                            -1 <= sy <= 1,
                            0 <= tdiv(2 * (i as int) * (ady as int) + adx as int, 2 * (adx as int)) <= i,
                            0 <= i <= n;
                }
                proof {
                    assert(0 <= 2 * (i as int) * (ady as int) <= 100_000_000_000_000_000)
                        by (nonlinear_arith)
                        requires
                            0 <= i <= 200_000_000,
                            0 <= ady <= 200_000_000;
                }
                let num: i64 = 2 * i * ady + adx;
                let off: i64 = ((num as u64) / ((2 * adx) as u64)) as i64;
                (x0 as i64 + sx * i, y0 as i64 + sy * off)
            }
        } else {
            proof {
                lemma_minor_step(adx as int, ady as int, i as int);
                assert(-(n as int) <= sx as int * tdiv(2 * (i as int) * (adx as int) + ady as int, 2 * (ady as int)) <= n as int)
                    by (nonlinear_arith)
                    requires
                        -1 <= sx <= 1,
                        0 <= tdiv(2 * (i as int) * (adx as int) + ady as int, 2 * (ady as int)) <= i,
                        0 <= i <= n;
            }
            proof {
                assert(0 <= 2 * (i as int) * (adx as int) <= 100_000_000_000_000_000)
                    by (nonlinear_arith)
                    requires
                        0 <= i <= 200_000_000,
                        0 <= adx <= 200_000_000;
            }
            let num: i64 = 2 * i * adx + ady;
            let off: i64 = ((num as u64) / ((2 * ady) as u64)) as i64;
            (x0 as i64 + sx * off, y0 as i64 + sy * i)
        };
        v.push(PixelWrite { x: px as i32, y: py as i32, color });
        i = i + 1;
    }
    v
}

} // verus!
