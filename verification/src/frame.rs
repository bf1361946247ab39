use vstd::prelude::*;
use crate::fixed::{ONE, lemma_tdiv_le};
use crate::matrix::{Mat3, entries_within};
use crate::primitives::{Primitive2D, COORD_LIMIT, scale_pts, rotate_pts};
use crate::transform::shift_pts;
use crate::line::{Line, l_translate, l_scale, l_rotate, is_line_model, line_restored, line_model};

verus! {

/// A key the demo reacts to; anything else is ignored.
#[derive(Clone, Copy, PartialEq, Eq, Structural, Debug)]
pub enum Key {
    W,
    A,
    S,
    D,
    Up,
    Down,
    Left,
    Right,
    Other,
}

/// The per-frame transform deltas, in raw fixed-point units: a translation,
/// a uniform scale factor, and a rotation angle in degrees.
#[derive(Clone, Copy, PartialEq, Eq, Structural, Debug)]
pub struct FrameDeltas {
    pub dx: i64,
    pub dy: i64,
    pub scale: i64,
    pub angle: i64,
}

/// Model of the deltas while keys accumulate.
pub ghost struct DeltasModel {
    pub dx: int,
    pub dy: int,
    pub scale: int,
    pub angle: int,
}

impl View for FrameDeltas {
    type V = DeltasModel;

    open spec fn view(&self) -> DeltasModel {
        DeltasModel { dx: self.dx as int, dy: self.dy as int, scale: self.scale as int, angle: self.angle as int }
    }
}

/// The scale increment one keypress contributes: a hundredth of a unit.
pub const SCALE_STEP: i64 = 100;

/// The deltas every frame starts from: no shift, unit scale, no turn.
pub open spec fn initial_deltas() -> DeltasModel {
    DeltasModel { dx: 0, dy: 0, scale: ONE as int, angle: 0 }
}

/// The fixed key mapping, one key at a time: WASD shifts by a unit, the
/// vertical arrows nudge the scale by a hundredth, the horizontal arrows
/// turn by one degree.
pub open spec fn key_effect(d: DeltasModel, k: Key) -> DeltasModel {
    match k {
        Key::W => DeltasModel { dx: d.dx, dy: d.dy - ONE, scale: d.scale, angle: d.angle },
        Key::S => DeltasModel { dx: d.dx, dy: d.dy + ONE, scale: d.scale, angle: d.angle },
        Key::A => DeltasModel { dx: d.dx - ONE, dy: d.dy, scale: d.scale, angle: d.angle },
        Key::D => DeltasModel { dx: d.dx + ONE, dy: d.dy, scale: d.scale, angle: d.angle },
        Key::Up => DeltasModel { dx: d.dx, dy: d.dy, scale: d.scale + SCALE_STEP, angle: d.angle },
        Key::Down => DeltasModel { dx: d.dx, dy: d.dy, scale: d.scale - SCALE_STEP, angle: d.angle },
        Key::Left => DeltasModel { dx: d.dx, dy: d.dy, scale: d.scale, angle: d.angle - ONE },
        Key::Right => DeltasModel { dx: d.dx, dy: d.dy, scale: d.scale, angle: d.angle + ONE },
        Key::Other => d,
    }
}

/// The deltas after a whole frame's worth of pressed keys.
pub open spec fn deltas_of(keys: Seq<Key>) -> DeltasModel
    decreases keys.len(),
{
    if keys.len() == 0 {
        initial_deltas()
    } else {
        key_effect(deltas_of(keys.drop_last()), keys.last())
    }
}

/// Folds the pressed keys of one frame into transform deltas under the
/// fixed mapping.
pub fn frame_deltas(keys: &Vec<Key>) -> (d: FrameDeltas)
    requires
        keys@.len() <= 100_000,
    ensures
        d@ == deltas_of(keys@),
{
    let mut dx: i64 = 0;
    let mut dy: i64 = 0;
    let mut scale: i64 = ONE;
    let mut angle: i64 = 0;
    let mut i: usize = 0;
    while i < keys.len()
        invariant
            i <= keys@.len() <= 100_000,
            (DeltasModel { dx: dx as int, dy: dy as int, scale: scale as int, angle: angle as int })
                == deltas_of(keys@.take(i as int)),
            -(i as int) * (ONE as int) <= dx <= (i as int) * (ONE as int),
            -(i as int) * (ONE as int) <= dy <= (i as int) * (ONE as int),
            (ONE as int) - (i as int) * (SCALE_STEP as int) <= scale
                <= (ONE as int) + (i as int) * (SCALE_STEP as int),
            -(i as int) * (ONE as int) <= angle <= (i as int) * (ONE as int),
        decreases keys@.len() - i,
    {
        let k = keys[i];
        match k {
            Key::W => { dy = dy - ONE; },
            Key::S => { dy = dy + ONE; },
            Key::A => { dx = dx - ONE; },
            Key::D => { dx = dx + ONE; },
            Key::Up => { scale = scale + SCALE_STEP; },
            Key::Down => { scale = scale - SCALE_STEP; },
            Key::Left => { angle = angle - ONE; },
            Key::Right => { angle = angle + ONE; },
            Key::Other => {},
        }
        proof {
            assert(keys@.take(i as int + 1).drop_last() =~= keys@.take(i as int));
            assert(keys@.take(i as int + 1).last() == keys@[i as int]);
        }
        i = i + 1;
    }
    proof {
        assert(keys@.take(keys@.len() as int) =~= keys@);
    }
    FrameDeltas { dx, dy, scale, angle }
}

/// Coordinate bound under which a whole frame of transforms stays well
/// inside every machine limit.
pub const FRAME_COORD: i64 = 1_000_000_000;

/// Largest per-frame uniform scale factor, ten units.
pub const FRAME_SCALE: i64 = 100_000;

/// A restored segment model stays within the bound of its endpoint rows.
proof fn lemma_restored_bound(m: Mat3, b: int)
    requires
        ONE as int <= b,
        -b <= m.m00 <= b,
        -b <= m.m01 <= b,
        -b <= m.m10 <= b,
        -b <= m.m11 <= b,
    ensures
        entries_within(line_restored(m), b),
{
    lemma_tdiv_le(m.m00 + m.m10, 2, b);
    lemma_tdiv_le(m.m01 + m.m11, 2, b);
}

/// Bound on a scale step of one frame.
proof fn lemma_scale_pts_bound(m: Mat3, kx: int, ky: int)
    requires
        entries_within(m, 2_000_000_000),
        -(FRAME_SCALE as int) <= kx <= FRAME_SCALE as int,
        -(FRAME_SCALE as int) <= ky <= FRAME_SCALE as int,
    ensures
        entries_within(scale_pts(m, kx, ky), 42_000_000_000),
{
    let ax = m.m20;
    let ay = m.m21;
    assert(-400_000_000_000_000 <= (m.m00 + -ax) * kx <= 400_000_000_000_000) by (nonlinear_arith)
        requires
            -4_000_000_000 <= m.m00 + -ax <= 4_000_000_000,
            -(FRAME_SCALE as int) <= kx <= FRAME_SCALE as int;
    assert(-400_000_000_000_000 <= (m.m01 + -ay) * ky <= 400_000_000_000_000) by (nonlinear_arith)
        requires
            -4_000_000_000 <= m.m01 + -ay <= 4_000_000_000,
            -(FRAME_SCALE as int) <= ky <= FRAME_SCALE as int;
    assert(-400_000_000_000_000 <= (m.m10 + -ax) * kx <= 400_000_000_000_000) by (nonlinear_arith)
        requires
            -4_000_000_000 <= m.m10 + -ax <= 4_000_000_000,
            -(FRAME_SCALE as int) <= kx <= FRAME_SCALE as int;
    assert(-400_000_000_000_000 <= (m.m11 + -ay) * ky <= 400_000_000_000_000) by (nonlinear_arith)
        requires
            -4_000_000_000 <= m.m11 + -ay <= 4_000_000_000,
            -(FRAME_SCALE as int) <= ky <= FRAME_SCALE as int;
    assert(-400_000_000_000_000 <= (m.m20 + -ax) * kx <= 400_000_000_000_000) by (nonlinear_arith)
        requires
            -4_000_000_000 <= m.m20 + -ax <= 4_000_000_000,
            -(FRAME_SCALE as int) <= kx <= FRAME_SCALE as int;
    assert(-400_000_000_000_000 <= (m.m21 + -ay) * ky <= 400_000_000_000_000) by (nonlinear_arith)
        requires
            -4_000_000_000 <= m.m21 + -ay <= 4_000_000_000,
            -(FRAME_SCALE as int) <= ky <= FRAME_SCALE as int;
    lemma_tdiv_le((m.m00 + -ax) * kx, ONE as int, 40_000_000_000);
    lemma_tdiv_le((m.m01 + -ay) * ky, ONE as int, 40_000_000_000);
    lemma_tdiv_le((m.m10 + -ax) * kx, ONE as int, 40_000_000_000);
    lemma_tdiv_le((m.m11 + -ay) * ky, ONE as int, 40_000_000_000);
    lemma_tdiv_le((m.m20 + -ax) * kx, ONE as int, 40_000_000_000);
    lemma_tdiv_le((m.m21 + -ay) * ky, ONE as int, 40_000_000_000);
}

/// Bound on a rotation step of one frame.
proof fn lemma_rotate_pts_bound(m: Mat3, c: int, s: int)
    requires
        entries_within(m, 42_000_000_000),
        -(ONE as int) <= c <= ONE as int,
        -(ONE as int) <= s <= ONE as int,
    ensures
        entries_within(rotate_pts(m, c, s), 250_000_000_000),
{
    let ax = m.m20;
    let ay = m.m21;
    lemma_rot_bound_row(m.m00 + -ax, m.m01 + -ay, c, s);
    lemma_rot_bound_row(m.m10 + -ax, m.m11 + -ay, c, s);
    lemma_rot_bound_row(m.m20 + -ax, m.m21 + -ay, c, s);
    lemma_tdiv_le((m.m00 + -ax) * c - (m.m01 + -ay) * s, ONE as int, 200_000_000_000);
    lemma_tdiv_le((m.m00 + -ax) * s + (m.m01 + -ay) * c, ONE as int, 200_000_000_000);
    lemma_tdiv_le((m.m10 + -ax) * c - (m.m11 + -ay) * s, ONE as int, 200_000_000_000);
    lemma_tdiv_le((m.m10 + -ax) * s + (m.m11 + -ay) * c, ONE as int, 200_000_000_000);
    lemma_tdiv_le((m.m20 + -ax) * c - (m.m21 + -ay) * s, ONE as int, 200_000_000_000);
    lemma_tdiv_le((m.m20 + -ax) * s + (m.m21 + -ay) * c, ONE as int, 200_000_000_000);
}

/// Both rotated offsets of one row stay within the rescaled bound.
proof fn lemma_rot_bound_row(u: int, v: int, c: int, s: int)
    requires
        -84_000_000_000 <= u <= 84_000_000_000,
        -84_000_000_000 <= v <= 84_000_000_000,
        -(ONE as int) <= c <= ONE as int,
        -(ONE as int) <= s <= ONE as int,
    ensures
        -2_000_000_000_000_000 <= u * c - v * s <= 2_000_000_000_000_000,
        -2_000_000_000_000_000 <= u * s + v * c <= 2_000_000_000_000_000,
{
    assert(-840_000_000_000_000 <= u * c <= 840_000_000_000_000) by (nonlinear_arith)
        requires
            -84_000_000_000 <= u <= 84_000_000_000,
            -(ONE as int) <= c <= ONE as int;
    assert(-840_000_000_000_000 <= v * s <= 840_000_000_000_000) by (nonlinear_arith)
        requires
            -84_000_000_000 <= v <= 84_000_000_000,
            -(ONE as int) <= s <= ONE as int;
    assert(-840_000_000_000_000 <= u * s <= 840_000_000_000_000) by (nonlinear_arith)
        requires
            -84_000_000_000 <= u <= 84_000_000_000,
            -(ONE as int) <= s <= ONE as int;
    assert(-840_000_000_000_000 <= v * c <= 840_000_000_000_000) by (nonlinear_arith)
        requires
            -84_000_000_000 <= v <= 84_000_000_000,
            -(ONE as int) <= c <= ONE as int;
}

/// Applies one frame's deltas to a segment, in the demo's fixed order:
/// translate, then scale, then rotate, each about the segment's own anchor.
/// The rotation angle enters as its fixed-point cosine and sine.
pub fn apply_frame(l: &mut Line, dx: i64, dy: i64, k: i64, c: i64, s: i64)
    requires
        old(l).inv(),
        -FRAME_COORD <= old(l).p1.x <= FRAME_COORD,
        -FRAME_COORD <= old(l).p1.y <= FRAME_COORD,
        -FRAME_COORD <= old(l).p2.x <= FRAME_COORD,
        -FRAME_COORD <= old(l).p2.y <= FRAME_COORD,
        -FRAME_COORD <= dx <= FRAME_COORD,
        -FRAME_COORD <= dy <= FRAME_COORD,
        -FRAME_SCALE <= k <= FRAME_SCALE,
        -ONE <= c <= ONE,
        -ONE <= s <= ONE,
    ensures
        final(l).inv(),
        final(l).color() == old(l).color(),
        final(l).model() == l_rotate(
            l_scale(l_translate(old(l).model(), dx as int, dy as int), k as int, k as int),
            c as int,
            s as int,
        ),
{
    proof {
        lemma_restored_bound(old(l).model(), FRAME_COORD as int);
        lemma_restored_bound(
            shift_pts(old(l).model(), dx as int, dy as int), 2_000_000_000,
        );
    }
    l.translate(dx, dy);
    proof {
        lemma_scale_pts_bound(l.model(), k as int, k as int);
        lemma_restored_bound(scale_pts(l.model(), k as int, k as int), 42_000_000_000);
    }
    l.scale(k, k);
    proof {
        lemma_rotate_pts_bound(l.model(), c as int, s as int);
        lemma_restored_bound(rotate_pts(l.model(), c as int, s as int), 250_000_000_000);
    }
    l.rotate(c, s);
}

/// law: with only the right-shift key held for one frame, the mapping gives
/// a unit translation with unit scale and zero angle, and applying that
/// frame moves both endpoints right by exactly one unit.
pub proof fn lemma_right_key_frame(m: Mat3)
    requires
        is_line_model(m),
    ensures
        deltas_of(seq![Key::D]) == (DeltasModel { dx: ONE as int, dy: 0, scale: ONE as int, angle: 0 }),
        l_rotate(l_scale(l_translate(m, ONE as int, 0), ONE as int, ONE as int), ONE as int, 0)
            == line_model(m.m00 + ONE, m.m01, m.m10 + ONE, m.m11),
{
    assert(seq![Key::D].drop_last() =~= Seq::<Key>::empty());
    assert(seq![Key::D].last() == Key::D);
    assert(deltas_of(Seq::<Key>::empty()) == initial_deltas());
    assert(deltas_of(seq![Key::D]) == key_effect(initial_deltas(), Key::D));
    let m1 = l_translate(m, ONE as int, 0);
    assert(m1 == line_model(m.m00 + ONE, m.m01, m.m10 + ONE, m.m11));
    assert(is_line_model(m1));
    crate::line::lemma_unit_ops(m1);
}

} // verus!
