use vstd::prelude::*;

use crate::canvas::{dims_of, draw_rect, fill_box, filled, pixels_of, Canvas};
use crate::color::{transparent, Color, Paint};

verus! {

/// Width and height of one frame, in pixels.
pub const FRAME_SIZE: u32 = 64;

/// Number of frames in the walk cycle.
pub const FRAME_COUNT: u32 = 4;

/// Width of the sprite sheet: the frames side by side.
pub const SHEET_WIDTH: u32 = 256;

/// Horizontal shifts of the limbs in one pose of the walk cycle.
#[derive(Clone, Copy, Debug, PartialEq, Eq, Structural)]
pub struct Pose {
    pub left_arm: i32,
    pub right_arm: i32,
    pub left_leg: i32,
    pub right_leg: i32,
}

/// The pose of each frame: frames 0 and 2 swing arms and legs two pixels in
/// opposite directions, every other frame stands neutral.
pub open spec fn spec_pose(frame: u32) -> Pose {
    if frame == 0 {
        Pose { left_arm: -2i32, right_arm: 2, left_leg: 2, right_leg: -2i32 }
    } else if frame == 2 {
        Pose { left_arm: 2, right_arm: -2i32, left_leg: -2i32, right_leg: 2 }
    } else {
        Pose { left_arm: 0, right_arm: 0, left_leg: 0, right_leg: 0 }
    }
}

/// The limb shifts of `frame`.
pub fn pose_of(frame: u32) -> (p: Pose)
    ensures
        p == spec_pose(frame),
{
    match frame {
        0 => Pose { left_arm: -2, right_arm: 2, left_leg: 2, right_leg: -2 },
        2 => Pose { left_arm: 2, right_arm: -2, left_leg: -2, right_leg: 2 },
        _ => Pose { left_arm: 0, right_arm: 0, left_leg: 0, right_leg: 0 },
    }
}

/// One flat-colour rectangle: top-left corner `(x, y)`, `w` wide, `h` high.
#[derive(Clone, Copy, Debug, PartialEq, Eq, Structural)]
pub struct Stroke {
    pub x: u32,
    pub y: u32,
    pub w: u32,
    pub h: u32,
    pub paint: Paint,
}

/// The stroke at `(x, y)`, `w` wide and `h` high, in `paint`.
pub open spec fn stroke(x: int, y: int, w: int, h: int, paint: Paint) -> Stroke {
    Stroke { x: x as u32, y: y as u32, w: w as u32, h: h as u32, paint }
}

/// The hair along the top of the head: one pixel on row 3 for each of the
/// first `n` columns from 26, and one on row 4 below each even column.
pub open spec fn hair_strokes(n: nat) -> Seq<Stroke>
    decreases n,
{
    if n == 0 {
        Seq::empty()
    } else {
        let dx = n - 1;
        let s = hair_strokes((n - 1) as nat).push(stroke(26 + dx, 3, 1, 1, Paint::Hair));
        if dx % 2 == 0 {
            s.push(stroke(26 + dx, 4, 1, 1, Paint::Hair))
        } else {
            s
        }
    }
}

/// Face, torso, arms, hands, legs and shoes, in drawing order.
pub open spec fn body_strokes(p: Pose) -> Seq<Stroke> {
    seq![
        stroke(28, 9, 2, 2, Paint::Eyes),
        stroke(34, 9, 2, 2, Paint::Eyes),
        stroke(29, 10, 1, 1, Paint::Pupil),
        stroke(35, 10, 1, 1, Paint::Pupil),
        stroke(31, 11, 2, 2, Paint::Nose),
        stroke(29, 14, 6, 1, Paint::Mouth),
        stroke(30, 15, 4, 1, Paint::Mouth),
        stroke(24, 16, 16, 18, Paint::Shirt),
        stroke(18 + p.left_arm, 16, 6, 18, Paint::Shirt),
        stroke(40 + p.right_arm, 16, 6, 18, Paint::Shirt),
        stroke(19 + p.left_arm, 34, 4, 4, Paint::Skin),
        stroke(41 + p.right_arm, 34, 4, 4, Paint::Skin),
        stroke(26 + p.left_leg, 34, 6, 20, Paint::Pants),
        stroke(34 + p.right_leg, 34, 6, 20, Paint::Pants),
        stroke(26 + p.left_leg, 54, 6, 3, Paint::ShoesTop),
        stroke(26 + p.left_leg, 57, 6, 1, Paint::ShoesBottom),
        stroke(34 + p.right_leg, 54, 6, 3, Paint::ShoesTop),
        stroke(34 + p.right_leg, 57, 6, 1, Paint::ShoesBottom),
    ]
}

/// Every rectangle of the figure in `frame`, in drawing order.
pub open spec fn spec_figure(frame: u32) -> Seq<Stroke> {
    seq![stroke(26, 4, 12, 12, Paint::Skin)].add(hair_strokes(12)).add(
        body_strokes(spec_pose(frame)),
    )
}

/// `base` with the strokes painted over it in order, each one overwriting
/// whatever lies under it.
pub open spec fn paint(strokes: Seq<Stroke>, base: Map<(u32, u32), Color>) -> Map<
    (u32, u32),
    Color,
>
    decreases strokes.len(),
{
    if strokes.len() == 0 {
        base
    } else {
        let s = strokes.last();
        fill_box(
            paint(strokes.drop_last(), base),
            s.x as int,
            s.y as int,
            s.w as int,
            s.h as int,
            s.paint.spec_color(),
        )
    }
}

/// The pixels of frame `frame`: the figure on a transparent background.
pub open spec fn frame_pixels(frame: u32) -> Map<(u32, u32), Color> {
    paint(spec_figure(frame), filled(FRAME_SIZE, FRAME_SIZE, transparent()))
}

/// Whether the stroke lies inside a `w` by `h` image.
pub open spec fn fits(s: Stroke, w: u32, h: u32) -> bool {
    s.x as int + s.w as int <= w && s.y as int + s.h as int <= h
}

proof fn lemma_hair_fits(n: nat)
    requires
        n <= 12,
    ensures
        forall|i: int|
            0 <= i < hair_strokes(n).len() ==> fits(
                #[trigger] hair_strokes(n)[i],
                FRAME_SIZE,
                FRAME_SIZE,
            ),
    decreases n,
{
    if n > 0 {
        lemma_hair_fits((n - 1) as nat);
        let dx = n - 1;
        let prev = hair_strokes((n - 1) as nat);
        let s = prev.push(stroke(26 + dx, 3, 1, 1, Paint::Hair));
        assert forall|i: int| 0 <= i < s.len() implies fits(#[trigger] s[i], FRAME_SIZE, FRAME_SIZE) by {
            if i < prev.len() {
                assert(s[i] == prev[i]);
            }
        }
        if dx % 2 == 0 {
            let t = s.push(stroke(26 + dx, 4, 1, 1, Paint::Hair));
            assert forall|i: int| 0 <= i < t.len() implies fits(#[trigger] t[i], FRAME_SIZE, FRAME_SIZE) by {
                if i < s.len() {
                    assert(t[i] == s[i]);
                }
            }
        }
    }
}

proof fn lemma_figure_fits(frame: u32)
    ensures
        forall|i: int|
            0 <= i < spec_figure(frame).len() ==> fits(
                #[trigger] spec_figure(frame)[i],
                FRAME_SIZE,
                FRAME_SIZE,
            ),
{
    lemma_hair_fits(12);
    let head = seq![stroke(26, 4, 12, 12, Paint::Skin)];
    let hair = hair_strokes(12);
    let body = body_strokes(spec_pose(frame));
    assert forall|i: int| 0 <= i < body.len() implies fits(#[trigger] body[i], FRAME_SIZE, FRAME_SIZE) by {
    }
    assert forall|i: int| 0 <= i < spec_figure(frame).len() implies fits(
        #[trigger] spec_figure(frame)[i],
        FRAME_SIZE,
        FRAME_SIZE,
    ) by {
        if i < 1 {
        } else if i < 1 + hair.len() {
            assert(spec_figure(frame)[i] == hair[i - 1]);
        } else {
            assert(spec_figure(frame)[i] == body[i - 1 - hair.len()]);
        }
    }
}

/// Every rectangle of the figure in `frame`, in drawing order.
pub fn figure_strokes(frame: u32) -> (r: Vec<Stroke>)
    ensures
        r@ == spec_figure(frame),
{
    let p = pose_of(frame);
    let mut v: Vec<Stroke> = Vec::new();
    v.push(Stroke { x: 26, y: 4, w: 12, h: 12, paint: Paint::Skin });
    let mut dx: u32 = 0;
    while dx < 12
        invariant
            dx <= 12,
            v@ == seq![stroke(26, 4, 12, 12, Paint::Skin)].add(hair_strokes(dx as nat)),
        decreases 12 - dx,
    {
        v.push(Stroke { x: 26 + dx, y: 3, w: 1, h: 1, paint: Paint::Hair });
        if dx % 2 == 0 {
            v.push(Stroke { x: 26 + dx, y: 4, w: 1, h: 1, paint: Paint::Hair });
        }
        assert(v@ =~= seq![stroke(26, 4, 12, 12, Paint::Skin)].add(hair_strokes((dx + 1) as nat)));
        dx = dx + 1;
    }
    let ghost before = v@;
    let la: u32 = (18 + p.left_arm) as u32;
    let ra: u32 = (40 + p.right_arm) as u32;
    let ll: u32 = (26 + p.left_leg) as u32;
    let rl: u32 = (34 + p.right_leg) as u32;
    v.push(Stroke { x: 28, y: 9, w: 2, h: 2, paint: Paint::Eyes });
    v.push(Stroke { x: 34, y: 9, w: 2, h: 2, paint: Paint::Eyes });
    v.push(Stroke { x: 29, y: 10, w: 1, h: 1, paint: Paint::Pupil });
    v.push(Stroke { x: 35, y: 10, w: 1, h: 1, paint: Paint::Pupil });
    v.push(Stroke { x: 31, y: 11, w: 2, h: 2, paint: Paint::Nose });
    v.push(Stroke { x: 29, y: 14, w: 6, h: 1, paint: Paint::Mouth });
    v.push(Stroke { x: 30, y: 15, w: 4, h: 1, paint: Paint::Mouth });
    v.push(Stroke { x: 24, y: 16, w: 16, h: 18, paint: Paint::Shirt });
    v.push(Stroke { x: la, y: 16, w: 6, h: 18, paint: Paint::Shirt });
    v.push(Stroke { x: ra, y: 16, w: 6, h: 18, paint: Paint::Shirt });
    v.push(Stroke { x: la + 1, y: 34, w: 4, h: 4, paint: Paint::Skin });
    v.push(Stroke { x: ra + 1, y: 34, w: 4, h: 4, paint: Paint::Skin });
    v.push(Stroke { x: ll, y: 34, w: 6, h: 20, paint: Paint::Pants });
    v.push(Stroke { x: rl, y: 34, w: 6, h: 20, paint: Paint::Pants });
    v.push(Stroke { x: ll, y: 54, w: 6, h: 3, paint: Paint::ShoesTop });
    v.push(Stroke { x: ll, y: 57, w: 6, h: 1, paint: Paint::ShoesBottom });
    v.push(Stroke { x: rl, y: 54, w: 6, h: 3, paint: Paint::ShoesTop });
    v.push(Stroke { x: rl, y: 57, w: 6, h: 1, paint: Paint::ShoesBottom });
    assert(v@ =~= before.add(body_strokes(p)));
    v
}

/// Paints the strokes onto `img` in order, each overwriting what lies under
/// it. Every stroke must lie inside the image.
pub fn render_strokes(img: &mut Canvas, strokes: &Vec<Stroke>)
    requires
        forall|i: int|
            0 <= i < strokes@.len() ==> fits(
                #[trigger] strokes@[i],
                dims_of(*old(img)).0,
                dims_of(*old(img)).1,
            ),
    ensures
        dims_of(*final(img)) == dims_of(*old(img)),
        pixels_of(*final(img)) == paint(strokes@, pixels_of(*old(img))),
{
    let ghost m0 = pixels_of(*img);
    let mut i: usize = 0;
    while i < strokes.len()
        invariant
            i <= strokes@.len(),
            dims_of(*img) == dims_of(*old(img)),
            forall|j: int|
                0 <= j < strokes@.len() ==> fits(
                    #[trigger] strokes@[j],
                    dims_of(*img).0,
                    dims_of(*img).1,
                ),
            pixels_of(*img) == paint(strokes@.take(i as int), m0),
        decreases strokes@.len() - i,
    {
        let s = strokes[i];
        let c = s.paint.color();
        draw_rect(img, s.x, s.y, s.w, s.h, c);
        proof {
            let t = strokes@.take(i + 1);
            assert(t.drop_last() =~= strokes@.take(i as int));
            assert(t.last() == s);
        }
        i = i + 1;
    }
    assert(strokes@.take(i as int) =~= strokes@);
}

/// Draws frame `frame` of the walk cycle: a 64 by 64 image, transparent but
/// for the figure in the pose of that frame.
pub fn generate_frame(frame: u32) -> (img: Canvas)
    ensures
        dims_of(img) == (FRAME_SIZE, FRAME_SIZE),
        pixels_of(img) == frame_pixels(frame),
{
    let strokes = figure_strokes(frame);
    let mut img = Canvas::transparent(FRAME_SIZE, FRAME_SIZE);
    proof {
        lemma_figure_fits(frame);
    }
    render_strokes(&mut img, &strokes);
    img
}

/// The pixels of the sprite sheet: frame `i` occupies columns `64 * i` up
/// to `64 * i + 63`.
pub open spec fn sheet_pixels() -> Map<(u32, u32), Color> {
    Map::new(
        |p: (u32, u32)| p.0 < SHEET_WIDTH && p.1 < FRAME_SIZE,
        |p: (u32, u32)| frame_pixels((p.0 / FRAME_SIZE) as u32)[((p.0 % FRAME_SIZE) as u32, p.1)],
    )
}

/// The sheet while it is being filled: pixels up to column `x` of row `y`
/// of frame `f` (and all of the frames before) are copied, the rest are
/// still transparent.
spec fn sheet_progress(f: int, y: int, x: int) -> Map<(u32, u32), Color> {
    Map::new(
        |p: (u32, u32)| p.0 < SHEET_WIDTH && p.1 < FRAME_SIZE,
        |p: (u32, u32)|
            if p.0 < 64 * f || (p.0 < 64 * f + 64 && (p.1 < y || (p.1 == y && p.0 < 64 * f + x))) {
                sheet_pixels()[p]
            } else {
                transparent()
            },
    )
}

/// Draws the four frames and lays them out left to right in one 256 by 64
/// image.
pub fn generate_sprite_sheet() -> (sheet: Canvas)
    ensures
        dims_of(sheet) == (SHEET_WIDTH, FRAME_SIZE),
        pixels_of(sheet) == sheet_pixels(),
{
    let mut sheet = Canvas::transparent(SHEET_WIDTH, FRAME_SIZE);
    assert(pixels_of(sheet) =~= sheet_progress(0, 0, 0));
    let mut frame: u32 = 0;
    while frame < FRAME_COUNT
        invariant
            frame <= FRAME_COUNT,
            dims_of(sheet) == (SHEET_WIDTH, FRAME_SIZE),
            pixels_of(sheet) == sheet_progress(frame as int, 0, 0),
        decreases FRAME_COUNT - frame,
    {
        let img = generate_frame(frame);
        let (w, h) = img.dimensions();
        let mut y: u32 = 0;
        while y < h
            invariant
                frame < FRAME_COUNT,
                y <= FRAME_SIZE,
                dims_of(sheet) == (SHEET_WIDTH, FRAME_SIZE),
                dims_of(img) == (FRAME_SIZE, FRAME_SIZE),
                (w, h) == dims_of(img),
                pixels_of(img) == frame_pixels(frame),
                pixels_of(sheet) == sheet_progress(frame as int, y as int, 0),
            decreases h - y,
        {
            let mut x: u32 = 0;
            while x < w
                invariant
                    frame < FRAME_COUNT,
                    y < FRAME_SIZE,
                    x <= FRAME_SIZE,
                    dims_of(sheet) == (SHEET_WIDTH, FRAME_SIZE),
                    dims_of(img) == (FRAME_SIZE, FRAME_SIZE),
                    (w, h) == dims_of(img),
                    pixels_of(img) == frame_pixels(frame),
                    pixels_of(sheet) == sheet_progress(frame as int, y as int, x as int),
                decreases w - x,
            {
                let px = img.get_pixel(x, y);
                let sx = frame * FRAME_SIZE + x;
                sheet.put_pixel(sx, y, px);
                proof {
                    assert(sx / 64 == frame && sx % 64 == x) by (nonlinear_arith)
                        requires
                            sx == frame * 64 + x,
                            x < 64,
                    ;
                    assert(pixels_of(sheet) =~= sheet_progress(
                        frame as int,
                        y as int,
                        x + 1,
                    ));
                }
                x = x + 1;
            }
            assert(pixels_of(sheet) =~= sheet_progress(frame as int, y + 1, 0));
            y = y + 1;
        }
        assert(pixels_of(sheet) =~= sheet_progress(frame + 1, 0, 0));
        frame = frame + 1;
    }
    assert(pixels_of(sheet) =~= sheet_pixels());
    sheet
}

/// Each slice of the sheet is its frame: the pixel at `(x, y)` of frame `i`
/// is the pixel at `(64 * i + x, y)` of the sheet.
pub proof fn lemma_sheet_holds_frames(i: u32, x: u32, y: u32)
    requires
        i < FRAME_COUNT,
        x < FRAME_SIZE,
        y < FRAME_SIZE,
    ensures
        sheet_pixels().contains_key(((i * FRAME_SIZE + x) as u32, y)),
        sheet_pixels()[((i * FRAME_SIZE + x) as u32, y)] == frame_pixels(i)[(x, y)],
{
    let sx = (i * FRAME_SIZE + x) as u32;
    assert(sx / 64 == i && sx % 64 == x) by (nonlinear_arith)
        requires
            sx == i * 64 + x,
            x < 64,
    ;
}

} // verus!
