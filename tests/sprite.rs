use walk_sprite::anim::{AnimState, DrawCommand, Rect, FRAME_MICROS};
use walk_sprite::canvas::{draw_rect, Canvas};
use walk_sprite::color::{clear, Color, Paint};
use walk_sprite::figure::{
    figure_strokes, generate_frame, generate_sprite_sheet, pose_of, Pose, FRAME_COUNT,
    FRAME_SIZE, SHEET_WIDTH,
};

/// A decoded image: width and RGBA bytes.
struct Pixels {
    width: u32,
    bytes: Vec<u8>,
}

fn pixels(img: Canvas, width: u32) -> Pixels {
    Pixels { width, bytes: img.into_rgba() }
}

fn frame(i: u32) -> Pixels {
    pixels(generate_frame(i), 64)
}

fn sheet() -> Pixels {
    pixels(generate_sprite_sheet(), 256)
}

fn px(img: &Pixels, x: u32, y: u32) -> Color {
    let i = 4 * (y as usize * img.width as usize + x as usize);
    let b = &img.bytes;
    Color { r: b[i], g: b[i + 1], b: b[i + 2], a: b[i + 3] }
}

#[test]
fn frames_are_64_by_64() {
    for i in 0..FRAME_COUNT {
        let f = frame(i);
        assert_eq!(f.bytes.len(), 4 * 64 * 64);
        assert_eq!(px(&f, 63, 63), clear());
    }
}

#[test]
fn sheet_is_256_by_64() {
    let s = sheet();
    assert_eq!(s.bytes.len(), 4 * 256 * 64);
    assert_eq!(px(&s, 255, 63), clear());
    assert_eq!(SHEET_WIDTH, FRAME_SIZE * FRAME_COUNT);
}

#[test]
fn sheet_slices_equal_frames() {
    let s = sheet();
    for i in 0..FRAME_COUNT {
        let f = frame(i);
        for y in 0..64 {
            for x in 0..64 {
                assert_eq!(px(&s, i * 64 + x, y), px(&f, x, y));
            }
        }
    }
}

#[test]
fn pose_table() {
    assert_eq!(pose_of(0), Pose { left_arm: -2, right_arm: 2, left_leg: 2, right_leg: -2 });
    assert_eq!(pose_of(1), Pose { left_arm: 0, right_arm: 0, left_leg: 0, right_leg: 0 });
    assert_eq!(pose_of(2), Pose { left_arm: 2, right_arm: -2, left_leg: -2, right_leg: 2 });
    assert_eq!(pose_of(3), Pose { left_arm: 0, right_arm: 0, left_leg: 0, right_leg: 0 });
}

fn arm_columns(frame: u32) -> (u32, u32) {
    let strokes = figure_strokes(frame);
    let arms: Vec<u32> = strokes
        .iter()
        .filter(|s| s.paint == Paint::Shirt && s.w == 6 && s.h == 18)
        .map(|s| s.x)
        .collect();
    assert_eq!(arms.len(), 2);
    (arms[0], arms[1])
}

fn leg_columns(frame: u32) -> (u32, u32) {
    let strokes = figure_strokes(frame);
    let legs: Vec<u32> = strokes
        .iter()
        .filter(|s| s.paint == Paint::Pants)
        .map(|s| s.x)
        .collect();
    assert_eq!(legs.len(), 2);
    (legs[0], legs[1])
}

#[test]
fn arm_and_leg_columns_by_frame() {
    assert_eq!(arm_columns(0), (16, 42));
    assert_eq!(arm_columns(1), (18, 40));
    assert_eq!(arm_columns(2), (20, 38));
    assert_eq!(arm_columns(3), (18, 40));
    assert_eq!(leg_columns(0), (28, 32));
    assert_eq!(leg_columns(1), (26, 34));
    assert_eq!(leg_columns(2), (24, 36));
    assert_eq!(leg_columns(3), (26, 34));
}

#[test]
fn arm_pixels_frame_0() {
    let f = frame(0);
    let shirt = Paint::Shirt.color();
    assert_eq!(px(&f, 15, 20), clear());
    assert_eq!(px(&f, 16, 20), shirt);
    assert_eq!(px(&f, 21, 20), shirt);
    assert_eq!(px(&f, 22, 20), clear());
    assert_eq!(px(&f, 41, 20), clear());
    assert_eq!(px(&f, 42, 20), shirt);
    assert_eq!(px(&f, 47, 20), shirt);
    assert_eq!(px(&f, 48, 20), clear());
    assert_eq!(px(&f, 17, 35), Paint::Skin.color());
}

#[test]
fn arm_pixels_frame_2() {
    let f = frame(2);
    let shirt = Paint::Shirt.color();
    assert_eq!(px(&f, 19, 20), clear());
    assert_eq!(px(&f, 20, 20), shirt);
    assert_eq!(px(&f, 43, 20), shirt);
    assert_eq!(px(&f, 44, 20), clear());
}

#[test]
fn leg_pixels() {
    let pants = Paint::Pants.color();
    let f0 = frame(0);
    assert_eq!(px(&f0, 27, 40), clear());
    assert_eq!(px(&f0, 28, 40), pants);
    assert_eq!(px(&f0, 37, 40), pants);
    assert_eq!(px(&f0, 38, 40), clear());
    let f1 = frame(1);
    assert_eq!(px(&f1, 26, 40), pants);
    assert_eq!(px(&f1, 32, 40), clear());
    assert_eq!(px(&f1, 33, 40), clear());
    assert_eq!(px(&f1, 34, 40), pants);
    let f2 = frame(2);
    assert_eq!(px(&f2, 23, 40), clear());
    assert_eq!(px(&f2, 24, 40), pants);
    assert_eq!(px(&f2, 32, 40), clear());
    assert_eq!(px(&f2, 41, 40), pants);
    assert_eq!(px(&f2, 42, 40), clear());
}

#[test]
fn head_and_face_pixels() {
    let f = frame(1);
    assert_eq!(px(&f, 26, 3), Paint::Hair.color());
    assert_eq!(px(&f, 37, 3), Paint::Hair.color());
    assert_eq!(px(&f, 38, 3), clear());
    assert_eq!(px(&f, 26, 4), Paint::Hair.color());
    assert_eq!(px(&f, 27, 4), Paint::Skin.color());
    assert_eq!(px(&f, 28, 4), Paint::Hair.color());
    assert_eq!(px(&f, 28, 9), Paint::Eyes.color());
    assert_eq!(px(&f, 29, 10), Paint::Pupil.color());
    assert_eq!(px(&f, 35, 10), Paint::Pupil.color());
    assert_eq!(px(&f, 31, 11), Paint::Nose.color());
    assert_eq!(px(&f, 29, 14), Paint::Mouth.color());
    assert_eq!(px(&f, 29, 15), Paint::Skin.color());
    assert_eq!(px(&f, 30, 15), Paint::Mouth.color());
    assert_eq!(px(&f, 24, 16), Paint::Shirt.color());
    assert_eq!(px(&f, 26, 55), Paint::ShoesTop.color());
    assert_eq!(px(&f, 26, 57), Paint::ShoesBottom.color());
    assert_eq!(px(&f, 26, 58), clear());
    assert_eq!(px(&f, 0, 0), clear());
    assert_eq!(px(&f, 63, 63), clear());
}

#[test]
fn palette_values() {
    assert_eq!(Paint::Skin.color(), Color { r: 220, g: 180, b: 140, a: 255 });
    assert_eq!(Paint::Hair.color(), Color { r: 60, g: 30, b: 20, a: 255 });
    assert_eq!(Paint::Shirt.color(), Color { r: 50, g: 120, b: 200, a: 255 });
    assert_eq!(Paint::Mouth.color(), Color { r: 150, g: 0, b: 0, a: 255 });
    assert_eq!(clear(), Color { r: 0, g: 0, b: 0, a: 0 });
}

#[test]
fn draw_rect_overwrites_box_only() {
    let red = Color { r: 255, g: 0, b: 0, a: 255 };
    let blue = Color { r: 0, g: 0, b: 255, a: 255 };
    let mut canvas = Canvas::transparent(8, 8);
    draw_rect(&mut canvas, 2, 3, 4, 2, red);
    draw_rect(&mut canvas, 5, 4, 3, 4, blue);
    let img = pixels(canvas, 8);
    assert_eq!(img.bytes.len(), 4 * 8 * 8);
    assert_eq!(px(&img, 2, 3), red);
    assert_eq!(px(&img, 5, 3), red);
    assert_eq!(px(&img, 4, 4), red);
    assert_eq!(px(&img, 5, 4), blue);
    assert_eq!(px(&img, 7, 7), blue);
    assert_eq!(px(&img, 1, 3), clear());
    assert_eq!(px(&img, 6, 3), clear());
    assert_eq!(px(&img, 2, 5), clear());
}

#[test]
fn draw_rect_empty_box() {
    let mut canvas = Canvas::transparent(4, 4);
    draw_rect(&mut canvas, 4, 4, 0, 0, Paint::Skin.color());
    let img = pixels(canvas, 4);
    for y in 0..4 {
        for x in 0..4 {
            assert_eq!(px(&img, x, y), clear());
        }
    }
}

#[test]
fn raw_bytes_layout() {
    let bytes = generate_sprite_sheet().into_rgba();
    assert_eq!(bytes.len(), 4 * 256 * 64);
    let i = 4 * (6 * 256 + 30);
    assert_eq!(&bytes[i..i + 4], &[220, 180, 140, 255]);
    let i = 4 * (3 * 256 + 26);
    assert_eq!(&bytes[i..i + 4], &[60, 30, 20, 255]);
    let i = 4 * (20 * 256 + 128 + 20);
    assert_eq!(&bytes[i..i + 4], &[50, 120, 200, 255]);
    let i = 4 * (20 * 256 + 128 + 19);
    assert_eq!(&bytes[i..i + 4], &[0, 0, 0, 0]);
}

#[test]
fn png_round_trip_keeps_pixels() {
    let bytes = generate_sprite_sheet().into_rgba();
    let img: image::RgbaImage = image::ImageBuffer::from_raw(256, 64, bytes.clone()).unwrap();
    let mut out = std::io::Cursor::new(Vec::new());
    img.write_to(&mut out, image::ImageOutputFormat::Png).unwrap();
    let back = image::load_from_memory_with_format(out.get_ref(), image::ImageFormat::Png)
        .unwrap()
        .to_rgba8();
    assert_eq!(back.dimensions(), (256, 64));
    assert_eq!(back.into_raw(), bytes);
}

#[test]
fn timer_advances_once_per_duration() {
    let mut s = AnimState::new();
    assert_eq!(s, AnimState { frame: 0, timer_us: 0 });
    assert!(!s.tick(150_000));
    assert_eq!(s, AnimState { frame: 0, timer_us: 150_000 });
    assert!(s.tick(50_000));
    assert_eq!(s, AnimState { frame: 1, timer_us: 0 });
    assert!(s.tick(1_000_000));
    assert_eq!(s, AnimState { frame: 2, timer_us: 0 });
}

#[test]
fn small_steps_match_one_step() {
    let mut a = AnimState::new();
    let mut advances = 0;
    for _ in 0..20 {
        if a.tick(FRAME_MICROS / 20) {
            advances += 1;
        }
    }
    let mut b = AnimState::new();
    assert!(b.tick(FRAME_MICROS));
    assert_eq!(advances, 1);
    assert_eq!(a, b);
    assert_eq!(a, AnimState { frame: 1, timer_us: 0 });
}

#[test]
fn uneven_steps_advance_once() {
    let mut a = AnimState::new();
    assert!(!a.tick(70_000));
    let mut advances = 0;
    for dt in [30_000u64, 90_000, 60_000, 20_000] {
        if a.tick(dt) {
            advances += 1;
        }
    }
    assert_eq!(advances, 1);
    assert_eq!(a.frame, 1);
}

#[test]
fn four_advances_return_to_start() {
    let mut s = AnimState::new();
    let mut seen = Vec::new();
    for _ in 0..4 {
        assert!(s.tick(FRAME_MICROS));
        assert!(s.frame < 4);
        seen.push(s.frame);
    }
    assert_eq!(seen, vec![1, 2, 3, 0]);
    assert_eq!(s, AnimState::new());
}

#[test]
fn huge_step_does_not_overflow() {
    let mut s = AnimState::new();
    assert!(!s.tick(199_999));
    assert!(s.tick(u64::MAX));
    assert_eq!(s, AnimState { frame: 1, timer_us: 0 });
}

#[test]
fn draw_command_centres_double_size() {
    let mut s = AnimState::new();
    assert_eq!(
        s.draw_command(800, 600),
        DrawCommand {
            source: Rect { x: 0, y: 0, w: 64, h: 64 },
            dest_x: 336,
            dest_y: 236,
            dest_size: 128,
        }
    );
    s.tick(FRAME_MICROS);
    s.tick(FRAME_MICROS);
    s.tick(FRAME_MICROS);
    let c = s.draw_command(100, 64);
    assert_eq!(c.source, Rect { x: 192, y: 0, w: 64, h: 64 });
    assert_eq!((c.dest_x, c.dest_y, c.dest_size), (-14, -32, 128));
}
