use clawbot_web::captcha_image::{
    finish_image, move_color, plan_captcha_image, start_image, ImagePlan, Speck, Stroke, CHAR_BITMAPS,
};
use clawbot_web::raster::{draw_line, Canvas, Color};

const WHITE: Color = Color { r: 255, g: 255, b: 255 };
const RED: Color = Color { r: 200, g: 10, b: 20 };

fn coloured(c: &Canvas) -> Vec<(u32, u32)> {
    let mut out = Vec::new();
    for y in 0..c.height() {
        for x in 0..c.width() {
            if c.pixel(x, y) == Some(RED) {
                out.push((x, y));
            } else {
                assert_eq!(c.pixel(x, y), Some(WHITE));
            }
        }
    }
    out
}

fn line(w: u32, h: u32, x1: usize, y1: usize, x2: usize, y2: usize) -> Vec<(u32, u32)> {
    let mut c = Canvas::of_color(w, h, WHITE);
    draw_line(&mut c, x1, y1, x2, y2, RED);
    coloured(&c)
}

/// The walk with an error term, step by step.
fn walk(x1: i32, y1: i32, x2: i32, y2: i32) -> Vec<(i32, i32)> {
    let dx = (x2 - x1).abs();
    let dy = -(y2 - y1).abs();
    let sx = if x1 < x2 { 1 } else { -1 };
    let sy = if y1 < y2 { 1 } else { -1 };
    let mut err = dx + dy;
    let (mut x, mut y) = (x1, y1);
    let mut out = Vec::new();
    loop {
        out.push((x, y));
        if x == x2 && y == y2 {
            return out;
        }
        let e2 = 2 * err;
        if e2 >= dy {
            err += dy;
            x += sx;
        }
        if e2 <= dx {
            err += dx;
            y += sy;
        }
    }
}

#[test]
fn canvas_holds_its_pixels() {
    let mut c = Canvas::of_color(3, 2, Color { r: 1, g: 2, b: 3 });
    assert_eq!((c.width(), c.height()), (3, 2));
    c.set_pixel(2, 1, RED);
    c.set_pixel(3, 1, WHITE);
    c.set_pixel(0, 2, WHITE);
    assert_eq!(c.pixel(2, 1), Some(RED));
    assert_eq!(c.pixel(1, 1), Some(Color { r: 1, g: 2, b: 3 }));
    assert_eq!(c.pixel(3, 1), None);
    assert_eq!(c.pixel(0, 2), None);
}

#[test]
fn straight_lines() {
    assert_eq!(line(5, 3, 1, 1, 3, 1), [(1, 1), (2, 1), (3, 1)]);
    assert_eq!(line(5, 3, 3, 1, 1, 1), [(1, 1), (2, 1), (3, 1)]);
    assert_eq!(line(3, 3, 1, 0, 1, 2), [(1, 0), (1, 1), (1, 2)]);
    assert_eq!(line(3, 3, 0, 0, 2, 2), [(0, 0), (1, 1), (2, 2)]);
    assert_eq!(line(3, 3, 1, 1, 1, 1), [(1, 1)]);
}

#[test]
fn slanted_line() {
    assert_eq!(line(5, 2, 0, 0, 4, 1), [(0, 0), (1, 0), (2, 1), (3, 1), (4, 1)]);
}

#[test]
fn lines_are_clipped() {
    assert_eq!(line(2, 2, 0, 0, 9, 9), [(0, 0), (1, 1)]);
    assert_eq!(line(2, 2, 5, 5, 9, 9), []);
}

#[test]
fn lines_follow_the_walk() {
    for x1 in 0..5 {
        for y1 in 0..4 {
            for x2 in 0..7 {
                for y2 in 0..6 {
                    let mut expected: Vec<(u32, u32)> =
                        walk(x1, y1, x2, y2).iter().map(|p| (p.0 as u32, p.1 as u32)).collect();
                    expected.sort_by_key(|p| (p.1, p.0));
                    let drawn = line(8, 8, x1 as usize, y1 as usize, x2 as usize, y2 as usize);
                    assert_eq!(drawn, expected);
                }
            }
        }
    }
}

#[test]
fn picture_is_a_png_of_the_pixels() {
    let mut c = Canvas::of_color(2, 2, WHITE);
    c.set_pixel(1, 0, RED);
    let png = c.to_png().unwrap();
    assert_eq!(&png[..8], &[137, 80, 78, 71, 13, 10, 26, 10]);
    let img = image::load_from_memory(&png).unwrap().to_rgb8();
    assert_eq!(img.dimensions(), (2, 2));
    assert_eq!(img.get_pixel(1, 0).0, [200, 10, 20]);
    assert_eq!(img.get_pixel(0, 1).0, [255, 255, 255]);
}

#[test]
fn picture_without_pixels_is_refused() {
    let c = Canvas::of_color(0, 3, WHITE);
    assert!(!c.to_png().unwrap_err().is_empty());
    let c = Canvas::of_color(3, 0, WHITE);
    assert!(!c.to_png().unwrap_err().is_empty());
    assert!(Canvas::of_color(1, 1, WHITE).to_png().is_ok());
}

#[test]
fn plan_has_the_size_of_the_code() {
    let p = plan_captcha_image("A1B2C3");
    assert_eq!((p.width, p.height), (322, 91));
    assert_eq!(p.specks.len(), 100);
    assert_eq!(p.strokes.len(), 3);
    assert_eq!(p.glyphs.len(), 6);
    let p = plan_captcha_image("0");
    assert_eq!(p.width, 77);
}

#[test]
fn plan_keeps_its_ranges() {
    let p = plan_captcha_image("XYZ789");
    for s in &p.specks {
        assert!(s.x < p.width && s.y < p.height && (40..120).contains(&s.shade));
    }
    for s in &p.strokes {
        assert!(s.x1 < 322 && s.x2 < 322 && s.y1 < 91 && s.y2 < 91);
        for v in [s.color.r, s.color.g, s.color.b] {
            assert!((80..180).contains(&v));
        }
    }
    for g in &p.glyphs {
        for v in [g.base.r, g.base.g, g.base.b] {
            assert!((30..200).contains(&v));
        }
        for d in &g.dots {
            assert!(d.color.r.abs_diff(g.base.r) <= 15);
            assert!(d.color.g.abs_diff(g.base.g) <= 15);
            assert!(d.color.b.abs_diff(g.base.b) <= 15);
            assert!(21 <= d.x && d.x <= p.width - 21);
            assert!(21 <= d.y && d.y <= p.height - 21);
        }
    }
}

#[test]
fn dots_follow_the_font() {
    assert_eq!(CHAR_BITMAPS[1], [0b00100, 0b01100, 0b00100, 0b00100, 0b00100, 0b00100, 0b01110]);
    let p = plan_captcha_image("01");
    let at: Vec<(u32, u32)> = p.glyphs[1].dots.iter().map(|d| (d.x, d.y)).collect();
    let left = 21 + 49;
    assert_eq!(
        at,
        [
            (left + 14, 21),
            (left + 7, 28),
            (left + 14, 28),
            (left + 14, 35),
            (left + 14, 42),
            (left + 14, 49),
            (left + 14, 56),
            (left + 7, 63),
            (left + 14, 63),
            (left + 21, 63),
        ]
    );
}

#[test]
fn image_is_drawn_in_order() {
    let plan = ImagePlan {
        width: 4,
        height: 3,
        specks: vec![
            Speck { x: 1, y: 1, shade: 50 },
            Speck { x: 1, y: 1, shade: 60 },
            Speck { x: 3, y: 2, shade: 70 },
        ],
        glyphs: Vec::new(),
        strokes: vec![
            Stroke { x1: 0, y1: 2, x2: 3, y2: 2, color: Color { r: 90, g: 91, b: 92 } },
            Stroke { x1: 0, y1: 0, x2: 0, y2: 2, color: Color { r: 100, g: 101, b: 102 } },
        ],
    };
    let mut c = start_image(&plan);
    assert_eq!(c.pixel(0, 0), Some(Color { r: 240, g: 240, b: 235 }));
    assert_eq!(c.pixel(1, 1), Some(Color { r: 60, g: 60, b: 60 }));
    assert_eq!(c.pixel(3, 2), Some(Color { r: 70, g: 70, b: 70 }));
    let png = finish_image(&mut c, &plan).unwrap();
    assert_eq!(c.pixel(3, 2), Some(Color { r: 90, g: 91, b: 92 }));
    assert_eq!(c.pixel(0, 2), Some(Color { r: 100, g: 101, b: 102 }));
    let img = image::load_from_memory(&png).unwrap().to_rgb8();
    assert_eq!(img.dimensions(), (4, 3));
    assert_eq!(img.get_pixel(0, 0).0, [100, 101, 102]);
    assert_eq!(img.get_pixel(1, 1).0, [60, 60, 60]);
}

#[test]
fn colours_are_moved_and_cut() {
    let base = Color { r: 5, g: 250, b: 100 };
    assert_eq!(move_color(base, -15, 15, 0), Color { r: 0, g: 255, b: 100 });
    assert_eq!(move_color(base, 15, -15, 7), Color { r: 20, g: 235, b: 107 });
}
