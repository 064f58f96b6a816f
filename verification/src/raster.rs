//! Drawing on RGB images.

use image::ImageEncoder;
use vstd::prelude::*;

use crate::model;

verus! {

/// A colour with eight bits per channel.
#[derive(Clone, Copy, Debug, PartialEq, Eq, Structural)]
pub struct Color {
    pub r: u8,
    pub g: u8,
    pub b: u8,
}

/// An image of the `image` crate, `image::RgbImage`.
#[verifier::external_body]
#[derive(Debug)]
pub struct Canvas {
    img: image::RgbImage,
}

/// The bytes of an image: three for each pixel, row by row from the top.
pub uninterp spec fn canvas_bytes(c: Canvas) -> Seq<u8>;

/// The number of pixels in a row of an image.
pub uninterp spec fn canvas_width(c: Canvas) -> nat;

/// The number of rows of an image.
pub uninterp spec fn canvas_height(c: Canvas) -> nat;

/// Where the bytes of the pixel `(x, y)` start in an image of the given width.
pub open spec fn pixel_start(width: nat, x: int, y: int) -> int {
    3 * (y * width + x)
}

/// The bytes of an image after the pixel `(x, y)` got the colour `color`.
pub open spec fn with_pixel(bytes: Seq<u8>, width: nat, x: int, y: int, color: Color) -> Seq<u8> {
    let i = pixel_start(width, x, y);
    bytes.update(i, color.r).update(i + 1, color.g).update(i + 2, color.b)
}

/// The colour of the pixel `(x, y)`.
pub open spec fn pixel_at(bytes: Seq<u8>, width: nat, x: int, y: int) -> Color {
    let i = pixel_start(width, x, y);
    Color { r: bytes[i], g: bytes[i + 1], b: bytes[i + 2] }
}

/// `image::RgbImage::new`: a black image, every byte zero. It panics where the bytes of a
/// row, or of the image, are more than can be addressed.
#[verifier::external_body]
fn blank_image(width: u32, height: u32) -> (c: Canvas)
    requires
        3 * width <= isize::MAX,
        3 * width * height <= isize::MAX,
    ensures
        canvas_width(c) == width,
        canvas_height(c) == height,
        canvas_bytes(c) == Seq::new((3 * width * height) as nat, |i: int| 0u8),
{
    Canvas { img: image::RgbImage::new(width, height) }
}

/// `ImageBuffer::width`: the number of pixels in a row.
#[verifier::external_body]
fn image_width(c: &Canvas) -> (w: u32)
    ensures
        w == canvas_width(*c),
{
    c.img.width()
}

/// `ImageBuffer::height`: the number of rows.
#[verifier::external_body]
fn image_height(c: &Canvas) -> (h: u32)
    ensures
        h == canvas_height(*c),
{
    c.img.height()
}

/// `ImageBuffer::put_pixel`: the three bytes of one pixel are replaced, and
/// nothing else changes. It panics outside the image.
#[verifier::external_body]
fn put_pixel(c: &mut Canvas, x: u32, y: u32, color: Color)
    requires
        x < canvas_width(*old(c)),
        y < canvas_height(*old(c)),
    ensures
        canvas_width(*final(c)) == canvas_width(*old(c)),
        canvas_height(*final(c)) == canvas_height(*old(c)),
        canvas_bytes(*final(c)) == with_pixel(
            canvas_bytes(*old(c)),
            canvas_width(*old(c)),
            x as int,
            y as int,
            color,
        ),
{
    c.img.put_pixel(x, y, image::Rgb([color.r, color.g, color.b]))
}

/// `ImageBuffer::get_pixel`: the three bytes of one pixel. It panics outside the
/// image.
#[verifier::external_body]
fn get_pixel(c: &Canvas, x: u32, y: u32) -> (color: Color)
    requires
        x < canvas_width(*c),
        y < canvas_height(*c),
    ensures
        color == pixel_at(canvas_bytes(*c), canvas_width(*c), x as int, y as int),
{
    let image::Rgb([r, g, b]) = *c.img.get_pixel(x, y);
    Color { r, g, b }
}

/// The PNG file that `image` writes for the pixels of an image, or the text of its
/// error.
pub uninterp spec fn png_file(bytes: Seq<u8>, width: nat, height: nat) -> Result<
    Seq<u8>,
    Seq<char>,
>;

/// Whether an image of the given size can be encoded: the bytes of a row, with the one
/// that names its filter, are counted in 32 bits, and the encoder's buffers, which may
/// grow to four times the rows, can be addressed.
pub open spec fn encodable(width: nat, height: nat) -> bool {
    &&& 3 * width + 1 <= u32::MAX
    &&& 4 * (3 * width * height + height) + 1024 <= isize::MAX
}

/// `PngEncoder::write_image` with eight bits per channel: a function of the pixels
/// and the size, which fails for an image without pixels only. It panics where the number
/// of bytes does not belong to the size, or where the image is too large to be encoded.
#[verifier::external_body]
fn encode_png(c: &Canvas) -> (r: Result<Vec<u8>, String>)
    requires
        c.wf(),
        encodable(canvas_width(*c), canvas_height(*c)),
    ensures
        model::outcome(r) == png_file(canvas_bytes(*c), canvas_width(*c), canvas_height(*c)),
        (r is Ok) == (canvas_width(*c) > 0 && canvas_height(*c) > 0),
{
    let mut buf = Vec::new();
    match image::codecs::png::PngEncoder::new(&mut buf).write_image(
        c.img.as_raw(),
        c.img.width(),
        c.img.height(),
        image::ColorType::Rgb8.into(),
    ) {
        Ok(()) => Ok(buf),
        Err(e) => Err(e.to_string()),
    }
}

/// The part of a colour that stands at byte `i` of an image of that colour.
pub open spec fn channel(color: Color, i: int) -> u8 {
    if i % 3 == 0 {
        color.r
    } else if i % 3 == 1 {
        color.g
    } else {
        color.b
    }
}

/// The bytes of an image of one colour.
pub open spec fn filled(width: nat, height: nat, color: Color) -> Seq<u8> {
    Seq::new((3 * width * height) as nat, |i: int| channel(color, i))
}

impl Canvas {
    /// Every pixel has its three bytes.
    pub open spec fn wf(self) -> bool {
        canvas_bytes(self).len() == 3 * canvas_width(self) * canvas_height(self)
    }

    /// Makes an image of one colour.
    pub fn of_color(width: u32, height: u32, color: Color) -> (c: Canvas)
        requires
            3 * width <= isize::MAX,
            3 * width * height <= isize::MAX,
        ensures
            canvas_width(c) == width,
            canvas_height(c) == height,
            canvas_bytes(c) == filled(width as nat, height as nat, color),
            c.wf(),
    {
        let mut c: Canvas = blank_image(width, height);
        let mut y: u32 = 0;
        let ghost total = 3 * width * height;
        proof {
            assert(0 * width == 0) by (nonlinear_arith);
        }
        while y < height
            invariant
                y <= height,
                canvas_width(c) == width,
                canvas_height(c) == height,
                total == 3 * width * height,
                canvas_bytes(c).len() == total,
                forall|j: int|
                    0 <= j < 3 * (y * width) ==> #[trigger] canvas_bytes(c)[j] == channel(color, j),
            decreases height - y,
        {
            let mut x: u32 = 0;
            while x < width
                invariant
                    x <= width,
                    y < height,
                    canvas_width(c) == width,
                    canvas_height(c) == height,
                    total == 3 * width * height,
                    canvas_bytes(c).len() == total,
                    forall|j: int|
                        0 <= j < 3 * (y * width + x) ==> #[trigger] canvas_bytes(c)[j] == channel(
                            color,
                            j,
                        ),
                decreases width - x,
            {
                proof {
                    lemma_pixel_inside(width as nat, height as nat, x as int, y as int);
                }
                put_pixel(&mut c, x, y, color);
                x = x + 1;
            }
            assert((y + 1) * width == y * width + width) by (nonlinear_arith);
            y = y + 1;
        }
        assert(3 * (height * width) == 3 * width * height) by (nonlinear_arith);
        assert(canvas_bytes(c) =~= filled(width as nat, height as nat, color));
        c
    }

    /// The number of pixels in a row.
    pub fn width(&self) -> (w: u32)
        ensures
            w == canvas_width(*self),
    {
        image_width(self)
    }

    /// The number of rows.
    pub fn height(&self) -> (h: u32)
        ensures
            h == canvas_height(*self),
    {
        image_height(self)
    }

    /// Gives the colour of a pixel, or nothing outside the image.
    pub fn pixel(&self, x: u32, y: u32) -> (r: Option<Color>)
        ensures
            r == (if x < canvas_width(*self) && y < canvas_height(*self) {
                Some(pixel_at(canvas_bytes(*self), canvas_width(*self), x as int, y as int))
            } else {
                None
            }),
    {
        if x < image_width(self) && y < image_height(self) {
            Some(get_pixel(self, x, y))
        } else {
            None
        }
    }

    /// Colours a pixel; outside the image nothing happens.
    pub fn set_pixel(&mut self, x: u32, y: u32, color: Color)
        requires
            old(self).wf(),
        ensures
            final(self).wf(),
            canvas_width(*final(self)) == canvas_width(*old(self)),
            canvas_height(*final(self)) == canvas_height(*old(self)),
            canvas_bytes(*final(self)) == painted(
                canvas_bytes(*old(self)),
                canvas_width(*old(self)),
                canvas_height(*old(self)),
                seq![(x as int, y as int)],
                color,
            ),
    {
        let ghost points = seq![(x as int, y as int)];
        assert(points.drop_last() =~= Seq::<(int, int)>::empty());
        assert(painted(
            canvas_bytes(*self),
            canvas_width(*self),
            canvas_height(*self),
            points.drop_last(),
            color,
        ) == canvas_bytes(*self));
        if x < image_width(self) && y < image_height(self) {
            proof {
                lemma_pixel_inside(canvas_width(*self), canvas_height(*self), x as int, y as int);
            }
            put_pixel(self, x, y, color);
        }
    }

    /// Writes the image as a PNG file.
    pub fn to_png(&self) -> (r: Result<Vec<u8>, String>)
        requires
            self.wf(),
            encodable(canvas_width(*self), canvas_height(*self)),
        ensures
            model::outcome(r) == png_file(
                canvas_bytes(*self),
                canvas_width(*self),
                canvas_height(*self),
            ),
            (r is Ok) == (canvas_width(*self) > 0 && canvas_height(*self) > 0),
    {
        encode_png(self)
    }
}

proof fn lemma_pixel_inside(width: nat, height: nat, x: int, y: int)
    requires
        0 <= x < width,
        0 <= y < height,
    ensures
        0 <= pixel_start(width, x, y),
        pixel_start(width, x, y) + 3 <= 3 * width * height,
        pixel_start(width, x, y) == 3 * (y * width + x),
{
    assert(0 <= y * width) by (nonlinear_arith)
        requires
            0 <= y,
            0 <= width,
    ;
    assert(y * width + width <= width * height) by (nonlinear_arith)
        requires
            y + 1 <= height,
            0 <= width,
    ;
    assert(3 * width * height == 3 * (width * height)) by (nonlinear_arith);
}

/// The integer nearest to `p / n`, the larger one where two are equally near;
/// zero where `n` is zero.
pub open spec fn rounded(p: int, n: int) -> int {
    if n == 0 {
        0
    } else {
        (2 * p + n) / (2 * n)
    }
}

pub open spec fn distance(a: int, b: int) -> int {
    if a < b {
        b - a
    } else {
        a - b
    }
}

/// The number of steps of the line from `(x1, y1)` to `(x2, y2)`: the larger of
/// its two extents.
pub open spec fn line_steps(x1: int, y1: int, x2: int, y2: int) -> int {
    let dx = distance(x1, x2);
    let dy = distance(y1, y2);
    if dx < dy {
        dy
    } else {
        dx
    }
}

/// The coordinate reached when `offset` was walked from `a` towards `b`.
pub open spec fn towards(a: int, b: int, offset: int) -> int {
    if a < b {
        a + offset
    } else {
        a - offset
    }
}

/// The `k`-th pixel of a line: the `k`-th of equally spaced points of the
/// segment, each coordinate rounded to a pixel.
pub open spec fn line_point(x1: int, y1: int, x2: int, y2: int, k: int) -> (int, int) {
    let n = line_steps(x1, y1, x2, y2);
    (
        towards(x1, x2, rounded(k * distance(x1, x2), n)),
        towards(y1, y2, rounded(k * distance(y1, y2), n)),
    )
}

/// The pixels of a line, in order.
pub open spec fn line_points(x1: int, y1: int, x2: int, y2: int) -> Seq<(int, int)> {
    Seq::new(
        (line_steps(x1, y1, x2, y2) + 1) as nat,
        |k: int| line_point(x1, y1, x2, y2, k),
    )
}

/// The bytes of an image after the points that lie in it got the colour `color`.
pub open spec fn painted(
    bytes: Seq<u8>,
    width: nat,
    height: nat,
    points: Seq<(int, int)>,
    color: Color,
) -> Seq<u8>
    decreases points.len(),
{
    if points.len() == 0 {
        bytes
    } else {
        let before = painted(bytes, width, height, points.drop_last(), color);
        let (x, y) = points.last();
        if 0 <= x < width && 0 <= y < height {
            with_pixel(before, width, x, y, color)
        } else {
            before
        }
    }
}

proof fn lemma_rounded_bounds(p: int, n: int)
    requires
        n > 0,
        0 <= p,
    ensures
        2 * n * rounded(p, n) <= 2 * p + n,
        2 * p + n < 2 * n * (rounded(p, n) + 1),
        0 <= rounded(p, n),
{
    let m = 2 * n;
    let q = (2 * p + n) / m;
    vstd::arithmetic::div_mod::lemma_fundamental_div_mod(2 * p + n, m);
    assert(m * (q + 1) == m * q + m) by (nonlinear_arith);
    assert(0 <= q) by (nonlinear_arith)
        requires
            m > 0,
            2 * p + n < m * q + m,
            0 <= 2 * p + n,
    ;
}

proof fn lemma_rounded_is(p: int, n: int, q: int)
    requires
        n > 0,
        2 * n * q <= 2 * p + n,
        2 * p + n < 2 * n * (q + 1),
    ensures
        rounded(p, n) == q,
{
    let m = 2 * n;
    assert(m * (q + 1) == m * q + m) by (nonlinear_arith);
    assert(q * m == m * q) by (nonlinear_arith);
    vstd::arithmetic::div_mod::lemma_fundamental_div_mod_converse(2 * p + n, m, q, 2 * p + n - m * q);
}

/// On the longer axis each step is one pixel.
proof fn lemma_rounded_whole(k: int, n: int)
    requires
        n > 0,
    ensures
        rounded(k * n, n) == k,
{
    assert(2 * n * k == 2 * (k * n)) by (nonlinear_arith);
    assert(2 * n * (k + 1) == 2 * (k * n) + 2 * n) by (nonlinear_arith);
    lemma_rounded_is(k * n, n, k);
}

/// One step of the error-driven walk, seen from the longer axis: the shorter
/// axis advances exactly where the rounded ordinate does.
proof fn lemma_line_step(k: int, n: int, d: int)
    requires
        0 <= k,
        0 <= d <= n,
        0 < n,
    ensures
        ({
            let b = rounded(k * d, n);
            let b1 = rounded((k + 1) * d, n);
            let e2 = 2 * ((b + 1) * n - (k + 1) * d);
            &&& 0 <= b
            &&& e2 >= -d
            &&& (d < n ==> e2 > -d)
            &&& (e2 <= n ==> b1 == b + 1)
            &&& (e2 > n ==> b1 == b)
        }),
{
    let b = rounded(k * d, n);
    assert(0 <= k * d) by (nonlinear_arith)
        requires
            0 <= k,
            0 <= d,
    ;
    lemma_rounded_bounds(k * d, n);
    let nb = b * n;
    let kd = k * d;
    assert(2 * n * b == 2 * nb) by (nonlinear_arith)
        requires
            nb == b * n,
    ;
    assert(2 * n * (b + 1) == 2 * nb + 2 * n) by (nonlinear_arith)
        requires
            nb == b * n,
    ;
    assert(2 * n * (b + 2) == 2 * nb + 4 * n) by (nonlinear_arith)
        requires
            nb == b * n,
    ;
    assert((b + 1) * n == nb + n) by (nonlinear_arith)
        requires
            nb == b * n,
    ;
    assert((k + 1) * d == kd + d) by (nonlinear_arith)
        requires
            kd == k * d,
    ;
    let e2 = 2 * ((b + 1) * n - (k + 1) * d);
    assert(e2 == 2 * nb + 2 * n - 2 * kd - 2 * d);
    if e2 <= n {
        lemma_rounded_is((k + 1) * d, n, b + 1);
    } else {
        lemma_rounded_is((k + 1) * d, n, b);
    }
}

/// Draws the line from `(x1, y1)` to `(x2, y2)`; what lies outside the image is
/// left out.
pub fn draw_line(img: &mut Canvas, x1: usize, y1: usize, x2: usize, y2: usize, color: Color)
    requires
        old(img).wf(),
        x1 <= i32::MAX,
        y1 <= i32::MAX,
        x2 <= i32::MAX,
        y2 <= i32::MAX,
    ensures
        final(img).wf(),
        canvas_width(*final(img)) == canvas_width(*old(img)),
        canvas_height(*final(img)) == canvas_height(*old(img)),
        canvas_bytes(*final(img)) == painted(
            canvas_bytes(*old(img)),
            canvas_width(*old(img)),
            canvas_height(*old(img)),
            line_points(x1 as int, y1 as int, x2 as int, y2 as int),
            color,
        ),
{
    let dx: i64 = if x1 < x2 { (x2 - x1) as i64 } else { (x1 - x2) as i64 };
    let dy: i64 = if y1 < y2 { (y2 - y1) as i64 } else { (y1 - y2) as i64 };
    let sx: i64 = if x1 < x2 { 1 } else { -1 };
    let sy: i64 = if y1 < y2 { 1 } else { -1 };
    let w: i64 = image_width(img) as i64;
    let h: i64 = image_height(img) as i64;
    let ex: i64 = x2 as i64;
    let ey: i64 = y2 as i64;
    let mut err: i64 = dx - dy;
    let mut x: i64 = x1 as i64;
    let mut y: i64 = y1 as i64;
    let ghost n = line_steps(x1 as int, y1 as int, x2 as int, y2 as int);
    let ghost pts = line_points(x1 as int, y1 as int, x2 as int, y2 as int);
    let ghost mut k: int = 0;
    let ghost mut a: int = 0;
    let ghost mut b: int = 0;
    proof {
        assert(0 * dx == 0 && 0 * dy == 0) by (nonlinear_arith);
        if n > 0 {
            lemma_rounded_is(0, n, 0);
        }
        assert(pts.take(0) =~= Seq::empty());
        assert((b + 1) * dx - (a + 1) * dy == dx - dy) by (nonlinear_arith)
            requires
                a == 0,
                b == 0,
        ;
    }
    loop
        invariant_except_break
            canvas_bytes(*img) == painted(
                canvas_bytes(*old(img)),
                canvas_width(*old(img)),
                canvas_height(*old(img)),
                pts.take(k),
                color,
            ),
        invariant
            0 <= k <= n,
            n == line_steps(x1 as int, y1 as int, x2 as int, y2 as int),
            pts == line_points(x1 as int, y1 as int, x2 as int, y2 as int),
            dx == distance(x1 as int, x2 as int),
            dy == distance(y1 as int, y2 as int),
            0 <= dx <= i32::MAX,
            0 <= dy <= i32::MAX,
            sx == (if x1 < x2 { 1int } else { -1int }),
            sy == (if y1 < y2 { 1int } else { -1int }),
            ex == x2,
            ey == y2,
            x1 <= i32::MAX,
            y1 <= i32::MAX,
            w == canvas_width(*img),
            h == canvas_height(*img),
            canvas_width(*img) == canvas_width(*old(img)),
            canvas_height(*img) == canvas_height(*old(img)),
            a == rounded(k * dx, n),
            b == rounded(k * dy, n),
            0 <= a <= dx,
            0 <= b <= dy,
            x == towards(x1 as int, x2 as int, a),
            y == towards(y1 as int, y2 as int, b),
            err == (b + 1) * dx - (a + 1) * dy,
            -2 * dy <= err <= 2 * dx,
            w <= u32::MAX,
            h <= u32::MAX,
            img.wf(),
        ensures
            canvas_bytes(*img) == painted(
                canvas_bytes(*old(img)),
                canvas_width(*old(img)),
                canvas_height(*old(img)),
                pts,
                color,
            ),
        decreases n - k,
    {
        if x >= 0 && x < w && y >= 0 && y < h {
            proof {
                lemma_pixel_inside(canvas_width(*img), canvas_height(*img), x as int, y as int);
            }
            put_pixel(img, x as u32, y as u32, color);
        }
        proof {
            assert(pts[k] == (x as int, y as int));
            assert(pts.take(k + 1).drop_last() =~= pts.take(k));
            assert(pts.take(k + 1).last() == pts[k]);
            if n > 0 {
                lemma_rounded_whole(k, n);
            }
        }
        if x == ex && y == ey {
            proof {
                assert(k == n);
                assert(pts.take(k + 1) =~= pts);
            }
            break;
        }
        let e2: i64 = 2 * err;
        let ghost a0 = a;
        let ghost b0 = b;
        proof {
            assert(k < n) by {
                if k == n {
                    if n > 0 {
                        lemma_end(n, dx as int);
                        lemma_end(n, dy as int);
                    }
                }
            }
            lemma_rounded_whole(k + 1, n);
            if dx >= dy {
                lemma_line_step(k, n, dy as int);
            } else {
                lemma_line_step(k, n, dx as int);
            }
            a = rounded((k + 1) * dx, n);
            b = rounded((k + 1) * dy, n);
            lemma_within(k + 1, n, dx as int);
            lemma_within(k + 1, n, dy as int);
            assert((b0 + 2) * dx - (a0 + 1) * dy == (b0 + 1) * dx - (a0 + 1) * dy + dx)
                by (nonlinear_arith);
            assert((b0 + 1) * dx - (a0 + 2) * dy == (b0 + 1) * dx - (a0 + 1) * dy - dy)
                by (nonlinear_arith);
            assert((b0 + 2) * dx - (a0 + 2) * dy == (b0 + 1) * dx - (a0 + 1) * dy - dy + dx)
                by (nonlinear_arith);
        }
        if e2 >= -dy {
            err = err - dy;
            x = x + sx;
        }
        if e2 <= dx {
            err = err + dx;
            y = y + sy;
        }
        proof {
            k = k + 1;
        }
    }
}

/// The last point of a line rounds to the far end.
proof fn lemma_end(n: int, d: int)
    requires
        n > 0,
    ensures
        rounded(n * d, n) == d,
{
    assert(n * d == d * n) by (nonlinear_arith);
    lemma_rounded_whole(d, n);
}

/// Rounded offsets stay within the extent of the line.
proof fn lemma_within(k: int, n: int, d: int)
    requires
        0 <= k <= n,
        0 < n,
        0 <= d,
    ensures
        0 <= rounded(k * d, n) <= d,
{
    assert(0 <= k * d <= n * d) by (nonlinear_arith)
        requires
            0 <= k <= n,
            0 <= d,
    ;
    lemma_rounded_bounds(k * d, n);
    let q = rounded(k * d, n);
    assert(q <= d) by (nonlinear_arith)
        requires
            2 * n * q <= 2 * (k * d) + n,
            k * d <= n * d,
            n > 0,
    ;
}

/// A line starts at its first point and ends at its second.
pub proof fn line_joins_its_ends(x1: int, y1: int, x2: int, y2: int)
    ensures
        line_points(x1, y1, x2, y2).first() == (x1, y1),
        line_points(x1, y1, x2, y2).last() == (x2, y2),
{
    let n = line_steps(x1, y1, x2, y2);
    let dx = distance(x1, x2);
    let dy = distance(y1, y2);
    assert(0 * dx == 0 && 0 * dy == 0) by (nonlinear_arith);
    if n > 0 {
        lemma_rounded_is(0, n, 0);
        lemma_end(n, dx);
        lemma_end(n, dy);
    }
}

/// A line stays within the rectangle that its two ends span.
pub proof fn line_stays_between_its_ends(x1: int, y1: int, x2: int, y2: int, k: int)
    requires
        0 <= k < line_points(x1, y1, x2, y2).len(),
    ensures
        ({
            let (x, y) = line_points(x1, y1, x2, y2)[k];
            &&& distance(x1, x) + distance(x, x2) == distance(x1, x2)
            &&& distance(y1, y) + distance(y, y2) == distance(y1, y2)
        }),
{
    let n = line_steps(x1, y1, x2, y2);
    if n > 0 {
        lemma_within(k, n, distance(x1, x2));
        lemma_within(k, n, distance(y1, y2));
    }
}

/// Each point of a line touches the one before it: it is another one, and neither
/// coordinate moves by more than one.
pub proof fn line_has_no_gaps(x1: int, y1: int, x2: int, y2: int, k: int)
    requires
        0 < k < line_points(x1, y1, x2, y2).len(),
    ensures
        ({
            let (xa, ya) = line_points(x1, y1, x2, y2)[k - 1];
            let (xb, yb) = line_points(x1, y1, x2, y2)[k];
            &&& distance(xa, xb) <= 1
            &&& distance(ya, yb) <= 1
            &&& (xa, ya) != (xb, yb)
        }),
{
    let n = line_steps(x1, y1, x2, y2);
    let dx = distance(x1, x2);
    let dy = distance(y1, y2);
    lemma_rounded_whole(k - 1, n);
    lemma_rounded_whole(k, n);
    lemma_line_step(k - 1, n, dx);
    lemma_line_step(k - 1, n, dy);
}

proof fn lemma_other_pixel(width: nat, x: int, y: int, a: int, b: int)
    requires
        0 <= x < width,
        0 <= a < width,
        (x, y) != (a, b),
    ensures
        pixel_start(width, x, y) + 3 <= pixel_start(width, a, b) || pixel_start(width, a, b) + 3
            <= pixel_start(width, x, y),
{
    if y < b {
        assert(y * width + width <= b * width) by (nonlinear_arith)
            requires
                y + 1 <= b,
                0 <= width,
        ;
    } else if b < y {
        assert(b * width + width <= y * width) by (nonlinear_arith)
            requires
                b + 1 <= y,
                0 <= width,
        ;
    }
}

/// Painting colours exactly the points that lie in the image: each of them gets the
/// colour, and every other pixel keeps its own.
pub proof fn painting_colours_only_its_points(
    bytes: Seq<u8>,
    width: nat,
    height: nat,
    points: Seq<(int, int)>,
    color: Color,
    x: int,
    y: int,
)
    requires
        bytes.len() == 3 * width * height,
        0 <= x < width,
        0 <= y < height,
    ensures
        painted(bytes, width, height, points, color).len() == bytes.len(),
        pixel_at(painted(bytes, width, height, points, color), width, x, y) == (if points.contains(
            (x, y),
        ) {
            color
        } else {
            pixel_at(bytes, width, x, y)
        }),
    decreases points.len(),
{
    if points.len() > 0 {
        let front = points.drop_last();
        painting_colours_only_its_points(bytes, width, height, front, color, x, y);
        let before = painted(bytes, width, height, front, color);
        let (a, b) = points.last();
        lemma_pixel_inside(width, height, x, y);
        if 0 <= a < width && 0 <= b < height {
            lemma_pixel_inside(width, height, a, b);
            if (a, b) != (x, y) {
                lemma_other_pixel(width, x, y, a, b);
            }
        }
        if points.contains((x, y)) && points.last() != (x, y) {
            let i = choose|i: int| 0 <= i < points.len() && points[i] == (x, y);
            assert(front[i] == (x, y));
        }
        if front.contains((x, y)) {
            let i = choose|i: int| 0 <= i < front.len() && front[i] == (x, y);
            assert(points[i] == (x, y));
        }
        assert(points[points.len() - 1] == points.last());
    }
}

/// A line has one point for each step of its longer extent, and each of them lies as near as a
/// pixel can to its place on the straight way from one end to the other: off by half a pixel at
/// most.
pub proof fn lines_are_straight(x1: int, y1: int, x2: int, y2: int, k: int)
    requires
        0 <= k < line_points(x1, y1, x2, y2).len(),
    ensures
        ({
            let n = line_points(x1, y1, x2, y2).len() - 1;
            let (x, y) = line_points(x1, y1, x2, y2)[k];
            &&& n == x2 - x1 || n == x1 - x2 || n == y2 - y1 || n == y1 - y2
            &&& x2 - x1 <= n && x1 - x2 <= n && y2 - y1 <= n && y1 - y2 <= n
            &&& -n <= 2 * (n * (x - x1)) - 2 * (k * (x2 - x1)) <= n
            &&& -n <= 2 * (n * (y - y1)) - 2 * (k * (y2 - y1)) <= n
        }),
{
    let n = line_steps(x1, y1, x2, y2);
    if n > 0 {
        lemma_off_by_half(x1, x2, k, n);
        lemma_off_by_half(y1, y2, k, n);
    } else {
        assert(0 * (x1 - x1) == 0);
    }
}

proof fn lemma_off_by_half(a: int, b: int, k: int, n: int)
    requires
        n > 0,
        0 <= k,
    ensures
        ({
            let p = towards(a, b, rounded(k * distance(a, b), n));
            -n <= 2 * (n * (p - a)) - 2 * (k * (b - a)) <= n
        }),
{
    let d = distance(a, b);
    assert(0 <= k * d) by (nonlinear_arith)
        requires
            0 <= k,
            0 <= d,
    ;
    lemma_rounded_bounds(k * d, n);
    let q = rounded(k * d, n);
    assert(2 * n * q == 2 * (n * q)) by (nonlinear_arith);
    assert(2 * n * (q + 1) == 2 * (n * q) + 2 * n) by (nonlinear_arith);
    if a < b {
        assert(d == b - a);
    } else {
        assert(n * (-q) == -(n * q)) by (nonlinear_arith);
        assert(k * (b - a) == -(k * d)) by (nonlinear_arith)
            requires
                d == a - b,
        ;
    }
}

} // verus!
