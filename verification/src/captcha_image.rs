//! The picture of a captcha: what is drawn where, and in which order.
//!
//! A picture is planned first, with everything that is random about it. The plan
//! fixes the size, the specks in the background, the dots that make up each
//! character and the strokes across them. Softening the edges of the dots is left to
//! the caller, between [`start_image`] and [`finish_image`].

use vstd::prelude::*;
use vstd::string::*;

use crate::raster::{self, Canvas, Color};
use crate::{captcha, model, outside};

verus! {

/// The font: digits, then capital letters, seven rows of five bits each, the highest
/// bit on the left.
pub const CHAR_BITMAPS: [[u8; 7]; 36] = [
    [0b01110, 0b10001, 0b10011, 0b10101, 0b11001, 0b10001, 0b01110],
    [0b00100, 0b01100, 0b00100, 0b00100, 0b00100, 0b00100, 0b01110],
    [0b01110, 0b10001, 0b00001, 0b00010, 0b00100, 0b01000, 0b11111],
    [0b11111, 0b00010, 0b00100, 0b00010, 0b00001, 0b10001, 0b01110],
    [0b00010, 0b00110, 0b01010, 0b10010, 0b11111, 0b00010, 0b00010],
    [0b11111, 0b10000, 0b11110, 0b00001, 0b00001, 0b10001, 0b01110],
    [0b00110, 0b01000, 0b10000, 0b11110, 0b10001, 0b10001, 0b01110],
    [0b11111, 0b00001, 0b00010, 0b00100, 0b01000, 0b01000, 0b01000],
    [0b01110, 0b10001, 0b10001, 0b01110, 0b10001, 0b10001, 0b01110],
    [0b01110, 0b10001, 0b10001, 0b01111, 0b00001, 0b00010, 0b01100],
    [0b01110, 0b10001, 0b10001, 0b11111, 0b10001, 0b10001, 0b10001],
    [0b11110, 0b10001, 0b10001, 0b11110, 0b10001, 0b10001, 0b11110],
    [0b01110, 0b10001, 0b10000, 0b10000, 0b10000, 0b10001, 0b01110],
    [0b11110, 0b10001, 0b10001, 0b10001, 0b10001, 0b10001, 0b11110],
    [0b11111, 0b10000, 0b10000, 0b11110, 0b10000, 0b10000, 0b11111],
    [0b11111, 0b10000, 0b10000, 0b11110, 0b10000, 0b10000, 0b10000],
    [0b01110, 0b10001, 0b10000, 0b10111, 0b10001, 0b10001, 0b01110],
    [0b10001, 0b10001, 0b10001, 0b11111, 0b10001, 0b10001, 0b10001],
    [0b01110, 0b00100, 0b00100, 0b00100, 0b00100, 0b00100, 0b01110],
    [0b00111, 0b00010, 0b00010, 0b00010, 0b00010, 0b10010, 0b01100],
    [0b10001, 0b10010, 0b10100, 0b11000, 0b10100, 0b10010, 0b10001],
    [0b10000, 0b10000, 0b10000, 0b10000, 0b10000, 0b10000, 0b11111],
    [0b10001, 0b11011, 0b10101, 0b10101, 0b10001, 0b10001, 0b10001],
    [0b10001, 0b11001, 0b10101, 0b10011, 0b10001, 0b10001, 0b10001],
    [0b01110, 0b10001, 0b10001, 0b10001, 0b10001, 0b10001, 0b01110],
    [0b11110, 0b10001, 0b10001, 0b11110, 0b10000, 0b10000, 0b10000],
    [0b01110, 0b10001, 0b10001, 0b10001, 0b10101, 0b10010, 0b01101],
    [0b11110, 0b10001, 0b10001, 0b11110, 0b10100, 0b10010, 0b10001],
    [0b01110, 0b10001, 0b10000, 0b01110, 0b00001, 0b10001, 0b01110],
    [0b11111, 0b00100, 0b00100, 0b00100, 0b00100, 0b00100, 0b00100],
    [0b10001, 0b10001, 0b10001, 0b10001, 0b10001, 0b10001, 0b01110],
    [0b10001, 0b10001, 0b10001, 0b10001, 0b10001, 0b01010, 0b00100],
    [0b10001, 0b10001, 0b10001, 0b10101, 0b10101, 0b11011, 0b10001],
    [0b10001, 0b10001, 0b01010, 0b00100, 0b01010, 0b10001, 0b10001],
    [0b10001, 0b10001, 0b01010, 0b00100, 0b00100, 0b00100, 0b00100],
    [0b11111, 0b00001, 0b00010, 0b00100, 0b01000, 0b10000, 0b11111],
];

/// The distance between neighbouring dots.
pub const DOT_SPACE: u32 = 7;

/// The distance between neighbouring characters, edge to edge.
pub const GAP: u32 = 14;

/// The margin round the characters.
pub const PAD: u32 = 21;

pub const SPECKS: usize = 100;

pub const STROKES: usize = 3;

/// The colour of an empty picture.
pub open spec fn background() -> Color {
    Color { r: 240, g: 240, b: 235 }
}

/// The width of a picture for a code of `len` bytes.
pub open spec fn image_width(len: int) -> int {
    PAD * 2 + len * (5 * DOT_SPACE) + (len - 1) * GAP
}

/// The height of every picture.
pub open spec fn image_height() -> int {
    PAD * 2 + 7 * DOT_SPACE
}

/// Whether a code has a picture: it is not empty, its width is a number that single
/// precision holds exactly, and the picture can be encoded.
pub open spec fn drawable(len: int) -> bool {
    &&& 0 < len
    &&& image_width(len) <= 0x100_0000
    &&& raster::encodable(image_width(len) as nat, image_height() as nat)
}

/// Whether the font sets a dot in the given cell, cells counted row by row.
pub open spec fn is_lit(c: char, cell: int) -> bool {
    (CHAR_BITMAPS[captcha::code_index(c)][cell / 5] >> ((4 - cell % 5) as u8)) & 1 == 1
}

/// Where the dot of a cell of the `i`-th character stands.
pub open spec fn dot_position(i: int, cell: int) -> (int, int) {
    (
        PAD + i * (5 * DOT_SPACE + GAP) + (cell % 5) * DOT_SPACE,
        PAD + (cell / 5) * DOT_SPACE,
    )
}

/// The dots of the first `cells` cells of the character `c` at place `i`.
pub open spec fn glyph_positions(c: char, i: int, cells: int) -> Seq<(int, int)>
    decreases cells,
{
    if cells <= 0 {
        Seq::empty()
    } else {
        let before = glyph_positions(c, i, cells - 1);
        if is_lit(c, cells - 1) {
            before.push(dot_position(i, cells - 1))
        } else {
            before
        }
    }
}

/// A pixel of the background in some shade of grey.
#[derive(Clone, Copy, Debug)]
pub struct Speck {
    pub x: u32,
    pub y: u32,
    pub shade: u8,
}

/// A dot of a character, by its centre.
#[derive(Clone, Copy, Debug)]
pub struct Dot {
    pub x: u32,
    pub y: u32,
    pub color: Color,
}

/// A character: its colour, and its dots in colours near to it.
#[derive(Debug)]
pub struct Glyph {
    pub base: Color,
    pub dots: Vec<Dot>,
}

/// A line across the picture.
#[derive(Clone, Copy, Debug)]
pub struct Stroke {
    pub x1: usize,
    pub y1: usize,
    pub x2: usize,
    pub y2: usize,
    pub color: Color,
}

/// Everything that is drawn.
#[derive(Debug)]
pub struct ImagePlan {
    pub width: u32,
    pub height: u32,
    pub specks: Vec<Speck>,
    pub glyphs: Vec<Glyph>,
    pub strokes: Vec<Stroke>,
}

pub open spec fn channels_within(c: Color, low: int, high: int) -> bool {
    low <= c.r < high && low <= c.g < high && low <= c.b < high
}

/// A value cut to what a colour channel holds.
pub open spec fn clamped(v: int) -> int {
    if v < 0 {
        0
    } else if v > 255 {
        255
    } else {
        v
    }
}

/// A colour whose channels are those of `base`, each moved by at most fifteen.
pub open spec fn is_near(c: Color, base: Color) -> bool {
    exists|r: int, g: int, b: int|
        -15 <= r <= 15 && -15 <= g <= 15 && -15 <= b <= 15 && #[trigger] moved(base, r, g, b) == c
}

pub open spec fn moved(base: Color, r: int, g: int, b: int) -> Color {
    Color {
        r: clamped(base.r + r) as u8,
        g: clamped(base.g + g) as u8,
        b: clamped(base.b + b) as u8,
    }
}

pub open spec fn speck_fits(s: Speck, width: int, height: int) -> bool {
    s.x < width && s.y < height && 40 <= s.shade < 120
}

pub open spec fn stroke_fits(s: Stroke, width: int, height: int) -> bool {
    &&& s.x1 < width && s.y1 < height
    &&& s.x2 < width && s.y2 < height
    &&& channels_within(s.color, 80, 180)
}

pub open spec fn glyph_fits(g: Glyph, c: char, i: int) -> bool {
    &&& channels_within(g.base, 30, 200)
    &&& g.dots@.map_values(|d: Dot| (d.x as int, d.y as int)) == glyph_positions(c, i, 35)
    &&& forall|k: int| 0 <= k < g.dots@.len() ==> is_near((#[trigger] g.dots@[k]).color, g.base)
}

/// The plan is one for a code of `len` bytes with the given characters.
pub open spec fn plan_fits(p: ImagePlan, code: Seq<char>, len: int) -> bool {
    &&& p.width == image_width(len)
    &&& p.height == image_height()
    &&& p.specks@.len() == SPECKS
    &&& p.strokes@.len() == STROKES
    &&& p.glyphs@.len() == code.len()
    &&& p.can_be_drawn()
    &&& forall|i: int| 0 <= i < code.len() ==> glyph_fits(#[trigger] p.glyphs@[i], code[i], i)
}

impl ImagePlan {
    /// The picture can be encoded, and specks and strokes lie in it.
    pub open spec fn can_be_drawn(self) -> bool {
        &&& self.width <= 0x100_0000
        &&& self.height <= 0x100_0000
        &&& raster::encodable(self.width as nat, self.height as nat)
        &&& forall|i: int|
            0 <= i < self.specks@.len() ==> speck_fits(
                #[trigger] self.specks@[i],
                self.width as int,
                self.height as int,
            )
        &&& forall|i: int|
            0 <= i < self.strokes@.len() ==> stroke_fits(
                #[trigger] self.strokes@[i],
                self.width as int,
                self.height as int,
            )
    }
}

fn random_color(low: u8, high: u8) -> (c: Color)
    requires
        low < high,
    ensures
        channels_within(c, low as int, high as int),
{
    Color {
        r: outside::random_in(low as i64, high as i64) as u8,
        g: outside::random_in(low as i64, high as i64) as u8,
        b: outside::random_in(low as i64, high as i64) as u8,
    }
}

fn clamp_channel(v: i64) -> (r: u8)
    ensures
        r == clamped(v as int),
{
    if v < 0 {
        0
    } else if v > 255 {
        255
    } else {
        v as u8
    }
}

/// Moves the channels of a colour.
pub fn move_color(base: Color, r: i8, g: i8, b: i8) -> (c: Color)
    ensures
        c == moved(base, r as int, g as int, b as int),
{
    Color {
        r: clamp_channel(base.r as i64 + r as i64),
        g: clamp_channel(base.g as i64 + g as i64),
        b: clamp_channel(base.b as i64 + b as i64),
    }
}

fn jitter(base: Color) -> (c: Color)
    ensures
        is_near(c, base),
{
    let r: i8 = outside::random_in(-15, 16) as i8;
    let g: i8 = outside::random_in(-15, 16) as i8;
    let b: i8 = outside::random_in(-15, 16) as i8;
    move_color(base, r, g, b)
}

fn plan_glyph(c: char, i: u32) -> (g: Glyph)
    requires
        i <= 0x100_0000,
    ensures
        glyph_fits(g, c, i as int),
{
    let index: usize = captcha::char_to_index(c);
    let base: Color = random_color(30, 200);
    let left: u32 = PAD + i * (5 * DOT_SPACE + GAP);
    let mut dots: Vec<Dot> = Vec::new();
    let mut cell: usize = 0;
    let ghost at = |d: Dot| (d.x as int, d.y as int);
    proof {
        assert(dots@.map_values(at) =~= glyph_positions(c, i as int, 0));
    }
    while cell < 35
        invariant
            cell <= 35,
            index == captcha::code_index(c),
            index < 36,
            i <= 0x100_0000,
            left == PAD + i * (5 * DOT_SPACE + GAP),
            left <= 21 + i * 49,
            at == (|d: Dot| (d.x as int, d.y as int)),
            dots@.map_values(at) == glyph_positions(c, i as int, cell as int),
            forall|k: int| 0 <= k < dots@.len() ==> is_near((#[trigger] dots@[k]).color, base),
        decreases 35 - cell,
    {
        let row: usize = cell / 5;
        let col: usize = cell % 5;
        let bits: u8 = CHAR_BITMAPS[index][row];
        if (bits >> ((4 - col) as u8)) & 1 == 1 {
            let dot = Dot {
                x: left + col as u32 * DOT_SPACE,
                y: PAD + row as u32 * DOT_SPACE,
                color: jitter(base),
            };
            let ghost before = dots@;
            dots.push(dot);
            assert(dots@.map_values(at) =~= before.map_values(at).push(
                dot_position(i as int, cell as int),
            ));
        }
        cell = cell + 1;
    }
    Glyph { base, dots }
}

fn plan_specks(width: u32, height: u32) -> (r: Vec<Speck>)
    requires
        0 < width,
        0 < height,
    ensures
        r@.len() == SPECKS,
        forall|i: int|
            0 <= i < r@.len() ==> speck_fits(#[trigger] r@[i], width as int, height as int),
{
    let mut r: Vec<Speck> = Vec::new();
    while r.len() < SPECKS
        invariant
            0 < width,
            0 < height,
            r@.len() <= SPECKS,
            forall|i: int|
                0 <= i < r@.len() ==> speck_fits(#[trigger] r@[i], width as int, height as int),
        decreases SPECKS - r@.len(),
    {
        r.push(
            Speck {
                x: outside::random_in(0, width as i64) as u32,
                y: outside::random_in(0, height as i64) as u32,
                shade: outside::random_in(40, 120) as u8,
            },
        );
    }
    r
}

fn plan_strokes(width: u32, height: u32) -> (r: Vec<Stroke>)
    requires
        0 < width,
        0 < height,
    ensures
        r@.len() == STROKES,
        forall|i: int|
            0 <= i < r@.len() ==> stroke_fits(#[trigger] r@[i], width as int, height as int),
{
    let mut r: Vec<Stroke> = Vec::new();
    while r.len() < STROKES
        invariant
            0 < width,
            0 < height,
            r@.len() <= STROKES,
            forall|i: int|
                0 <= i < r@.len() ==> stroke_fits(#[trigger] r@[i], width as int, height as int),
        decreases STROKES - r@.len(),
    {
        r.push(
            Stroke {
                color: random_color(80, 180),
                x1: outside::random_in(0, width as i64) as usize,
                y1: outside::random_in(0, height as i64) as usize,
                x2: outside::random_in(0, width as i64) as usize,
                y2: outside::random_in(0, height as i64) as usize,
            },
        );
    }
    r
}

/// Plans the picture of a code.
pub fn plan_captcha_image(code: &str) -> (p: ImagePlan)
    requires
        drawable(code.spec_bytes().len() as int),
    ensures
        plan_fits(p, code@, code.spec_bytes().len() as int),
{
    let len: u32 = code.len() as u32;
    let width: u32 = PAD * 2 + len * (5 * DOT_SPACE) + (len - 1) * GAP;
    let height: u32 = PAD * 2 + 7 * DOT_SPACE;
    let specks: Vec<Speck> = plan_specks(width, height);
    let n: usize = code.unicode_len();
    let mut glyphs: Vec<Glyph> = Vec::new();
    proof {
        lemma_chars_within_bytes(code@);
    }
    while glyphs.len() < n
        invariant
            n == code@.len(),
            n <= 0x100_0000,
            glyphs@.len() <= n,
            forall|i: int|
                0 <= i < glyphs@.len() ==> glyph_fits(#[trigger] glyphs@[i], code@[i], i),
        decreases n - glyphs@.len(),
    {
        let i: usize = glyphs.len();
        let glyph: Glyph = plan_glyph(code.get_char(i), i as u32);
        glyphs.push(glyph);
    }
    let strokes: Vec<Stroke> = plan_strokes(width, height);
    ImagePlan { width, height, specks, glyphs, strokes }
}

proof fn lemma_chars_within_bytes(s: Seq<char>)
    ensures
        s.len() <= vstd::utf8::encode_utf8(s).len(),
    decreases s.len(),
{
    if s.len() > 0 {
        lemma_chars_within_bytes(s.drop_first());
    }
}

/// The bytes of a picture after the specks.
pub open spec fn specked(
    bytes: Seq<u8>,
    width: nat,
    height: nat,
    specks: Seq<Speck>,
) -> Seq<u8>
    decreases specks.len(),
{
    if specks.len() == 0 {
        bytes
    } else {
        let s = specks.last();
        raster::painted(
            specked(bytes, width, height, specks.drop_last()),
            width,
            height,
            seq![(s.x as int, s.y as int)],
            Color { r: s.shade, g: s.shade, b: s.shade },
        )
    }
}

/// The bytes of a picture after the strokes.
pub open spec fn stroked(
    bytes: Seq<u8>,
    width: nat,
    height: nat,
    strokes: Seq<Stroke>,
) -> Seq<u8>
    decreases strokes.len(),
{
    if strokes.len() == 0 {
        bytes
    } else {
        let s = strokes.last();
        raster::painted(
            stroked(bytes, width, height, strokes.drop_last()),
            width,
            height,
            raster::line_points(s.x1 as int, s.y1 as int, s.x2 as int, s.y2 as int),
            s.color,
        )
    }
}

/// The bytes of a picture before its characters.
pub open spec fn started(p: ImagePlan) -> Seq<u8> {
    specked(
        raster::filled(p.width as nat, p.height as nat, background()),
        p.width as nat,
        p.height as nat,
        p.specks@,
    )
}

/// Draws what lies behind the characters: the background and its specks.
pub fn start_image(p: &ImagePlan) -> (c: Canvas)
    requires
        p.can_be_drawn(),
    ensures
        c.wf(),
        raster::canvas_width(c) == p.width,
        raster::canvas_height(c) == p.height,
        raster::canvas_bytes(c) == started(*p),
{
    let mut c: Canvas = Canvas::of_color(p.width, p.height, Color { r: 240, g: 240, b: 235 });
    let ghost empty = raster::filled(p.width as nat, p.height as nat, background());
    let mut i: usize = 0;
    assert(p.specks@.take(0) =~= Seq::empty());
    while i < p.specks.len()
        invariant
            i <= p.specks@.len(),
            c.wf(),
            raster::canvas_width(c) == p.width,
            raster::canvas_height(c) == p.height,
            raster::canvas_bytes(c) == specked(
                empty,
                p.width as nat,
                p.height as nat,
                p.specks@.take(i as int),
            ),
        decreases p.specks@.len() - i,
    {
        let s: Speck = p.specks[i];
        c.set_pixel(s.x, s.y, Color { r: s.shade, g: s.shade, b: s.shade });
        assert(p.specks@.take(i + 1).drop_last() =~= p.specks@.take(i as int));
        i = i + 1;
    }
    assert(p.specks@.take(i as int) =~= p.specks@);
    c
}

/// Draws the strokes over the characters and writes the picture as a PNG file.
pub fn finish_image(c: &mut Canvas, p: &ImagePlan) -> (r: Result<Vec<u8>, String>)
    requires
        old(c).wf(),
        raster::encodable(raster::canvas_width(*old(c)), raster::canvas_height(*old(c))),
        p.can_be_drawn(),
    ensures
        final(c).wf(),
        raster::canvas_width(*final(c)) == raster::canvas_width(*old(c)),
        raster::canvas_height(*final(c)) == raster::canvas_height(*old(c)),
        raster::canvas_bytes(*final(c)) == stroked(
            raster::canvas_bytes(*old(c)),
            raster::canvas_width(*old(c)),
            raster::canvas_height(*old(c)),
            p.strokes@,
        ),
        model::outcome(r) == raster::png_file(
            raster::canvas_bytes(*final(c)),
            raster::canvas_width(*old(c)),
            raster::canvas_height(*old(c)),
        ),
        (r is Ok) == (raster::canvas_width(*old(c)) > 0 && raster::canvas_height(*old(c)) > 0),
{
    let mut i: usize = 0;
    assert(p.strokes@.take(0) =~= Seq::empty());
    while i < p.strokes.len()
        invariant
            i <= p.strokes@.len(),
            p.can_be_drawn(),
            c.wf(),
            raster::canvas_width(*c) == raster::canvas_width(*old(c)),
            raster::canvas_height(*c) == raster::canvas_height(*old(c)),
            raster::canvas_bytes(*c) == stroked(
                raster::canvas_bytes(*old(c)),
                raster::canvas_width(*old(c)),
                raster::canvas_height(*old(c)),
                p.strokes@.take(i as int),
            ),
        decreases p.strokes@.len() - i,
    {
        let s: Stroke = p.strokes[i];
        assert(stroke_fits(p.strokes@[i as int], p.width as int, p.height as int));
        raster::draw_line(c, s.x1, s.y1, s.x2, s.y2, s.color);
        assert(p.strokes@.take(i + 1).drop_last() =~= p.strokes@.take(i as int));
        i = i + 1;
    }
    assert(p.strokes@.take(i as int) =~= p.strokes@);
    c.to_png()
}

/// Every dot of a picture keeps clear of its edges by the margin.
pub proof fn dots_keep_the_margin(p: ImagePlan, code: Seq<char>, len: int, i: int, k: int)
    requires
        plan_fits(p, code, len),
        code.len() <= len,
        0 <= i < code.len(),
        0 <= k < p.glyphs@[i].dots@.len(),
    ensures
        PAD <= p.glyphs@[i].dots@[k].x <= p.width - PAD,
        PAD <= p.glyphs@[i].dots@[k].y <= p.height - PAD,
{
    let g = p.glyphs@[i];
    assert(glyph_fits(g, code[i], i));
    let at = |d: Dot| (d.x as int, d.y as int);
    assert(g.dots@.map_values(at)[k] == (g.dots@[k].x as int, g.dots@[k].y as int));
    lemma_positions(code[i], i, 35, k);
    let cell = choose|cell: int|
        0 <= cell < 35 && is_lit(code[i], cell) && glyph_positions(code[i], i, 35)[k]
            == #[trigger] dot_position(i, cell);
    assert(i * (5 * DOT_SPACE + GAP) == i * 49);
    assert(len * (5 * DOT_SPACE) == len * 35);
    assert((len - 1) * GAP == (len - 1) * 14);
    assert((cell % 5) * DOT_SPACE == (cell % 5) * 7);
    assert((cell / 5) * DOT_SPACE == (cell / 5) * 7);
}

proof fn lemma_positions(c: char, i: int, cells: int, k: int)
    requires
        0 <= cells <= 35,
        0 <= k < glyph_positions(c, i, cells).len(),
    ensures
        exists|cell: int|
            0 <= cell < cells && is_lit(c, cell) && glyph_positions(c, i, cells)[k]
                == #[trigger] dot_position(i, cell),
    decreases cells,
{
    if k < glyph_positions(c, i, cells - 1).len() {
        lemma_positions(c, i, cells - 1, k);
        let cell = choose|cell: int|
            0 <= cell < cells - 1 && is_lit(c, cell) && glyph_positions(c, i, cells - 1)[k]
                == #[trigger] dot_position(i, cell);
        assert(glyph_positions(c, i, cells)[k] == dot_position(i, cell));
    } else {
        assert(glyph_positions(c, i, cells)[k] == dot_position(i, cells - 1));
    }
}

} // verus!
