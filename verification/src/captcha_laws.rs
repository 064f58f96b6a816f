//! How every captcha is handed out, answered and dropped, and what its picture shows.

use vstd::prelude::*;

use crate::captcha::{self, CaptchaSessionView};
use crate::captcha_image::{self, Dot, ImagePlan, Speck, Stroke, CHAR_BITMAPS};
use crate::raster::{self, Color};
use crate::reply::DataView;
use crate::{auth_laws, outside};

verus! {

/// What an answer is told, and what it does to the store. A captcha that is not known, was
/// answered already or is past its five minutes is refused, and in the last case dropped;
/// any other is spent by the answer, right or wrong, and passed by its code only.
pub proof fn answers_spend_their_captcha(
    store: Map<Seq<char>, CaptchaSessionView>,
    id: Seq<char>,
    code: Seq<char>,
    now: int,
)
    requires
        id.len() > 0,
        code.len() > 0,
    ensures
        ({
            let (after, verdict) = captcha::captcha_verdict(store, Some(id), Some(code), now);
            let s = store[id];
            let late = now - s.created_at > 300_000_000_000;
            let spent = store.insert(id, CaptchaSessionView { used: true, ..s });
            &&& !store.contains_key(id) ==> after == store && verdict == Err::<(), Seq<char>>(
                "invalid or expired captcha"@,
            )
            &&& store.contains_key(id) && s.used ==> after == store && verdict == Err::<
                (),
                Seq<char>,
            >("captcha already used"@)
            &&& store.contains_key(id) && !s.used && late ==> after == store.remove(id) && verdict
                == Err::<(), Seq<char>>("captcha expired"@)
            &&& store.contains_key(id) && !s.used && !late && s.code != outside::uppercase_text(
                code,
            ) ==> after == spent && verdict == Err::<(), Seq<char>>("incorrect captcha"@)
            &&& store.contains_key(id) && !s.used && !late && s.code == outside::uppercase_text(
                code,
            ) ==> after == spent && verdict == Ok::<(), Seq<char>>(())
        }),
{
}

/// Without a number or an answer, or with an empty one, nothing is checked and nothing
/// changes. Every refusal is a bad request, in the words of the check.
pub proof fn incomplete_answers_are_refused(
    store: Map<Seq<char>, CaptchaSessionView>,
    id: Option<Seq<char>>,
    code: Option<Seq<char>>,
    now: int,
    m: Seq<char>,
)
    ensures
        id is None || code is None || id == Some(Seq::<char>::empty()) || code == Some(
            Seq::<char>::empty(),
        ) ==> captcha::captcha_verdict(store, id, code, now) == (store, Err::<(), Seq<char>>(
            "captcha_id and captcha_code are required"@,
        )),
        auth_laws::refuses(captcha::captcha_refusal(Err(m)), 400, m),
        captcha::captcha_refusal(Ok(())) is Ok,
{
}

/// Handing out a captcha drops exactly those that are five minutes old or older, leaves the
/// others alone, and adds the new one under its number, not answered yet. The answer names it
/// and holds its picture.
pub proof fn handing_out_drops_old_captchas(
    store: Map<Seq<char>, CaptchaSessionView>,
    id: Seq<char>,
    code: Seq<char>,
    now: int,
    other: Seq<char>,
    encoded: Seq<char>,
)
    requires
        other != id,
    ensures
        ({
            let after = captcha::captcha_issued(store, id, code, now);
            &&& after.contains_key(id) && after[id] == (CaptchaSessionView {
                code,
                created_at: now,
                used: false,
            })
            &&& after.contains_key(other) <==> store.contains_key(other) && now
                - store[other].created_at < 300_000_000_000
            &&& after.contains_key(other) ==> after[other] == store[other]
        }),
        ({
            let a = captcha::captcha_answer(id, encoded);
            a.success && a.message == "ok"@ && a.data == Some(
                DataView::Captcha {
                    captcha_id: id,
                    captcha_image: "data:image/png;base64,"@ + encoded,
                },
            )
        }),
{
}

/// The characters of a captcha are the ten digits and the capital letters, each with a place
/// of its own in the font, in that order.
pub proof fn code_characters_have_their_places(c: char, index: int)
    ensures
        captcha::is_code_char(c) <==> '0' <= c <= '9' || 'A' <= c <= 'Z',
        '0' <= c <= '9' ==> captcha::code_index(c) == c as int - '0' as int,
        'A' <= c <= 'Z' ==> captcha::code_index(c) == 10 + c as int - 'A' as int,
        captcha::is_code_char(c) ==> captcha::code_char(captcha::code_index(c)) == c,
        0 <= captcha::code_index(c) < 36,
{
}

/// A code has one character for each place, in order, and six of them.
pub proof fn codes_are_written_place_by_place(indices: Seq<u8>, i: int, code: Seq<char>)
    requires
        forall|j: int| 0 <= j < indices.len() ==> #[trigger] indices[j] < 36,
    ensures
        captcha::code_of(indices).len() == indices.len(),
        0 <= i < indices.len() ==> captcha::code_index(captcha::code_of(indices)[i]) == indices[i],
        captcha::is_captcha_code(code) ==> code.len() == 6,
        0 <= i < code.len() && captcha::is_captcha_code(code) ==> '0' <= code[i] <= '9' || 'A'
            <= code[i] <= 'Z',
{
    if 0 <= i < indices.len() {
        captcha::index_undoes_char(indices[i] as int);
    }
    if 0 <= i < code.len() && captcha::is_captcha_code(code) {
        assert(captcha::is_code_char(code[i]));
    }
}

/// A picture is a margin round its characters, each five dots wide and seven high, with seven
/// pixels from dot to dot and fourteen from character to character.
pub proof fn pictures_fit_their_characters(len: int, i: int, cell: int)
    requires
        len >= 1,
        0 <= cell < 35,
    ensures
        captcha_image::image_width(1) == 2 * 21 + 5 * 7,
        captcha_image::image_width(len + 1) == captcha_image::image_width(len) + 5 * 7 + 14,
        captcha_image::image_height() == 2 * 21 + 7 * 7,
        captcha_image::dot_position(0, 0) == (21int, 21int),
        captcha_image::dot_position(i + 1, cell) == (
            captcha_image::dot_position(i, cell).0 + 5 * 7 + 14,
            captcha_image::dot_position(i, cell).1,
        ),
        cell % 5 < 4 ==> captcha_image::dot_position(i, cell + 1) == (
            captcha_image::dot_position(i, cell).0 + 7,
            captcha_image::dot_position(i, cell).1,
        ),
        cell < 30 ==> captcha_image::dot_position(i, cell + 5) == (
            captcha_image::dot_position(i, cell).0,
            captcha_image::dot_position(i, cell).1 + 7,
        ),
{
    assert((len + 1) * 35 == len * 35 + 35) by (nonlinear_arith);
    assert((i + 1) * 49 == i * 49 + 49) by (nonlinear_arith);
}

/// The font is read row by row, the highest bit on the left: the lit cells of a row are the
/// bits of its number.
pub proof fn lit_cells_are_the_bits_of_the_font(c: char, row: int)
    requires
        0 <= row < 7,
    ensures
        ({
            let bits = CHAR_BITMAPS[captcha::code_index(c)][row];
            let lit = |col: int|
                if captcha_image::is_lit(c, 5 * row + col) {
                    1int
                } else {
                    0int
                };
            bits % 32 == 16 * lit(0) + 8 * lit(1) + 4 * lit(2) + 2 * lit(3) + lit(4)
        }),
{
    let bits: u8 = CHAR_BITMAPS[captcha::code_index(c)][row];
    assert((5 * row + 0) / 5 == row && (5 * row + 0) % 5 == 0);
    assert((5 * row + 1) / 5 == row && (5 * row + 1) % 5 == 1);
    assert((5 * row + 2) / 5 == row && (5 * row + 2) % 5 == 2);
    assert((5 * row + 3) / 5 == row && (5 * row + 3) % 5 == 3);
    assert((5 * row + 4) / 5 == row && (5 * row + 4) % 5 == 4);
    assert(bits % 32 == 16 * ((bits >> 4u8) & 1) + 8 * ((bits >> 3u8) & 1) + 4 * ((bits >> 2u8)
        & 1) + 2 * ((bits >> 1u8) & 1) + ((bits >> 0u8) & 1)) by (bit_vector);
    assert((bits >> 4u8) & 1 <= 1 && (bits >> 3u8) & 1 <= 1 && (bits >> 2u8) & 1 <= 1 && (bits
        >> 1u8) & 1 <= 1 && (bits >> 0u8) & 1 <= 1) by (bit_vector);
}

/// A character has a dot for each lit cell of the font, at the place of that cell, and no
/// other dot.
pub proof fn dots_are_the_lit_cells(c: char, i: int, cells: int, at: (int, int))
    requires
        0 <= cells <= 35,
    ensures
        captcha_image::glyph_positions(c, i, cells).contains(at) <==> exists|cell: int|
            0 <= cell < cells && captcha_image::is_lit(c, cell)
                && #[trigger] captcha_image::dot_position(i, cell) == at,
    decreases cells,
{
    if cells > 0 {
        dots_are_the_lit_cells(c, i, cells - 1, at);
        let before = captcha_image::glyph_positions(c, i, cells - 1);
        let all = captcha_image::glyph_positions(c, i, cells);
        if all.contains(at) {
            let k = choose|k: int| 0 <= k < all.len() && all[k] == at;
            if k < before.len() {
                assert(before[k] == at);
                let cell = choose|cell: int|
                    0 <= cell < cells - 1 && captcha_image::is_lit(c, cell)
                        && #[trigger] captcha_image::dot_position(i, cell) == at;
                assert(0 <= cell < cells);
            } else {
                assert(captcha_image::dot_position(i, cells - 1) == at);
            }
        }
        if exists|cell: int|
            0 <= cell < cells && captcha_image::is_lit(c, cell)
                && #[trigger] captcha_image::dot_position(i, cell) == at {
            let cell = choose|cell: int|
                0 <= cell < cells && captcha_image::is_lit(c, cell)
                    && #[trigger] captcha_image::dot_position(i, cell) == at;
            if cell < cells - 1 {
                let k = choose|k: int| 0 <= k < before.len() && before[k] == at;
                assert(all[k] == at);
            } else {
                assert(all[before.len() as int] == at);
            }
        }
    }
}

/// A plan has a hundred specks in shades of grey and three strokes, all inside the picture, and
/// a glyph for each character of the code, whose dots stand where the font lights them, in
/// colours near the one of the character.
pub proof fn plans_draw_the_whole_code(
    p: ImagePlan,
    code: Seq<char>,
    len: int,
    i: int,
    k: int,
)
    requires
        captcha_image::plan_fits(p, code, len),
    ensures
        p.specks@.len() == 100,
        p.strokes@.len() == 3,
        p.glyphs@.len() == code.len(),
        0 <= k < p.specks@.len() ==> p.specks@[k].x < p.width && p.specks@[k].y < p.height && 40
            <= p.specks@[k].shade < 120,
        0 <= k < p.strokes@.len() ==> p.strokes@[k].x1 < p.width && p.strokes@[k].x2 < p.width
            && p.strokes@[k].y1 < p.height && p.strokes@[k].y2 < p.height && 80
            <= p.strokes@[k].color.r < 180 && 80 <= p.strokes@[k].color.g < 180 && 80
            <= p.strokes@[k].color.b < 180,
        0 <= i < code.len() && 0 <= k < p.glyphs@[i].dots@.len() ==> ({
            let dot = p.glyphs@[i].dots@[k];
            let base = p.glyphs@[i].base;
            &&& exists|cell: int|
                0 <= cell < 35 && captcha_image::is_lit(code[i], cell)
                    && #[trigger] captcha_image::dot_position(i, cell) == (
                dot.x as int,
                dot.y as int,
            )
            &&& -15 <= dot.color.r - base.r <= 15
            &&& -15 <= dot.color.g - base.g <= 15
            &&& -15 <= dot.color.b - base.b <= 15
            &&& 30 <= base.r < 200 && 30 <= base.g < 200 && 30 <= base.b < 200
        }),
{
    if 0 <= k < p.specks@.len() {
        assert(captcha_image::speck_fits(p.specks@[k], p.width as int, p.height as int));
    }
    if 0 <= k < p.strokes@.len() {
        assert(captcha_image::stroke_fits(p.strokes@[k], p.width as int, p.height as int));
    }
    if 0 <= i < code.len() && 0 <= k < p.glyphs@[i].dots@.len() {
        let g = p.glyphs@[i];
        assert(captcha_image::glyph_fits(g, code[i], i));
        let places = g.dots@.map_values(|d: Dot| (d.x as int, d.y as int));
        let at = (g.dots@[k].x as int, g.dots@[k].y as int);
        assert(places[k] == at);
        dots_are_the_lit_cells(code[i], i, 35, at);
        assert(captcha_image::is_near(g.dots@[k].color, g.base));
    }
}

/// Moving a colour moves each channel by its own amount, and stops at the ends of the range.
pub proof fn colours_are_moved_channel_by_channel(base: Color, r: int, g: int, b: int)
    ensures
        ({
            let c = captcha_image::moved(base, r, g, b);
            &&& 0 <= base.r + r <= 255 ==> c.r == base.r + r
            &&& 0 <= base.g + g <= 255 ==> c.g == base.g + g
            &&& 0 <= base.b + b <= 255 ==> c.b == base.b + b
            &&& base.r + r < 0 ==> c.r == 0
            &&& base.g + g < 0 ==> c.g == 0
            &&& base.b + b < 0 ==> c.b == 0
            &&& base.r + r > 255 ==> c.r == 255
            &&& base.g + g > 255 ==> c.g == 255
            &&& base.b + b > 255 ==> c.b == 255
        }),
{
}

/// Every pixel of an image of one colour has that colour.
pub proof fn filled_images_have_one_colour(
    width: nat,
    height: nat,
    color: Color,
    x: int,
    y: int,
)
    requires
        0 <= x < width,
        0 <= y < height,
    ensures
        raster::pixel_at(raster::filled(width, height, color), width, x, y) == color,
{
    let i = raster::pixel_start(width, x, y);
    assert(y * width + x < width * height) by (nonlinear_arith)
        requires
            0 <= x < width,
            0 <= y,
            y + 1 <= height,
    ;
    assert(0 <= y * width) by (nonlinear_arith)
        requires
            0 <= y,
            0 <= width,
    ;
    assert(3 * width * height == 3 * (width * height)) by (nonlinear_arith);
}

/// A pixel of the background has the shade of the last speck on it, and keeps its colour where
/// there is none.
pub proof fn specks_colour_their_pixels(
    bytes: Seq<u8>,
    width: nat,
    height: nat,
    specks: Seq<Speck>,
    x: int,
    y: int,
    k: int,
)
    requires
        bytes.len() == 3 * width * height,
        0 <= x < width,
        0 <= y < height,
        -1 <= k < specks.len(),
        k >= 0 ==> specks[k].x == x && specks[k].y == y,
        forall|j: int|
            k < j < specks.len() ==> (#[trigger] specks[j]).x != x || specks[j].y != y,
    ensures
        captcha_image::specked(bytes, width, height, specks).len() == bytes.len(),
        raster::pixel_at(captcha_image::specked(bytes, width, height, specks), width, x, y)
            == if k >= 0 {
            Color { r: specks[k].shade, g: specks[k].shade, b: specks[k].shade }
        } else {
            raster::pixel_at(bytes, width, x, y)
        },
    decreases specks.len(),
{
    if specks.len() > 0 {
        let front = specks.drop_last();
        let n = specks.len() - 1;
        let last = specks.last();
        let point = seq![(last.x as int, last.y as int)];
        assert(point[0] == (last.x as int, last.y as int));
        assert(specks[n] == last);
        lemma_specked_len(bytes, width, height, front, x, y);
        raster::painting_colours_only_its_points(
            captcha_image::specked(bytes, width, height, front),
            width,
            height,
            point,
            Color { r: last.shade, g: last.shade, b: last.shade },
            x,
            y,
        );
        if k < n {
            assert(last.x != x || last.y != y);
            assert forall|j: int| k < j < front.len() implies (#[trigger] front[j]).x != x
                || front[j].y != y by {
                assert(front[j] == specks[j]);
            }
            specks_colour_their_pixels(bytes, width, height, front, x, y, k);
            assert(!point.contains((x, y)));
        } else {
            assert(point.contains((x, y)));
        }
    }
}

proof fn lemma_specked_len(
    bytes: Seq<u8>,
    width: nat,
    height: nat,
    specks: Seq<Speck>,
    x: int,
    y: int,
)
    requires
        bytes.len() == 3 * width * height,
        0 <= x < width,
        0 <= y < height,
    ensures
        captcha_image::specked(bytes, width, height, specks).len() == bytes.len(),
    decreases specks.len(),
{
    if specks.len() > 0 {
        let s = specks.last();
        lemma_specked_len(bytes, width, height, specks.drop_last(), x, y);
        raster::painting_colours_only_its_points(
            captcha_image::specked(bytes, width, height, specks.drop_last()),
            width,
            height,
            seq![(s.x as int, s.y as int)],
            Color { r: s.shade, g: s.shade, b: s.shade },
            x,
            y,
        );
    }
}

proof fn lemma_stroked_len(
    bytes: Seq<u8>,
    width: nat,
    height: nat,
    strokes: Seq<Stroke>,
    x: int,
    y: int,
)
    requires
        bytes.len() == 3 * width * height,
        0 <= x < width,
        0 <= y < height,
    ensures
        captcha_image::stroked(bytes, width, height, strokes).len() == bytes.len(),
    decreases strokes.len(),
{
    if strokes.len() > 0 {
        let s = strokes.last();
        lemma_stroked_len(bytes, width, height, strokes.drop_last(), x, y);
        raster::painting_colours_only_its_points(
            captcha_image::stroked(bytes, width, height, strokes.drop_last()),
            width,
            height,
            raster::line_points(s.x1 as int, s.y1 as int, s.x2 as int, s.y2 as int),
            s.color,
            x,
            y,
        );
    }
}

/// Whether a stroke goes through a pixel.
pub open spec fn crosses(s: Stroke, x: int, y: int) -> bool {
    raster::line_points(s.x1 as int, s.y1 as int, s.x2 as int, s.y2 as int).contains((x, y))
}

/// A pixel of the finished picture has the colour of the last stroke through it, and keeps its
/// own where none goes through it.
pub proof fn strokes_colour_their_pixels(
    bytes: Seq<u8>,
    width: nat,
    height: nat,
    strokes: Seq<Stroke>,
    x: int,
    y: int,
    k: int,
)
    requires
        bytes.len() == 3 * width * height,
        0 <= x < width,
        0 <= y < height,
        -1 <= k < strokes.len(),
        k >= 0 ==> crosses(strokes[k], x, y),
        forall|j: int| k < j < strokes.len() ==> !crosses(#[trigger] strokes[j], x, y),
    ensures
        raster::pixel_at(captcha_image::stroked(bytes, width, height, strokes), width, x, y)
            == if k >= 0 {
            strokes[k].color
        } else {
            raster::pixel_at(bytes, width, x, y)
        },
    decreases strokes.len(),
{
    if strokes.len() > 0 {
        let front = strokes.drop_last();
        let n = strokes.len() - 1;
        let last = strokes.last();
        assert(strokes[n] == last);
        lemma_stroked_len(bytes, width, height, front, x, y);
        raster::painting_colours_only_its_points(
            captcha_image::stroked(bytes, width, height, front),
            width,
            height,
            raster::line_points(last.x1 as int, last.y1 as int, last.x2 as int, last.y2 as int),
            last.color,
            x,
            y,
        );
        if k < n {
            assert(!crosses(strokes[n], x, y));
            assert forall|j: int| k < j < front.len() implies !crosses(#[trigger] front[j], x, y) by {
                assert(front[j] == strokes[j]);
            }
            strokes_colour_their_pixels(bytes, width, height, front, x, y, k);
        }
    }
}

/// A picture starts as a light background, on which each speck shows in its shade.
pub proof fn pictures_start_light(p: ImagePlan, x: int, y: int, k: int)
    requires
        0 <= x < p.width,
        0 <= y < p.height,
        -1 <= k < p.specks@.len(),
        k >= 0 ==> p.specks@[k].x == x && p.specks@[k].y == y,
        forall|j: int|
            k < j < p.specks@.len() ==> (#[trigger] p.specks@[j]).x != x || p.specks@[j].y != y,
    ensures
        raster::pixel_at(captcha_image::started(p), p.width as nat, x, y) == if k >= 0 {
            let shade = p.specks@[k].shade;
            Color { r: shade, g: shade, b: shade }
        } else {
            Color { r: 240, g: 240, b: 235 }
        },
{
    let w = p.width as nat;
    let h = p.height as nat;
    let empty = raster::filled(w, h, captcha_image::background());
    assert(3 * w * h >= 0) by (nonlinear_arith)
        requires
            w >= 0,
            h >= 0,
    ;
    filled_images_have_one_colour(w, h, captcha_image::background(), x, y);
    specks_colour_their_pixels(empty, w, h, p.specks@, x, y, k);
}

/// Every code of up to a thousand bytes has a picture.
pub proof fn codes_have_pictures(len: int)
    requires
        1 <= len <= 1000,
    ensures
        captcha_image::drawable(len),
{
    assert(len * 35 + (len - 1) * 14 <= 49000);
    let w = captcha_image::image_width(len);
    assert(0 <= w <= 49100);
    assert(3 * w * 91 + 91 <= 14_000_000) by (nonlinear_arith)
        requires
            0 <= w <= 49100,
    ;
}

/// Pixels are stored row by row, each row from the left, with three bytes for the three channels
/// of each.
pub proof fn pixels_are_stored_row_by_row(
    bytes: Seq<u8>,
    width: nat,
    x: int,
    y: int,
)
    ensures
        raster::pixel_start(width, 0, 0) == 0,
        raster::pixel_start(width, x + 1, y) == raster::pixel_start(width, x, y) + 3,
        raster::pixel_start(width, width as int, y) == raster::pixel_start(width, 0, y + 1),
        ({
            let c = raster::pixel_at(bytes, width, x, y);
            let at = raster::pixel_start(width, x, y);
            c.r == bytes[at] && c.g == bytes[at + 1] && c.b == bytes[at + 2]
        }),
{
    assert(0 * width == 0) by (nonlinear_arith);
    assert((y + 1) * width == y * width + width) by (nonlinear_arith);
}

} // verus!
