//! The distorted-text code captcha: a fixed-size canvas filled white, strewn
//! with random hollow circles, noise line segments and cubic Bézier curves,
//! then overprinted with the text's glyphs, centred by an exact layout
//! formula. The drawing primitives come from the `imageproc` crate; the
//! counts, positions and the glyph layout are verified.

use vstd::prelude::*;

use crate::captcha_error::CaptchaError;
use crate::raster::{Image, Rgba};
use crate::rng::{random, random_range};

verus! {

/// Width of the code captcha canvas.
pub const WIDTH: u32 = 260;

/// Height of the code captcha canvas.
pub const HEIGHT: u32 = 96;

/// The uniform font scale glyphs are drawn at.
pub const FONT_SIZE: u32 = 72;

/// Horizontal room reserved for one glyph.
pub const FONT_WIDTH: u32 = 48;

/// Extra spacing inserted between neighbouring glyphs.
pub const FONT_INTERVAL: u32 = 15;

/// The fixed, ordered palette of the twelve colors shapes and glyphs are
/// drawn in.
pub open spec fn spec_palette(i: int) -> Rgba {
    if i == 0 {
        Rgba { r: 0, g: 135, b: 255, a: 255 }
    } else if i == 1 {
        Rgba { r: 51, g: 135, b: 51, a: 255 }
    } else if i == 2 {
        Rgba { r: 255, g: 102, b: 102, a: 255 }
    } else if i == 3 {
        Rgba { r: 255, g: 153, b: 0, a: 255 }
    } else if i == 4 {
        Rgba { r: 153, g: 102, b: 0, a: 255 }
    } else if i == 5 {
        Rgba { r: 153, g: 102, b: 153, a: 255 }
    } else if i == 6 {
        Rgba { r: 51, g: 153, b: 153, a: 255 }
    } else if i == 7 {
        Rgba { r: 102, g: 102, b: 255, a: 255 }
    } else if i == 8 {
        Rgba { r: 0, g: 102, b: 104, a: 255 }
    } else if i == 9 {
        Rgba { r: 204, g: 51, b: 51, a: 255 }
    } else if i == 10 {
        Rgba { r: 0, g: 153, b: 204, a: 255 }
    } else {
        Rgba { r: 0, g: 51, b: 102, a: 255 }
    }
}

/// The palette entry at index `i`.
pub fn palette(i: u32) -> (c: Rgba)
    requires
        i < 12,
    ensures
        c == spec_palette(i as int),
{
    if i == 0 {
        Rgba { r: 0, g: 135, b: 255, a: 255 }
    } else if i == 1 {
        Rgba { r: 51, g: 135, b: 51, a: 255 }
    } else if i == 2 {
        Rgba { r: 255, g: 102, b: 102, a: 255 }
    } else if i == 3 {
        Rgba { r: 255, g: 153, b: 0, a: 255 }
    } else if i == 4 {
        Rgba { r: 153, g: 102, b: 0, a: 255 }
    } else if i == 5 {
        Rgba { r: 153, g: 102, b: 153, a: 255 }
    } else if i == 6 {
        Rgba { r: 51, g: 153, b: 153, a: 255 }
    } else if i == 7 {
        Rgba { r: 102, g: 102, b: 255, a: 255 }
    } else if i == 8 {
        Rgba { r: 0, g: 102, b: 104, a: 255 }
    } else if i == 9 {
        Rgba { r: 204, g: 51, b: 51, a: 255 }
    } else if i == 10 {
        Rgba { r: 0, g: 153, b: 204, a: 255 }
    } else {
        Rgba { r: 0, g: 51, b: 102, a: 255 }
    }
}

/// Whether `c` is one of the twelve palette entries.
pub open spec fn is_palette_color(c: Rgba) -> bool {
    exists|i: int| 0 <= i < 12 && c == spec_palette(i)
}

/// A uniformly drawn palette color.
fn color() -> (c: Rgba)
    ensures
        is_palette_color(c),
{
    let i = random(12);
    let c = palette(i);
    proof {
        assert(c == spec_palette(i as int));
    }
    c
}

/// The total width of a block of `l` glyphs: one glyph width per character,
/// plus one interval per character beyond the second. The interval term
/// applies only when `l` exceeds two.
pub open spec fn glyph_block_width(l: int) -> int {
    (FONT_WIDTH as int) * l + if l > 2 {
        (FONT_INTERVAL as int) * (l - 2)
    } else {
        0
    }
}

/// The starting x of the glyph block: `(WIDTH - glyph_block_width(l)) / 2 - 5`
/// with division truncating toward zero. For wide blocks this is negative and
/// glyphs run off the canvas; that is deliberate and never guarded.
pub open spec fn glyph_start_x(l: int) -> int {
    if glyph_block_width(l) <= WIDTH {
        ((WIDTH as int) - glyph_block_width(l)) / 2 - 5
    } else {
        -((glyph_block_width(l) - (WIDTH as int)) / 2) - 5
    }
}

/// The starting y of the glyph block, centring the font size vertically.
pub open spec fn glyph_start_y() -> int {
    ((HEIGHT as int) - (FONT_SIZE as int)) / 2 + 5
}

/// The horizontal step from one glyph's x to the next.
pub open spec fn glyph_step() -> int {
    (FONT_WIDTH as int) + (FONT_INTERVAL as int)
}

/// Where a block of `char_count` glyphs is placed: its starting x and y and
/// the step between neighbouring glyph origins.
pub fn layout(char_count: usize) -> (r: (i128, i128, i128))
    ensures
        r.0 == glyph_start_x(char_count as int),
        r.1 == glyph_start_y(),
        r.2 == glyph_step(),
{
    let l = char_count as i128;
    let mut font_width: i128 = 48 * l;
    if char_count > 2 {
        font_width = font_width + 15 * (l - 2);
    }
    let x: i128 = if font_width <= 260 {
        (((260 - font_width) as u128) / 2) as i128 - 5
    } else {
        -((((font_width - 260) as u128) / 2) as i128) - 5
    };
    (x, 17, 63)
}

/// The parsed font type of the rusttype crate, opaque to the library: values
/// of it are only handed from `parse_font` to `draw_text_call`.
#[verifier::external_type_specification]
#[verifier::external_body]
pub struct ExFont<'a>(rusttype::Font<'a>);

/// Whether rusttype parses these bytes as a font; parsing is a function of
/// the bytes alone.
pub uninterp spec fn font_parses(data: Seq<u8>) -> bool;

/// Relies on rusttype::Font::try_from_vec: `Some` exactly when the bytes
/// parse as a font collection's first face, which depends on the bytes
/// alone.
#[verifier::external_body]
fn parse_font(data: &[u8]) -> (r: Option<rusttype::Font<'static>>)
    ensures
        r is Some <==> font_parses(data@),
{
    rusttype::Font::try_from_vec(data.to_vec())
}

/// The pixels after imageproc plots a hollow circle on the given raster;
/// the rasterizer is a function of its arguments alone.
pub uninterp spec fn circle_drawn(
    width: u32,
    height: u32,
    pixels: Seq<Rgba>,
    cx: i32,
    cy: i32,
    radius: i32,
    color: Rgba,
) -> Seq<Rgba>;

/// The pixels after imageproc plots a straight segment on the given raster.
pub uninterp spec fn line_drawn(
    width: u32,
    height: u32,
    pixels: Seq<Rgba>,
    x1: u16,
    y1: u16,
    x2: u16,
    y2: u16,
    color: Rgba,
) -> Seq<Rgba>;

/// The pixels after imageproc plots a cubic Bezier curve on the given
/// raster.
pub uninterp spec fn bezier_drawn(
    width: u32,
    height: u32,
    pixels: Seq<Rgba>,
    x1: u16,
    y1: u16,
    x2: u16,
    y2: u16,
    cx1: u16,
    cy1: u16,
    cx2: u16,
    cy2: u16,
    color: Rgba,
) -> Seq<Rgba>;

/// Relies on imageproc::drawing::draw_hollow_circle_mut, which plots a
/// circle outline, clipped to the canvas, leaving the dimensions unchanged,
/// as a function of its arguments alone. The bounds keep its Bresenham
/// updates, quadratic in the radius, within `i32`.
#[verifier::external_body]
fn draw_hollow_circle_call(img: &mut Image, cx: i32, cy: i32, radius: i32, color: Rgba)
    requires
        old(img).wf(),
        -100000 <= cx <= 100000,
        -100000 <= cy <= 100000,
        0 <= radius <= 10000,
    ensures
        final(img).wf(),
        final(img).width == old(img).width,
        final(img).height == old(img).height,
        final(img).pixels@ == circle_drawn(
            old(img).width, old(img).height, old(img).pixels@, cx, cy, radius, color),
{
    let flat: Vec<u8> = img.pixels.iter().flat_map(|p| [p.r, p.g, p.b]).collect();
    let mut buf = image::RgbImage::from_raw(img.width, img.height, flat).unwrap();
    imageproc::drawing::draw_hollow_circle_mut(
        &mut buf, (cx, cy), radius, image::Rgb([color.r, color.g, color.b]));
    img.pixels = buf.pixels().map(|q| Rgba { r: q[0], g: q[1], b: q[2], a: 255 }).collect();
}

/// Relies on imageproc::drawing::draw_line_segment_mut, which plots a
/// clipped straight segment, leaving the dimensions unchanged, as a function
/// of its arguments alone.
#[verifier::external_body]
fn draw_line_segment_call(img: &mut Image, x1: u16, y1: u16, x2: u16, y2: u16, color: Rgba)
    requires
        old(img).wf(),
    ensures
        final(img).wf(),
        final(img).width == old(img).width,
        final(img).height == old(img).height,
        final(img).pixels@ == line_drawn(
            old(img).width, old(img).height, old(img).pixels@, x1, y1, x2, y2, color),
{
    let flat: Vec<u8> = img.pixels.iter().flat_map(|p| [p.r, p.g, p.b]).collect();
    let mut buf = image::RgbImage::from_raw(img.width, img.height, flat).unwrap();
    imageproc::drawing::draw_line_segment_mut(
        &mut buf, (x1.into(), y1.into()), (x2.into(), y2.into()),
        image::Rgb([color.r, color.g, color.b]));
    img.pixels = buf.pixels().map(|q| Rgba { r: q[0], g: q[1], b: q[2], a: 255 }).collect();
}

/// Relies on imageproc::drawing::draw_cubic_bezier_curve_mut, which plots a
/// clipped cubic Bézier curve, leaving the dimensions unchanged, as a
/// function of its arguments alone.
#[verifier::external_body]
fn draw_cubic_bezier_call(
    img: &mut Image,
    x1: u16,
    y1: u16,
    x2: u16,
    y2: u16,
    cx1: u16,
    cy1: u16,
    cx2: u16,
    cy2: u16,
    color: Rgba,
)
    requires
        old(img).wf(),
    ensures
        final(img).wf(),
        final(img).width == old(img).width,
        final(img).height == old(img).height,
        final(img).pixels@ == bezier_drawn(
            old(img).width, old(img).height, old(img).pixels@,
            x1, y1, x2, y2, cx1, cy1, cx2, cy2, color),
{
    let flat: Vec<u8> = img.pixels.iter().flat_map(|p| [p.r, p.g, p.b]).collect();
    let mut buf = image::RgbImage::from_raw(img.width, img.height, flat).unwrap();
    imageproc::drawing::draw_cubic_bezier_curve_mut(
        &mut buf, (x1.into(), y1.into()), (x2.into(), y2.into()),
        (cx1.into(), cy1.into()), (cx2.into(), cy2.into()),
        image::Rgb([color.r, color.g, color.b]));
    img.pixels = buf.pixels().map(|q| Rgba { r: q[0], g: q[1], b: q[2], a: 255 }).collect();
}

/// Relies on imageproc::drawing::draw_text_mut with a rusttype font and
/// uniform scale: it rasterizes one glyph, clipped to the canvas, leaving
/// the dimensions unchanged; characters the font lacks draw nothing. The
/// coordinate bounds keep its `i32` offset sums away from overflow whatever
/// bounding boxes the font declares.
#[verifier::external_body]
fn draw_text_call(
    img: &mut Image,
    font: &rusttype::Font<'static>,
    x: i32,
    y: i32,
    size: u16,
    ch: char,
    color: Rgba,
)
    requires
        old(img).wf(),
        -1000000 <= x <= 1000000,
        0 <= y <= 1000000,
    ensures
        final(img).wf(),
        final(img).width == old(img).width,
        final(img).height == old(img).height,
{
    let flat: Vec<u8> = img.pixels.iter().flat_map(|p| [p.r, p.g, p.b]).collect();
    let mut buf = image::RgbImage::from_raw(img.width, img.height, flat).unwrap();
    imageproc::drawing::draw_text_mut(
        &mut buf, image::Rgb([color.r, color.g, color.b]), x, y,
        rusttype::Scale::uniform(size.into()), font, &ch.to_string());
    img.pixels = buf.pixels().map(|q| Rgba { r: q[0], g: q[1], b: q[2], a: 255 }).collect();
}

/// One decoration step of the circle pass: some fully-in-canvas hollow
/// circle with a radius and center in the ranges the renderer draws from,
/// in a palette color, plotted over `before`.
pub open spec fn circle_step(before: Seq<Rgba>, after: Seq<Rgba>) -> bool {
    exists|cx: i32, cy: i32, radius: i32, color: Rgba|
        #![trigger circle_drawn(WIDTH, HEIGHT, before, cx, cy, radius, color)]
        {
            &&& 4 <= radius < 8
            &&& radius <= cx < (WIDTH as int) - radius
            &&& radius <= cy < (HEIGHT as int) - radius
            &&& is_palette_color(color)
            &&& after == circle_drawn(WIDTH, HEIGHT, before, cx, cy, radius, color)
        }
}

/// `to` arises from `from` by exactly `n` circle steps.
pub open spec fn circles_drawn(from: Seq<Rgba>, to: Seq<Rgba>, n: int) -> bool
    decreases n,
{
    if n <= 0 {
        to == from
    } else {
        exists|mid: Seq<Rgba>| #![trigger circle_step(mid, to)]
            circles_drawn(from, mid, n - 1) && circle_step(mid, to)
    }
}

/// One decoration step of the noise-line pass: some segment with both
/// endpoints on the canvas, in a palette color, plotted over `before`.
pub open spec fn line_step(before: Seq<Rgba>, after: Seq<Rgba>) -> bool {
    exists|x1: u16, y1: u16, x2: u16, y2: u16, color: Rgba|
        #![trigger line_drawn(WIDTH, HEIGHT, before, x1, y1, x2, y2, color)]
        {
            &&& x1 < WIDTH && x2 < WIDTH
            &&& y1 < HEIGHT && y2 < HEIGHT
            &&& is_palette_color(color)
            &&& after == line_drawn(WIDTH, HEIGHT, before, x1, y1, x2, y2, color)
        }
}

/// `to` arises from `from` by exactly `n` line steps.
pub open spec fn lines_drawn(from: Seq<Rgba>, to: Seq<Rgba>, n: int) -> bool
    decreases n,
{
    if n <= 0 {
        to == from
    } else {
        exists|mid: Seq<Rgba>| #![trigger line_step(mid, to)]
            lines_drawn(from, mid, n - 1) && line_step(mid, to)
    }
}

/// One decoration step of the Bézier pass: a curve from the left edge to
/// the right edge whose endpoint heights lie in the two vertical bands, in
/// either orientation, with control points in the renderer's bands, in a
/// palette color, plotted over `before`.
pub open spec fn bezier_step(before: Seq<Rgba>, after: Seq<Rgba>) -> bool {
    exists|y1: u16, y2: u16, cx1: u16, cy1: u16, cx2: u16, cy2: u16, color: Rgba|
        #![trigger bezier_drawn(
            WIDTH, HEIGHT, before, 5u16, y1, (WIDTH - 5) as u16, y2, cx1, cy1, cx2, cy2, color)]
        {
            &&& (5 <= y1 < HEIGHT / 2 && HEIGHT / 2 <= y2 < HEIGHT - 5) || (HEIGHT / 2 <= y1
                < HEIGHT - 5 && 5 <= y2 < HEIGHT / 2)
            &&& WIDTH / 4 <= cx1 < WIDTH / 4 * 3
            &&& 5 <= cy1 < HEIGHT - 5
            &&& WIDTH / 4 <= cx2 < HEIGHT / 4 * 3
            &&& 5 <= cy2 < HEIGHT - 5
            &&& is_palette_color(color)
            &&& after == bezier_drawn(
                WIDTH, HEIGHT, before, 5u16, y1, (WIDTH - 5) as u16, y2, cx1, cy1, cx2, cy2,
                color)
        }
}

/// `to` arises from `from` by exactly `n` Bézier steps.
pub open spec fn beziers_drawn(from: Seq<Rgba>, to: Seq<Rgba>, n: int) -> bool
    decreases n,
{
    if n <= 0 {
        to == from
    } else {
        exists|mid: Seq<Rgba>| #![trigger bezier_step(mid, to)]
            beziers_drawn(from, mid, n - 1) && bezier_step(mid, to)
    }
}

/// Paint the whole canvas opaque white.
pub fn set_background_white(image: &mut Image)
    requires
        old(image).wf(),
    ensures
        final(image).wf(),
        final(image).width == old(image).width,
        final(image).height == old(image).height,
        forall|x: int, y: int|
            0 <= x < old(image).width && 0 <= y < old(image).height ==> final(image).pix(x, y)
                == (Rgba { r: 255, g: 255, b: 255, a: 255 }),
{
    let _n: usize = image.pixels.len();
    *image = Image::new_filled(image.width, image.height, Rgba { r: 255, g: 255, b: 255, a: 255 });
}

/// Scatter a random number of hollow circles, each sized and placed so the
/// full circle stays inside the canvas: the final canvas arises from the
/// old one by five to nine in-range circle steps.
pub fn draw_hollow_circle(image: &mut Image)
    requires
        old(image).wf(),
        old(image).width == WIDTH,
        old(image).height == HEIGHT,
    ensures
        final(image).wf(),
        final(image).width == WIDTH,
        final(image).height == HEIGHT,
        exists|n: int| 5 <= n < 10 && circles_drawn(old(image).pixels@, final(image).pixels@, n),
{
    let ghost snap = *image;
    let n = random_range(5, 10);
    proof {
        assert(circles_drawn(snap.pixels@, image.pixels@, 0));
    }
    let mut k: u32 = 0;
    while k < n
        invariant
            image.wf(),
            image.width == WIDTH,
            image.height == HEIGHT,
            k <= n,
            5 <= n < 10,
            circles_drawn(snap.pixels@, image.pixels@, k as int),
        decreases n - k,
    {
        let size = random_range(4, 8);
        let cx = random_range(size, WIDTH - size);
        let cy = random_range(size, HEIGHT - size);
        let c = color();
        let ghost before = image.pixels@;
        draw_hollow_circle_call(image, cx as i32, cy as i32, size as i32, c);
        proof {
            assert(image.pixels@ == circle_drawn(
                WIDTH, HEIGHT, before, cx as i32, cy as i32, size as i32, c));
            assert(circle_step(before, image.pixels@));
            assert(circles_drawn(snap.pixels@, image.pixels@, k as int + 1));
        }
        k = k + 1;
    }
}

/// Scatter a random number of noise line segments with endpoints anywhere on
/// the canvas: the final canvas arises from the old one by three to five
/// in-range line steps.
pub fn draw_random_lines(img: &mut Image)
    requires
        old(img).wf(),
        old(img).width == WIDTH,
        old(img).height == HEIGHT,
    ensures
        final(img).wf(),
        final(img).width == WIDTH,
        final(img).height == HEIGHT,
        exists|n: int| 3 <= n < 6 && lines_drawn(old(img).pixels@, final(img).pixels@, n),
{
    let ghost snap = *img;
    let n = random_range(3, 6);
    proof {
        assert(lines_drawn(snap.pixels@, img.pixels@, 0));
    }
    let mut k: u32 = 0;
    while k < n
        invariant
            img.wf(),
            img.width == WIDTH,
            img.height == HEIGHT,
            k <= n,
            3 <= n < 6,
            lines_drawn(snap.pixels@, img.pixels@, k as int),
        decreases n - k,
    {
        let x1 = random(WIDTH);
        let y1 = random(HEIGHT);
        let x2 = random(WIDTH);
        let y2 = random(HEIGHT);
        let c = color();
        let ghost before = img.pixels@;
        draw_line_segment_call(img, x1 as u16, y1 as u16, x2 as u16, y2 as u16, c);
        proof {
            assert(img.pixels@ == line_drawn(
                WIDTH, HEIGHT, before, x1 as u16, y1 as u16, x2 as u16, y2 as u16, c));
            assert(line_step(before, img.pixels@));
            assert(lines_drawn(snap.pixels@, img.pixels@, k as int + 1));
        }
        k = k + 1;
    }
}

/// Scatter a random number of cubic Bézier curves spanning the canvas, the
/// two endpoint heights swapped half the time to vary the orientation: the
/// final canvas arises from the old one by three or four in-range Bézier
/// steps.
pub fn draw_bezier_curve(img: &mut Image)
    requires
        old(img).wf(),
        old(img).width == WIDTH,
        old(img).height == HEIGHT,
    ensures
        final(img).wf(),
        final(img).width == WIDTH,
        final(img).height == HEIGHT,
        exists|n: int| 3 <= n < 5 && beziers_drawn(old(img).pixels@, final(img).pixels@, n),
{
    let ghost snap = *img;
    let n = random_range(3, 5);
    proof {
        assert(beziers_drawn(snap.pixels@, img.pixels@, 0));
    }
    let mut k: u32 = 0;
    while k < n
        invariant
            img.wf(),
            img.width == WIDTH,
            img.height == HEIGHT,
            k <= n,
            3 <= n < 5,
            beziers_drawn(snap.pixels@, img.pixels@, k as int),
        decreases n - k,
    {
        let x1: u32 = 5;
        let mut y1 = random_range(5, HEIGHT / 2);
        let x2: u32 = WIDTH - 5;
        let mut y2 = random_range(HEIGHT / 2, HEIGHT - 5);
        let lx = random_range(WIDTH / 4, WIDTH / 4 * 3);
        let ly = random_range(5, HEIGHT - 5);
        let lx1 = random_range(WIDTH / 4, HEIGHT / 4 * 3);
        let ly1 = random_range(5, HEIGHT - 5);
        if random(2) == 0 {
            let ty = y1;
            y1 = y2;
            y2 = ty;
        }
        let c = color();
        let ghost before = img.pixels@;
        draw_cubic_bezier_call(
            img, x1 as u16, y1 as u16, x2 as u16, y2 as u16,
            lx as u16, ly as u16, lx1 as u16, ly1 as u16, c);
        proof {
            assert(img.pixels@ == bezier_drawn(
                WIDTH, HEIGHT, before, 5u16, y1 as u16, (WIDTH - 5) as u16, y2 as u16,
                lx as u16, ly as u16, lx1 as u16, ly1 as u16, c));
            assert(bezier_step(before, img.pixels@));
            assert(beziers_drawn(snap.pixels@, img.pixels@, k as int + 1));
        }
        k = k + 1;
    }
}

/// Draw the text's glyphs at the verified layout positions, each in a fresh
/// random palette color. Succeeds exactly when the font bytes parse.
pub fn add_text_to_image(img: &mut Image, text: &String, font_data: &[u8]) -> (r: Result<
    (),
    CaptchaError,
>)
    requires
        old(img).wf(),
    ensures
        final(img).wf(),
        final(img).width == old(img).width,
        final(img).height == old(img).height,
        r is Ok <==> font_parses(font_data@),
        r matches Err(e) ==> e matches CaptchaError::OptionError,
{
    let font = match parse_font(font_data) {
        Some(f) => f,
        None => {
            return Err(CaptchaError::OptionError);
        },
    };
    let s = text.as_str();
    let l = s.unicode_len();
    let (x, y, step) = layout(l);
    proof {
        lemma_glyph_block_width_bound(l as int);
    }
    let mut i: usize = 0;
    while i < l
        invariant
            img.wf(),
            img.width == old(img).width,
            img.height == old(img).height,
            i <= l,
            l == s@.len(),
            x == glyph_start_x(l as int),
            y == glyph_start_y(),
            step == glyph_step(),
            -((FONT_WIDTH + FONT_INTERVAL) as int) * (l as int) - 35 <= x <= 130,
        decreases l - i,
    {
        let ch = s.get_char(i);
        proof {
            assert((i as i128) * step == 63 * (i as i128)) by (nonlinear_arith)
                requires step == 63;
        }
        let gx_wide: i128 = x + (i as i128) * step;
        let gx_clamped: i128 = if gx_wide < -1000000 {
            -1000000
        } else if gx_wide > 1000000 {
            1000000
        } else {
            gx_wide
        };
        let gx: i32 = gx_clamped as i32;
        let gy: i32 = y as i32;
        draw_text_call(img, &font, gx, gy, FONT_SIZE as u16, ch, color());
        i = i + 1;
    }
    Ok(())
}

/// The glyph block is never wider than one full step per character.
proof fn lemma_glyph_block_width_bound(l: int)
    requires
        l >= 0,
    ensures
        0 <= glyph_block_width(l) <= ((FONT_WIDTH + FONT_INTERVAL) as int) * l,
        -((FONT_WIDTH + FONT_INTERVAL) as int) * l - 35 <= glyph_start_x(l) <= 130,
{
    let w = glyph_block_width(l);
    assert(0 <= w <= 63 * l);
    if w <= 260 {
        assert(0 <= (260 - w) / 2 <= 130);
    } else {
        let d = w - 260;
        assert(d / 2 <= d) by (nonlinear_arith)
            requires d >= 0;
        assert(glyph_start_x(l) == -(d / 2) - 5);
        assert(-(d / 2) - 5 >= -d - 5);
    }
}

/// Render the code captcha for `text`: a white canvas with random circles,
/// noise lines and Bézier curves under the text's glyphs. The canvas is
/// always exactly `WIDTH` by `HEIGHT`, whatever the text's length; the
/// render succeeds exactly when the font bytes parse.
pub fn generate(text: String, font_data: &[u8]) -> (r: Result<Image, CaptchaError>)
    ensures
        r is Ok <==> font_parses(font_data@),
        r matches Ok(img) ==> img.wf() && img.width == WIDTH && img.height == HEIGHT,
        r matches Err(e) ==> e matches CaptchaError::OptionError,
{
    let mut image = Image::new_filled(WIDTH, HEIGHT, Rgba { r: 0, g: 0, b: 0, a: 255 });
    set_background_white(&mut image);

    draw_hollow_circle(&mut image);

    draw_random_lines(&mut image);

    draw_bezier_curve(&mut image);

    match add_text_to_image(&mut image, &text, font_data) {
        Ok(()) => Ok(image),
        Err(e) => Err(e),
    }
}

} // verus!
