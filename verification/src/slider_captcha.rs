//! The slider puzzle: a background raster with a shaded notch and the
//! matching puzzle piece, both cut by a silhouette mask, plus the answer
//! coordinate, all downsampled by a fixed integer scale.

use vstd::prelude::*;

use crate::captcha_error::CaptchaError;
use crate::raster::{
    decode_image, decode_ok, decoded_height, decoded_pixels, decoded_width, resize_triangle,
    resized, Image, Rgba,
};
use crate::rng::random;

verus! {

/// Width of the working background raster.
pub const WIDTH: u32 = 720;

/// Height of the working background raster.
pub const HEIGHT: u32 = 280;

/// Width of the working puzzle piece (and of both templates).
pub const SLIDE_WIDTH: u32 = 100;

/// Height of the working puzzle piece (and of both templates).
pub const SLIDE_HEIGHT: u32 = 100;

/// The downsampling factor applied to both output rasters and the answer.
pub const SCALE: u32 = 2;

/// The per-channel blend of `a` over `b`, weighing `a` by its alpha:
/// `(ca * aa + cb * (255 - aa)) / 255` with truncating division.
pub open spec fn merge_channel(ca: int, cb: int, aa: int) -> int {
    (ca * aa + cb * (255 - aa)) / 255
}

/// The blended alpha channel: `aa + ab * (255 - aa) / 255` with truncating
/// division. This deliberately differs from premultiplied compositing and is
/// kept bit for bit for wire compatibility.
pub open spec fn merge_alpha(aa: int, ab: int) -> int {
    aa + ab * (255 - aa) / 255
}

/// The full blend of `color_a` (weighted by its own alpha) over `color_b`.
pub open spec fn spec_merge(color_a: Rgba, color_b: Rgba) -> Rgba {
    Rgba {
        r: merge_channel(color_a.r as int, color_b.r as int, color_a.a as int) as u8,
        g: merge_channel(color_a.g as int, color_b.g as int, color_a.a as int) as u8,
        b: merge_channel(color_a.b as int, color_b.b as int, color_a.a as int) as u8,
        a: merge_alpha(color_a.a as int, color_b.a as int) as u8,
    }
}

/// One channel of the blend stays within a byte.
proof fn lemma_merge_channel_bounds(ca: int, cb: int, aa: int)
    by (nonlinear_arith)
    requires
        0 <= ca <= 255,
        0 <= cb <= 255,
        0 <= aa <= 255,
    ensures
        0 <= ca * aa + cb * (255 - aa) <= 65025,
        0 <= merge_channel(ca, cb, aa) <= 255,
{
}

/// The blended alpha stays within a byte.
proof fn lemma_merge_alpha_bounds(aa: int, ab: int)
    by (nonlinear_arith)
    requires
        0 <= aa <= 255,
        0 <= ab <= 255,
    ensures
        0 <= ab * (255 - aa) <= 65025,
        0 <= merge_alpha(aa, ab) <= 255,
{
}

/// A fully transparent `color_a` leaves `color_b` exactly unchanged.
pub proof fn lemma_merge_transparent(color_a: Rgba, color_b: Rgba)
    requires
        color_a.a == 0,
    ensures
        spec_merge(color_a, color_b) == color_b,
{
    assert(forall|c: int| 0 <= c <= 255 ==> #[trigger] merge_channel(c, c, 0) == c);
    assert forall|ca: int, cb: int| 0 <= ca <= 255 && 0 <= cb <= 255
        implies #[trigger] merge_channel(ca, cb, 0) == cb by {
        assert(ca * 0 == 0) by (nonlinear_arith);
        assert(cb * 255 / 255 == cb) by (nonlinear_arith)
            requires 0 <= cb <= 255;
    }
    assert forall|ab: int| 0 <= ab <= 255 implies #[trigger] merge_alpha(0, ab) == ab by {
        assert(ab * 255 / 255 == ab) by (nonlinear_arith)
            requires 0 <= ab <= 255;
    }
}

/// A fully opaque `color_a` wins every color channel, and the blended alpha
/// is full.
pub proof fn lemma_merge_opaque(color_a: Rgba, color_b: Rgba)
    requires
        color_a.a == 255,
    ensures
        spec_merge(color_a, color_b) == (Rgba {
            r: color_a.r,
            g: color_a.g,
            b: color_a.b,
            a: 255,
        }),
{
    assert forall|ca: int, cb: int| 0 <= ca <= 255 && 0 <= cb <= 255
        implies #[trigger] merge_channel(ca, cb, 255) == ca by {
        assert(cb * 0 == 0) by (nonlinear_arith);
        assert(ca * 255 / 255 == ca) by (nonlinear_arith)
            requires 0 <= ca <= 255;
    }
    assert forall|ab: int| 0 <= ab <= 255 implies #[trigger] merge_alpha(255, ab) == 255 by {
        assert(ab * 0 == 0) by (nonlinear_arith);
    }
}

/// Merge `color_a`, weighted by its own alpha channel, over `color_b`.
pub fn merge_colors(color_a: Rgba, color_b: Rgba) -> (merged: Rgba)
    ensures
        merged == spec_merge(color_a, color_b),
{
    let r_a = color_a.r as u16;
    let g_a = color_a.g as u16;
    let b_a = color_a.b as u16;
    let a_a = color_a.a as u16;

    let r_b = color_b.r as u16;
    let g_b = color_b.g as u16;
    let b_b = color_b.b as u16;
    let a_b = color_b.a as u16;

    proof {
        lemma_merge_channel_bounds(color_a.r as int, color_b.r as int, color_a.a as int);
        lemma_merge_channel_bounds(color_a.g as int, color_b.g as int, color_a.a as int);
        lemma_merge_channel_bounds(color_a.b as int, color_b.b as int, color_a.a as int);
        lemma_merge_alpha_bounds(color_a.a as int, color_b.a as int);
    }

    let r_result = ((r_a * a_a + r_b * (255 - a_a)) / 255) as u8;
    let g_result = ((g_a * a_a + g_b * (255 - a_a)) / 255) as u8;
    let b_result = ((b_a * a_a + b_b * (255 - a_a)) / 255) as u8;
    let a_result = (a_a + a_b * (255 - a_a) / 255) as u8;

    Rgba { r: r_result, g: g_result, b: b_result, a: a_result }
}

/// What one piece pixel holds after the rim decoration: the border template
/// pixel wins unless it is fully transparent black, the no-op value.
pub open spec fn border_apply(orig: Rgba, tpl: Rgba) -> Rgba {
    if tpl.r == 0 && tpl.g == 0 && tpl.b == 0 && tpl.a == 0 {
        orig
    } else {
        tpl
    }
}

/// `c` with its alpha channel replaced by `alpha`.
pub open spec fn with_alpha(c: Rgba, alpha: u8) -> Rgba {
    Rgba { r: c.r, g: c.g, b: c.b, a: alpha }
}

/// What one background pixel holds after the shadow occlusion: where the
/// mask's alpha is positive, black at half that alpha is blended over it.
pub open spec fn shadowed(mask_px: Rgba, orig: Rgba) -> Rgba {
    if mask_px.a > 0 {
        spec_merge(Rgba { r: 0, g: 0, b: 0, a: ((mask_px.a as int) / 2) as u8 }, orig)
    } else {
        orig
    }
}

/// A random answer position: the piece fits fully inside the working canvas,
/// with at least one piece width kept free on its left, and a small random
/// jitter narrowing each usable range.
pub fn position() -> (p: (u32, u32))
    ensures
        SLIDE_WIDTH <= p.0 < WIDTH - SLIDE_WIDTH,
        p.1 < HEIGHT - SLIDE_HEIGHT,
{
    let x = SLIDE_WIDTH + random(WIDTH - SLIDE_WIDTH - SLIDE_WIDTH - random(10));
    let y = random(HEIGHT - SLIDE_HEIGHT - random(10));
    (x, y)
}

/// Whether these bytes decode to a raster of exactly the piece size, the
/// shape both templates must have.
pub open spec fn template_ok(data: Seq<u8>) -> bool {
    &&& decode_ok(data)
    &&& decoded_width(data) == SLIDE_WIDTH
    &&& decoded_height(data) == SLIDE_HEIGHT
}

/// What the slider composer needs of its three byte inputs: a decodable,
/// non-empty source image and two piece-sized templates.
pub open spec fn inputs_ok(buffer: Seq<u8>, mask_png: Seq<u8>, border_png: Seq<u8>) -> bool {
    &&& decode_ok(buffer)
    &&& decoded_width(buffer) >= 1
    &&& decoded_height(buffer) >= 1
    &&& template_ok(mask_png)
    &&& template_ok(border_png)
}

/// Decode one template raster; it must be exactly the piece size.
fn load_template(bytes: &[u8]) -> (r: Result<Image, CaptchaError>)
    ensures
        r is Ok <==> template_ok(bytes@),
        r matches Ok(img) ==> img.wf() && img.width == SLIDE_WIDTH && img.height
            == SLIDE_HEIGHT && img.pixels@ == decoded_pixels(bytes@),
{
    let img = match decode_image(bytes) {
        Ok(img) => img,
        Err(e) => {
            return Err(e);
        },
    };
    if img.width == SLIDE_WIDTH && img.height == SLIDE_HEIGHT {
        Ok(img)
    } else {
        Err(CaptchaError::OptionError)
    }
}

/// Decode the input bytes and normalize them to the working size by a
/// stretch resize; the raster is never cropped, and one already at the
/// working size passes through pixel for pixel.
pub fn original_image(buffer: &[u8]) -> (r: Result<Image, CaptchaError>)
    ensures
        r is Ok <==> decode_ok(buffer@) && decoded_width(buffer@) >= 1 && decoded_height(
            buffer@,
        ) >= 1,
        r matches Ok(img) ==> img.wf() && img.width == WIDTH && img.height == HEIGHT,
        r matches Ok(img) ==> (decoded_width(buffer@) == WIDTH && decoded_height(buffer@)
            == HEIGHT ==> img.pixels@ == decoded_pixels(buffer@)),
        r matches Ok(img) ==> (!(decoded_width(buffer@) == WIDTH && decoded_height(buffer@)
            == HEIGHT) ==> img.pixels@ == resized(
            decoded_width(buffer@),
            decoded_height(buffer@),
            decoded_pixels(buffer@),
            WIDTH,
            HEIGHT,
        )),
{
    let img = match decode_image(buffer) {
        Ok(img) => img,
        Err(e) => {
            return Err(e);
        },
    };
    if img.width == WIDTH && img.height == HEIGHT {
        Ok(img)
    } else if img.width >= 1 && img.height >= 1 {
        Ok(resize_triangle(&img, WIDTH, HEIGHT))
    } else {
        Err(CaptchaError::ImageError("the decoded raster is empty".to_owned()))
    }
}

/// Draw the rim decoration onto the piece: every template pixel that is not
/// fully transparent black replaces the piece pixel below it outright.
pub fn border(image: &mut Image, tpl: &Image)
    requires
        old(image).wf(),
        tpl.wf(),
        tpl.width == old(image).width,
        tpl.height == old(image).height,
    ensures
        final(image).wf(),
        final(image).width == old(image).width,
        final(image).height == old(image).height,
        forall|i: int, j: int|
            0 <= i < old(image).width && 0 <= j < old(image).height
                ==> final(image).pix(i, j) == border_apply(old(image).pix(i, j), tpl.pix(i, j)),
{
    let ghost snap = *image;
    let w = image.width;
    let h = image.height;
    let mut x: u32 = 0;
    while x < w
        invariant
            x <= w,
            image.wf(),
            image.width == w,
            image.height == h,
            snap.wf(),
            snap.width == w,
            snap.height == h,
            tpl.wf(),
            tpl.width == w,
            tpl.height == h,
            forall|i: int, j: int|
                0 <= i < x && 0 <= j < h
                    ==> image.pix(i, j) == border_apply(snap.pix(i, j), tpl.pix(i, j)),
            forall|i: int, j: int|
                x <= i < w && 0 <= j < h ==> image.pix(i, j) == snap.pix(i, j),
        decreases w - x,
    {
        let mut y: u32 = 0;
        while y < h
            invariant
                y <= h,
                x < w,
                image.wf(),
                image.width == w,
                image.height == h,
                snap.wf(),
                snap.width == w,
                snap.height == h,
                tpl.wf(),
                tpl.width == w,
                tpl.height == h,
                forall|i: int, j: int|
                    0 <= i < x && 0 <= j < h
                        ==> image.pix(i, j) == border_apply(snap.pix(i, j), tpl.pix(i, j)),
                forall|j: int|
                    0 <= j < y ==> image.pix(x as int, j) == border_apply(
                        snap.pix(x as int, j), tpl.pix(x as int, j)),
                forall|j: int|
                    y <= j < h ==> image.pix(x as int, j) == snap.pix(x as int, j),
                forall|i: int, j: int|
                    x < i < w && 0 <= j < h ==> image.pix(i, j) == snap.pix(i, j),
            decreases h - y,
        {
            let pixel = tpl.get_pixel(x, y);
            if !(pixel.r == 0 && pixel.g == 0 && pixel.b == 0 && pixel.a == 0) {
                image.put_pixel(x, y, pixel);
            }
            y = y + 1;
        }
        x = x + 1;
    }
}

/// Cut the piece out of the working image at `position`, decorate its rim
/// from the border template, then force its alpha channel to the mask's
/// silhouette pixel for pixel.
pub fn cutout(image: &Image, position: (u32, u32), mask: &Image, border_tpl: &Image) -> (piece:
    Image)
    requires
        image.wf(),
        position.0 + SLIDE_WIDTH <= image.width,
        position.1 + SLIDE_HEIGHT <= image.height,
        mask.wf(),
        mask.width == SLIDE_WIDTH,
        mask.height == SLIDE_HEIGHT,
        border_tpl.wf(),
        border_tpl.width == SLIDE_WIDTH,
        border_tpl.height == SLIDE_HEIGHT,
    ensures
        piece.wf(),
        piece.width == SLIDE_WIDTH,
        piece.height == SLIDE_HEIGHT,
        forall|i: int, j: int|
            0 <= i < SLIDE_WIDTH && 0 <= j < SLIDE_HEIGHT ==> piece.pix(i, j) == with_alpha(
                border_apply(
                    image.pix(position.0 + i, position.1 + j),
                    border_tpl.pix(i, j),
                ),
                mask.pix(i, j).a,
            ),
        forall|i: int, j: int|
            0 <= i < SLIDE_WIDTH && 0 <= j < SLIDE_HEIGHT ==> piece.pix(i, j).a == mask.pix(
                i,
                j,
            ).a,
{
    let mut piece = image.crop(position.0, position.1, SLIDE_WIDTH, SLIDE_HEIGHT);
    border(&mut piece, border_tpl);
    let ghost bordered = piece;
    let mut x: u32 = 0;
    while x < SLIDE_WIDTH
        invariant
            x <= SLIDE_WIDTH,
            piece.wf(),
            piece.width == SLIDE_WIDTH,
            piece.height == SLIDE_HEIGHT,
            bordered.wf(),
            bordered.width == SLIDE_WIDTH,
            bordered.height == SLIDE_HEIGHT,
            mask.wf(),
            mask.width == SLIDE_WIDTH,
            mask.height == SLIDE_HEIGHT,
            forall|i: int, j: int|
                0 <= i < x && 0 <= j < SLIDE_HEIGHT ==> piece.pix(i, j) == with_alpha(
                    bordered.pix(i, j),
                    mask.pix(i, j).a,
                ),
            forall|i: int, j: int|
                x <= i < SLIDE_WIDTH && 0 <= j < SLIDE_HEIGHT ==> piece.pix(i, j)
                    == bordered.pix(i, j),
        decreases SLIDE_WIDTH - x,
    {
        let mut y: u32 = 0;
        while y < SLIDE_HEIGHT
            invariant
                y <= SLIDE_HEIGHT,
                x < SLIDE_WIDTH,
                piece.wf(),
                piece.width == SLIDE_WIDTH,
                piece.height == SLIDE_HEIGHT,
                bordered.wf(),
                bordered.width == SLIDE_WIDTH,
                bordered.height == SLIDE_HEIGHT,
                mask.wf(),
                mask.width == SLIDE_WIDTH,
                mask.height == SLIDE_HEIGHT,
                forall|i: int, j: int|
                    0 <= i < x && 0 <= j < SLIDE_HEIGHT ==> piece.pix(i, j) == with_alpha(
                        bordered.pix(i, j),
                        mask.pix(i, j).a,
                    ),
                forall|j: int|
                    0 <= j < y ==> piece.pix(x as int, j) == with_alpha(
                        bordered.pix(x as int, j),
                        mask.pix(x as int, j).a,
                    ),
                forall|j: int|
                    y <= j < SLIDE_HEIGHT ==> piece.pix(x as int, j) == bordered.pix(x as int, j),
                forall|i: int, j: int|
                    x < i < SLIDE_WIDTH && 0 <= j < SLIDE_HEIGHT ==> piece.pix(i, j)
                        == bordered.pix(i, j),
            decreases SLIDE_HEIGHT - y,
        {
            let alpha = mask.get_pixel(x, y).a;
            let pixel = piece.get_pixel(x, y);
            piece.put_pixel(x, y, Rgba { r: pixel.r, g: pixel.g, b: pixel.b, a: alpha });
            y = y + 1;
        }
        x = x + 1;
    }
    piece
}

/// Shade the notch: wherever the mask's alpha is positive, blend black at
/// half that alpha over the background pixel under the piece region.
pub fn block(position: (u32, u32), image: &mut Image, mask: &Image)
    requires
        old(image).wf(),
        position.0 + SLIDE_WIDTH <= old(image).width,
        position.1 + SLIDE_HEIGHT <= old(image).height,
        mask.wf(),
        mask.width == SLIDE_WIDTH,
        mask.height == SLIDE_HEIGHT,
    ensures
        final(image).wf(),
        final(image).width == old(image).width,
        final(image).height == old(image).height,
        forall|i: int, j: int|
            0 <= i < SLIDE_WIDTH && 0 <= j < SLIDE_HEIGHT ==> final(image).pix(
                position.0 + i,
                position.1 + j,
            ) == shadowed(mask.pix(i, j), old(image).pix(position.0 + i, position.1 + j)),
        forall|gx: int, gy: int|
            0 <= gx < old(image).width && 0 <= gy < old(image).height && !(position.0 <= gx
                < position.0 + SLIDE_WIDTH && position.1 <= gy < position.1 + SLIDE_HEIGHT)
                ==> final(image).pix(gx, gy) == old(image).pix(gx, gy),
{
    let ghost snap = *image;
    let x0 = position.0;
    let y0 = position.1;
    let mut x: u32 = 0;
    while x < SLIDE_WIDTH
        invariant
            x <= SLIDE_WIDTH,
            image.wf(),
            image.width == snap.width,
            image.height == snap.height,
            snap.wf(),
            x0 == position.0,
            y0 == position.1,
            x0 + SLIDE_WIDTH <= snap.width,
            y0 + SLIDE_HEIGHT <= snap.height,
            mask.wf(),
            mask.width == SLIDE_WIDTH,
            mask.height == SLIDE_HEIGHT,
            forall|i: int, j: int|
                0 <= i < x && 0 <= j < SLIDE_HEIGHT ==> image.pix(x0 + i, y0 + j) == shadowed(
                    mask.pix(i, j),
                    snap.pix(x0 + i, y0 + j),
                ),
            forall|gx: int, gy: int|
                0 <= gx < snap.width && 0 <= gy < snap.height && !(x0 <= gx < x0 + x && y0 <= gy
                    < y0 + SLIDE_HEIGHT) ==> image.pix(gx, gy) == snap.pix(gx, gy),
        decreases SLIDE_WIDTH - x,
    {
        let mut y: u32 = 0;
        while y < SLIDE_HEIGHT
            invariant
                y <= SLIDE_HEIGHT,
                x < SLIDE_WIDTH,
                image.wf(),
                image.width == snap.width,
                image.height == snap.height,
                snap.wf(),
                x0 == position.0,
                y0 == position.1,
                x0 + SLIDE_WIDTH <= snap.width,
                y0 + SLIDE_HEIGHT <= snap.height,
                mask.wf(),
                mask.width == SLIDE_WIDTH,
                mask.height == SLIDE_HEIGHT,
                forall|i: int, j: int|
                    0 <= i < x && 0 <= j < SLIDE_HEIGHT ==> image.pix(x0 + i, y0 + j) == shadowed(
                        mask.pix(i, j),
                        snap.pix(x0 + i, y0 + j),
                    ),
                forall|j: int|
                    0 <= j < y ==> image.pix(x0 + x, y0 + j) == shadowed(
                        mask.pix(x as int, j),
                        snap.pix(x0 + x, y0 + j),
                    ),
                forall|gx: int, gy: int|
                    0 <= gx < snap.width && 0 <= gy < snap.height && !(x0 <= gx < x0 + x && y0
                        <= gy < y0 + SLIDE_HEIGHT) && !(gx == x0 + x && y0 <= gy < y0 + y)
                        ==> image.pix(gx, gy) == snap.pix(gx, gy),
            decreases SLIDE_HEIGHT - y,
        {
            let alpha = mask.get_pixel(x, y).a;
            if alpha > 0 {
                let pixel = image.get_pixel(x0 + x, y0 + y);
                let merge_pixel = merge_colors(Rgba { r: 0, g: 0, b: 0, a: alpha / 2 }, pixel);
                image.put_pixel(x0 + x, y0 + y, merge_pixel);
            }
            y = y + 1;
        }
        x = x + 1;
    }
}

/// How a returned slider triple relates to a pre-scale answer position and
/// the two working rasters the downsamples were taken from: the coordinate
/// is the position divided by the scale, the piece is the downsample of a
/// piece-sized raster whose alpha channel equals the mask template's pixel
/// for pixel, and the background is the downsample of a working-sized
/// raster.
pub open spec fn composed_from(
    t: (Image, Image, (u32, u32)),
    mask_png: Seq<u8>,
    x0: u32,
    y0: u32,
    silhouetted: Seq<Rgba>,
    occluded: Seq<Rgba>,
) -> bool {
    &&& SLIDE_WIDTH <= x0 < WIDTH - SLIDE_WIDTH
    &&& y0 < HEIGHT - SLIDE_HEIGHT
    &&& t.2.0 == x0 / SCALE
    &&& t.2.1 == y0 / SCALE
    &&& silhouetted.len() == SLIDE_WIDTH * SLIDE_HEIGHT
    &&& (forall|k: int|
        0 <= k < silhouetted.len() ==> (#[trigger] silhouetted[k]).a == decoded_pixels(
            mask_png,
        )[k].a)
    &&& t.1.pixels@ == resized(
        SLIDE_WIDTH,
        SLIDE_HEIGHT,
        silhouetted,
        SLIDE_WIDTH / SCALE,
        SLIDE_HEIGHT / SCALE,
    )
    &&& occluded.len() == WIDTH * HEIGHT
    &&& t.0.pixels@ == resized(WIDTH, HEIGHT, occluded, WIDTH / SCALE, HEIGHT / SCALE)
}

/// Compose a slider challenge from raw input bytes and the two template
/// rasters: the occluded background, the decorated piece, and the answer
/// position, each downsampled by the fixed scale. It succeeds exactly when
/// the input decodes to a non-empty raster and both templates decode to the
/// piece size; the returned coordinate is the pre-scale position divided by
/// the scale after extraction and occlusion, and the returned piece is the
/// downsample of a piece-sized raster whose alpha channel equals the mask
/// template's pixel for pixel.
pub fn generate(buffer: &[u8], mask_png: &[u8], border_png: &[u8]) -> (r: Result<
    (Image, Image, (u32, u32)),
    CaptchaError,
>)
    ensures
        r is Ok <==> inputs_ok(buffer@, mask_png@, border_png@),
        r matches Ok(t) ==> ({
            &&& t.0.wf()
            &&& t.0.width == WIDTH / SCALE
            &&& t.0.height == HEIGHT / SCALE
            &&& t.1.wf()
            &&& t.1.width == SLIDE_WIDTH / SCALE
            &&& t.1.height == SLIDE_HEIGHT / SCALE
            &&& SLIDE_WIDTH / SCALE <= t.2.0 <= ((WIDTH - SLIDE_WIDTH - 1) as int) / (
            SCALE as int)
            &&& t.2.1 <= ((HEIGHT - SLIDE_HEIGHT - 1) as int) / (SCALE as int)
        }),
        r matches Ok(t) ==> exists|x0: u32, y0: u32, silhouetted: Seq<Rgba>, occluded: Seq<
            Rgba,
        >| #[trigger] composed_from(t, mask_png@, x0, y0, silhouetted, occluded),
{
    let mut position = position();
    let ghost answer = position;
    let mut original_image = match original_image(buffer) {
        Ok(img) => img,
        Err(e) => {
            return Err(e);
        },
    };
    let mask = match load_template(mask_png) {
        Ok(img) => img,
        Err(e) => {
            return Err(e);
        },
    };
    let border_tpl = match load_template(border_png) {
        Ok(img) => img,
        Err(e) => {
            return Err(e);
        },
    };
    let piece_full = cutout(&original_image, position, &mask, &border_tpl);
    let piece = resize_triangle(&piece_full, SLIDE_WIDTH / SCALE, SLIDE_HEIGHT / SCALE);
    block(position, &mut original_image, &mask);
    let background = resize_triangle(&original_image, WIDTH / SCALE, HEIGHT / SCALE);
    position.0 = position.0 / SCALE;
    position.1 = position.1 / SCALE;
    proof {
        assert forall|k: int| 0 <= k < piece_full.pixels@.len() implies (
        #[trigger] piece_full.pixels@[k]).a == decoded_pixels(mask_png@)[k].a by {
            let w = SLIDE_WIDTH as int;
            let i = k % w;
            let j = k / w;
            vstd::arithmetic::div_mod::lemma_fundamental_div_mod(k, w);
            vstd::arithmetic::div_mod::lemma_mod_bound(k, w);
            assert(piece_full.pix(i, j).a == mask.pix(i, j).a);
        }
        assert(composed_from(
            (background, piece, position),
            mask_png@,
            answer.0,
            answer.1,
            piece_full.pixels@,
            original_image.pixels@,
        ));
    }
    Ok((background, piece, position))
}

} // verus!
