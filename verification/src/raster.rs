//! Plain RGBA rasters: the canvas type that every captcha is drawn on,
//! with pixel-exact contracts, plus the codec calls (decode, resize,
//! encode) that go through the `image` crate.

use vstd::prelude::*;

use crate::captcha_error::CaptchaError;

verus! {

/// One pixel: red, green, blue and alpha channels.
#[derive(Clone, Copy, PartialEq, Eq, Structural, Debug)]
pub struct Rgba {
    pub r: u8,
    pub g: u8,
    pub b: u8,
    pub a: u8,
}

/// A W x H grid of pixels, stored row by row.
#[derive(Debug)]
pub struct Image {
    pub width: u32,
    pub height: u32,
    pub pixels: Vec<Rgba>,
}

impl Image {
    /// A raster is well formed when it holds exactly one pixel per coordinate.
    pub open spec fn wf(self) -> bool {
        self.pixels@.len() == self.width * self.height
    }

    /// The pixel at column `x` of row `y`.
    pub open spec fn pix(self, x: int, y: int) -> Rgba {
        self.pixels@[y * self.width + x]
    }

    /// A fresh raster with every pixel set to `fill`.
    pub fn new_filled(width: u32, height: u32, fill: Rgba) -> (img: Image)
        requires
            width * height <= usize::MAX,
        ensures
            img.wf(),
            img.width == width,
            img.height == height,
            forall|x: int, y: int|
                0 <= x < width && 0 <= y < height ==> img.pix(x, y) == fill,
    {
        let n: usize = (width as usize) * (height as usize);
        let mut pixels: Vec<Rgba> = Vec::new();
        let mut k: usize = 0;
        while k < n
            invariant
                k <= n,
                n == width * height,
                pixels@.len() == k,
                forall|m: int| 0 <= m < k ==> pixels@[m] == fill,
            decreases n - k,
        {
            pixels.push(fill);
            k = k + 1;
        }
        let img = Image { width, height, pixels };
        proof {
            assert forall|x: int, y: int|
                0 <= x < width && 0 <= y < height implies img.pix(x, y) == fill by {
                lemma_grid_index(width as int, height as int, x, y);
            }
        }
        img
    }

    /// Read one pixel.
    pub fn get_pixel(&self, x: u32, y: u32) -> (c: Rgba)
        requires
            self.wf(),
            x < self.width,
            y < self.height,
        ensures
            c == self.pix(x as int, y as int),
    {
        proof {
            lemma_grid_index(self.width as int, self.height as int, x as int, y as int);
        }
        let _n: usize = self.pixels.len();
        let i: usize = (y as usize) * (self.width as usize) + (x as usize);
        self.pixels[i]
    }

    /// Overwrite one pixel; every other pixel keeps its value.
    pub fn put_pixel(&mut self, x: u32, y: u32, c: Rgba)
        requires
            old(self).wf(),
            x < old(self).width,
            y < old(self).height,
        ensures
            final(self).wf(),
            final(self).width == old(self).width,
            final(self).height == old(self).height,
            final(self).pix(x as int, y as int) == c,
            forall|i: int, j: int|
                0 <= i < old(self).width && 0 <= j < old(self).height && (i != x || j != y)
                    ==> final(self).pix(i, j) == old(self).pix(i, j),
    {
        proof {
            lemma_grid_index(self.width as int, self.height as int, x as int, y as int);
        }
        let _n: usize = self.pixels.len();
        let i: usize = (y as usize) * (self.width as usize) + (x as usize);
        self.pixels[i] = c;
        proof {
            assert forall|i2: int, j2: int|
                0 <= i2 < self.width && 0 <= j2 < self.height && (i2 != x || j2 != y)
                    implies self.pix(i2, j2) == old(self).pix(i2, j2) by {
                lemma_grid_index(self.width as int, self.height as int, i2, j2);
                lemma_grid_index_injective(
                    self.width as int, self.height as int, i2, j2, x as int, y as int);
            }
        }
    }

    /// An independent copy of the `w` x `h` sub-raster whose top left corner
    /// sits at `(x0, y0)`.
    pub fn crop(&self, x0: u32, y0: u32, w: u32, h: u32) -> (out: Image)
        requires
            self.wf(),
            x0 + w <= self.width,
            y0 + h <= self.height,
        ensures
            out.wf(),
            out.width == w,
            out.height == h,
            forall|i: int, j: int|
                0 <= i < w && 0 <= j < h ==> out.pix(i, j) == self.pix(x0 + i, y0 + j),
    {
        let mut pixels: Vec<Rgba> = Vec::new();
        let mut y: u32 = 0;
        while y < h
            invariant
                y <= h,
                self.wf(),
                x0 + w <= self.width,
                y0 + h <= self.height,
                pixels@.len() == y * w,
                forall|k: int| 0 <= k < pixels@.len()
                    ==> #[trigger] pixels@[k] == self.pix(
                        x0 + k % (w as int), y0 + k / (w as int)),
            decreases h - y,
        {
            let mut x: u32 = 0;
            while x < w
                invariant
                    x <= w,
                    y < h,
                    self.wf(),
                    x0 + w <= self.width,
                    y0 + h <= self.height,
                    pixels@.len() == y * w + x,
                    forall|k: int| 0 <= k < pixels@.len()
                        ==> #[trigger] pixels@[k] == self.pix(
                            x0 + k % (w as int), y0 + k / (w as int)),
                decreases w - x,
            {
                let c = self.get_pixel(x0 + x, y0 + y);
                pixels.push(c);
                proof {
                    let k = pixels@.len() - 1;
                    vstd::arithmetic::div_mod::lemma_fundamental_div_mod_converse(
                        k, w as int, y as int, x as int);
                }
                x = x + 1;
            }
            proof {
                assert((y + 1) * w == y * w + w) by (nonlinear_arith);
            }
            y = y + 1;
        }
        let out = Image { width: w, height: h, pixels };
        proof {
            assert(h * w == w * h) by (nonlinear_arith);
            assert forall|i: int, j: int|
                0 <= i < w && 0 <= j < h
                    implies out.pix(i, j) == self.pix(x0 + i, y0 + j) by {
                lemma_grid_index(w as int, h as int, i, j);
                let k = j * (w as int) + i;
                assert(pixels@[k] == self.pix(x0 + k % (w as int), y0 + k / (w as int)));
                vstd::arithmetic::div_mod::lemma_fundamental_div_mod_converse(
                    k, w as int, j, i);
            }
        }
        out
    }
}

/// A row-major index stays inside the grid.
pub proof fn lemma_grid_index(w: int, h: int, x: int, y: int)
    by (nonlinear_arith)
    requires
        0 <= x < w,
        0 <= y < h,
    ensures
        0 <= y * w + x < w * h,
{
}

/// Two distinct coordinates never share a row-major index.
pub proof fn lemma_grid_index_injective(w: int, h: int, x1: int, y1: int, x2: int, y2: int)
    by (nonlinear_arith)
    requires
        0 <= x1 < w,
        0 <= y1 < h,
        0 <= x2 < w,
        0 <= y2 < h,
        x1 != x2 || y1 != y2,
    ensures
        y1 * w + x1 != y2 * w + x2,
{
}

/// Whether `image::load_from_memory` decodes these bytes; decoding is a
/// function of the bytes alone.
pub uninterp spec fn decode_ok(data: Seq<u8>) -> bool;

/// The width of the raster those bytes decode to.
pub uninterp spec fn decoded_width(data: Seq<u8>) -> u32;

/// The height of the raster those bytes decode to.
pub uninterp spec fn decoded_height(data: Seq<u8>) -> u32;

/// The RGBA pixels, row by row, of the raster those bytes decode to.
pub uninterp spec fn decoded_pixels(data: Seq<u8>) -> Seq<Rgba>;

/// The pixels of the triangle-filter resize of the given raster to the
/// given dimensions; the filter is a function of its inputs alone.
pub uninterp spec fn resized(
    width: u32,
    height: u32,
    pixels: Seq<Rgba>,
    nwidth: u32,
    nheight: u32,
) -> Seq<Rgba>;

/// Relies on `image::load_from_memory`, which decodes bytes of any supported
/// codec into a raster — `Ok` exactly on decodable bytes — and on
/// `DynamicImage::to_rgba8`, which converts that raster pixel for pixel into
/// RGBA form.
#[verifier::external_body]
pub(crate) fn decode_image(buffer: &[u8]) -> (r: Result<Image, CaptchaError>)
    ensures
        r is Ok <==> decode_ok(buffer@),
        r matches Ok(img) ==> img.wf() && img.width == decoded_width(buffer@) && img.height
            == decoded_height(buffer@) && img.pixels@ == decoded_pixels(buffer@),
        r matches Err(e) ==> e matches CaptchaError::ImageError(_),
{
    match image::load_from_memory(buffer) {
        Ok(decoded) => {
            let rgba = decoded.to_rgba8();
            let (width, height) = rgba.dimensions();
            let pixels = rgba.pixels().map(|p| Rgba { r: p[0], g: p[1], b: p[2], a: p[3] }).collect();
            Ok(Image { width, height, pixels })
        }
        Err(e) => Err(CaptchaError::ImageError(format!("{e}"))),
    }
}

/// Relies on `image::imageops::resize` with the triangle filter: the result
/// has exactly the requested dimensions, stretching the input as needed, and
/// depends on nothing but the input raster and the requested dimensions.
#[verifier::external_body]
pub(crate) fn resize_triangle(img: &Image, nwidth: u32, nheight: u32) -> (r: Image)
    requires
        img.wf(),
        img.width >= 1,
        img.height >= 1,
        nwidth >= 1,
        nheight >= 1,
    ensures
        r.wf(),
        r.width == nwidth,
        r.height == nheight,
        r.pixels@ == resized(img.width, img.height, img.pixels@, nwidth, nheight),
    {
        let flat: Vec<u8> = img.pixels.iter().flat_map(|p| [p.r, p.g, p.b, p.a]).collect();
        let buf = image::RgbaImage::from_raw(img.width, img.height, flat).unwrap();
        let out = image::imageops::resize(&buf, nwidth, nheight, image::imageops::FilterType::Triangle);
        let pixels = out.pixels().map(|p| Rgba { r: p[0], g: p[1], b: p[2], a: p[3] }).collect();
        Image { width: nwidth, height: nheight, pixels }
    }

/// Relies on `DynamicImage::write_to` with the PNG output format: it encodes
/// the raster losslessly into PNG bytes. Writing goes to an in-memory
/// buffer, and the encoder rejects only a zero dimension, so encoding a
/// moderately sized raster always succeeds.
#[verifier::external_body]
pub(crate) fn encode_png(img: &Image) -> (r: Result<Vec<u8>, CaptchaError>)
    requires
        img.wf(),
    ensures
        1 <= img.width <= 10000 && 1 <= img.height <= 10000 ==> r is Ok,
{
    let flat: Vec<u8> = img.pixels.iter().flat_map(|p| [p.r, p.g, p.b, p.a]).collect();
    let buf = image::RgbaImage::from_raw(img.width, img.height, flat).unwrap();
    let mut cursor = std::io::Cursor::new(Vec::new());
    match image::DynamicImage::ImageRgba8(buf).write_to(&mut cursor, image::ImageOutputFormat::Png) {
        Ok(()) => Ok(cursor.into_inner()),
        Err(e) => Err(CaptchaError::ImageError(format!("{e}"))),
    }
}

/// Relies on `DynamicImage::write_to` with the JPEG output format at the
/// given quality; the alpha channel is dropped first, JPEG being RGB only.
/// Writing goes to an in-memory buffer, and the encoder rejects only
/// dimensions beyond what a JPEG frame header holds, so encoding a raster
/// within those limits always succeeds.
#[verifier::external_body]
pub(crate) fn encode_jpeg(img: &Image, quality: u8) -> (r: Result<Vec<u8>, CaptchaError>)
    requires
        img.wf(),
    ensures
        1 <= img.width <= 65535 && 1 <= img.height <= 65535 ==> r is Ok,
{
    let flat: Vec<u8> = img.pixels.iter().flat_map(|p| [p.r, p.g, p.b, p.a]).collect();
    let buf = image::RgbaImage::from_raw(img.width, img.height, flat).unwrap();
    let rgb = image::DynamicImage::ImageRgba8(buf).to_rgb8();
    let mut cursor = std::io::Cursor::new(Vec::new());
    match image::DynamicImage::ImageRgb8(rgb).write_to(&mut cursor, image::ImageOutputFormat::Jpeg(quality)) {
        Ok(()) => Ok(cursor.into_inner()),
        Err(e) => Err(CaptchaError::ImageError(format!("{e}"))),
    }
}

} // verus!
