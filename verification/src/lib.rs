//! Visual anti-automation challenges: a distorted-text code captcha and a
//! slider puzzle captcha. The pixel logic — layout, cropping, border and
//! silhouette application, shadow blending, coordinate scaling and the packed
//! wire format — is verified; randomness, fonts and image codecs are reached
//! through narrow trusted calls into outside crates.

pub mod captcha_error;
pub mod code_captcha;
pub mod raster;
pub mod rng;
pub mod slider_captcha;
pub mod wire;

use vstd::prelude::*;

use crate::captcha_error::CaptchaError;
use crate::raster::{encode_jpeg, encode_png, Rgba};

verus! {

/// The JPEG quality the code captcha is emitted at.
pub const JPEG_QUALITY: u8 = 75;

/// A coordinate divided by the slider's downsampling scale.
pub open spec fn halved(v: u32) -> int {
    v as int / (slider_captcha::SCALE as int)
}

/// Render the code captcha for `text` with the given font bytes and encode
/// it as JPEG at the fixed quality. It succeeds exactly when the font bytes
/// parse: the raster behind the bytes is then exactly `code_captcha::WIDTH`
/// by `code_captcha::HEIGHT`, well within what the JPEG encoder accepts.
/// The bytes themselves are the codec's work and stay unspecified.
pub fn code_captcha(text: String, font_data: &[u8]) -> (r: Result<Vec<u8>, CaptchaError>)
    ensures
        r is Ok <==> code_captcha::font_parses(font_data@),
        r matches Err(e) ==> e matches CaptchaError::OptionError,
{
    let image = match code_captcha::generate(text, font_data) {
        Ok(image) => image,
        Err(e) => {
            return Err(e);
        },
    };
    encode_jpeg(&image, JPEG_QUALITY)
}

/// Compose a slider challenge from raw image bytes and the two template
/// rasters, encode both output rasters as PNG, and pack them with the
/// downsampled answer into the wire buffer. Success is owed whenever the
/// input decodes to a non-empty raster and both templates decode to the
/// piece size, with one explicitly guarded exception: a piece encoding too
/// long for the wire format's signed 32-bit length field, reported as
/// `CaptchaError::Error`.
pub fn slider_captcha(buffer: &[u8], mask_png: &[u8], border_png: &[u8]) -> (r: Result<
    Vec<u8>,
    CaptchaError,
>)
    ensures
        r is Ok ==> slider_captcha::inputs_ok(buffer@, mask_png@, border_png@),
        slider_captcha::inputs_ok(buffer@, mask_png@, border_png@) && r is Err ==> (r
            matches Err(e) && e is Error),
        r matches Ok(out) ==> exists|x: u32, y: u32, piece: Seq<u8>, background: Seq<u8>|
            {
                &&& out@ == #[trigger] wire::packed(x, y, piece, background)
                &&& exists|x0: u32, y0: u32|
                    {
                        &&& slider_captcha::SLIDE_WIDTH <= x0 < slider_captcha::WIDTH
                            - slider_captcha::SLIDE_WIDTH
                        &&& y0 < slider_captcha::HEIGHT - slider_captcha::SLIDE_HEIGHT
                        &&& x == #[trigger] halved(x0)
                        &&& y == #[trigger] halved(y0)
                    }
            },
{
    let (background, piece, position) = match slider_captcha::generate(
        buffer,
        mask_png,
        border_png,
    ) {
        Ok(t) => t,
        Err(e) => {
            return Err(e);
        },
    };
    let piece_png = match encode_png(&piece) {
        Ok(bytes) => bytes,
        Err(e) => {
            return Err(e);
        },
    };
    let background_png = match encode_png(&background) {
        Ok(bytes) => bytes,
        Err(e) => {
            return Err(e);
        },
    };
    if piece_png.len() >= 0x8000_0000usize {
        return Err(CaptchaError::Error("the encoded piece is too large".to_owned()));
    }
    let out = wire::pack_result(position.0, position.1, &piece_png, &background_png);
    proof {
        let (x0, y0, silhouetted, occluded) = choose|x0: u32, y0: u32, silhouetted: Seq<
            Rgba,
        >, occluded: Seq<Rgba>|
            slider_captcha::composed_from(
                (background, piece, position),
                mask_png@,
                x0,
                y0,
                silhouetted,
                occluded,
            );
        assert(position.0 == halved(x0) && position.1 == halved(y0));
        assert(out@ == wire::packed(position.0, position.1, piece_png@, background_png@));
    }
    Ok(out)
}

} // verus!
