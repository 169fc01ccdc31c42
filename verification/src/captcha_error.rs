//! The failures a captcha render can end in. Every generator aborts on the
//! first failure; no partial artifact is ever returned.

use vstd::prelude::*;

verus! {

/// Why a render failed.
#[derive(Debug)]
pub enum CaptchaError {
    /// A general failure, with a short description.
    Error(String),
    /// A required value was absent: a missing asset, font bytes that do not
    /// parse as a font, or a template raster of the wrong size.
    OptionError,
    /// The image codec rejected the input bytes or the output raster.
    ImageError(String),
}

} // verus!
