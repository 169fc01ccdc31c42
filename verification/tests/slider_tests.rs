//! Tests for the slider puzzle composer.

use rcaptcha::captcha_error::CaptchaError;
use rcaptcha::raster::{Image, Rgba};
use rcaptcha::slider_captcha;

/// An in-memory JPEG of the given size with a smooth gradient.
fn gradient_jpeg(width: u32, height: u32) -> Vec<u8> {
    let buf = image::RgbImage::from_fn(width, height, |x, y| {
        image::Rgb([(x % 256) as u8, (y % 256) as u8, ((x + y) % 256) as u8])
    });
    let mut cursor = std::io::Cursor::new(Vec::new());
    image::DynamicImage::ImageRgb8(buf)
        .write_to(&mut cursor, image::ImageOutputFormat::Jpeg(90))
        .unwrap();
    cursor.into_inner()
}

/// An in-memory 100x100 PNG whose alpha is `alpha` inside the centred
/// 60x60 square and 0 outside it.
fn square_mask_png(alpha: u8) -> Vec<u8> {
    let buf = image::RgbaImage::from_fn(100, 100, |x, y| {
        if (20..80).contains(&x) && (20..80).contains(&y) {
            image::Rgba([0, 0, 0, alpha])
        } else {
            image::Rgba([0, 0, 0, 0])
        }
    });
    let mut cursor = std::io::Cursor::new(Vec::new());
    image::DynamicImage::ImageRgba8(buf)
        .write_to(&mut cursor, image::ImageOutputFormat::Png)
        .unwrap();
    cursor.into_inner()
}

/// An in-memory 100x100 PNG that is transparent black except for a red
/// one-pixel frame around the centred square.
fn frame_border_png() -> Vec<u8> {
    let buf = image::RgbaImage::from_fn(100, 100, |x, y| {
        let on_frame = ((x == 20 || x == 79) && (20..80).contains(&y)) || ((y == 20 || y == 79)
            && (20..80).contains(&x));
        if on_frame {
            image::Rgba([255, 0, 0, 255])
        } else {
            image::Rgba([0, 0, 0, 0])
        }
    });
    let mut cursor = std::io::Cursor::new(Vec::new());
    image::DynamicImage::ImageRgba8(buf)
        .write_to(&mut cursor, image::ImageOutputFormat::Png)
        .unwrap();
    cursor.into_inner()
}

/// A raster built directly, pixel by pixel.
fn solid_image(width: u32, height: u32, c: Rgba) -> Image {
    Image { width, height, pixels: vec![c; (width * height) as usize] }
}

#[test]
fn slider() {
    let buffer_data = gradient_jpeg(720, 280);
    let generate_result =
        slider_captcha::generate(&buffer_data, &square_mask_png(255), &frame_border_png())
            .unwrap();
    assert_eq!(generate_result.0.width, 360);
    assert_eq!(generate_result.0.height, 140);
    assert_eq!(generate_result.1.width, 50);
    assert_eq!(generate_result.1.height, 50);
}

#[test]
fn outputs_are_downsampled_to_fixed_sizes() {
    let buffer_data = gradient_jpeg(720, 280);
    for _ in 0..3 {
        let (background, piece, _) =
            slider_captcha::generate(&buffer_data, &square_mask_png(200), &frame_border_png())
                .unwrap();
        assert_eq!((background.width, background.height), (360, 140));
        assert_eq!((piece.width, piece.height), (50, 50));
    }
}

#[test]
fn answer_position_stays_in_range() {
    let buffer_data = gradient_jpeg(720, 280);
    for _ in 0..20 {
        let (_, _, (x, y)) =
            slider_captcha::generate(&buffer_data, &square_mask_png(255), &frame_border_png())
                .unwrap();
        assert!((50..=309).contains(&x));
        assert!(y <= 89);
    }
}

#[test]
fn oversized_input_is_normalized_before_extraction() {
    // A 1280x720 input is first stretched to 720x280; the outputs keep their
    // fixed sizes, and with a fully opaque mask the piece's alpha stays 255
    // through the downsampling.
    let buffer_data = gradient_jpeg(1280, 720);
    let mask = {
        let buf = image::RgbaImage::from_pixel(100, 100, image::Rgba([0, 0, 0, 255]));
        let mut cursor = std::io::Cursor::new(Vec::new());
        image::DynamicImage::ImageRgba8(buf)
            .write_to(&mut cursor, image::ImageOutputFormat::Png)
            .unwrap();
        cursor.into_inner()
    };
    let (background, piece, _) =
        slider_captcha::generate(&buffer_data, &mask, &frame_border_png()).unwrap();
    assert_eq!((background.width, background.height), (360, 140));
    assert_eq!((piece.width, piece.height), (50, 50));
    assert!(piece.pixels.iter().all(|p| p.a == 255));
}

#[test]
fn piece_alpha_equals_mask_alpha_before_downsampling() {
    let working = solid_image(720, 280, Rgba { r: 10, g: 20, b: 30, a: 255 });
    let mut mask = solid_image(100, 100, Rgba { r: 0, g: 0, b: 0, a: 0 });
    for y in 0..100u32 {
        for x in 0..100u32 {
            if (x + y) % 3 == 0 {
                mask.put_pixel(x, y, Rgba { r: 0, g: 0, b: 0, a: ((x * 2 + y) % 256) as u8 });
            }
        }
    }
    let border = solid_image(100, 100, Rgba { r: 0, g: 0, b: 0, a: 0 });
    let piece = slider_captcha::cutout(&working, (150, 60), &mask, &border);
    for y in 0..100u32 {
        for x in 0..100u32 {
            assert_eq!(piece.get_pixel(x, y).a, mask.get_pixel(x, y).a);
        }
    }
}

#[test]
fn border_template_overwrites_only_marked_pixels() {
    let working = solid_image(720, 280, Rgba { r: 10, g: 20, b: 30, a: 255 });
    let mask = solid_image(100, 100, Rgba { r: 0, g: 0, b: 0, a: 255 });
    let mut border = solid_image(100, 100, Rgba { r: 0, g: 0, b: 0, a: 0 });
    border.put_pixel(3, 4, Rgba { r: 200, g: 100, b: 50, a: 255 });
    let piece = slider_captcha::cutout(&working, (100, 0), &mask, &border);
    let decorated = piece.get_pixel(3, 4);
    assert_eq!((decorated.r, decorated.g, decorated.b), (200, 100, 50));
    let untouched = piece.get_pixel(5, 5);
    assert_eq!((untouched.r, untouched.g, untouched.b), (10, 20, 30));
}

#[test]
fn shadow_blends_half_mask_alpha_over_background() {
    let mut working = solid_image(720, 280, Rgba { r: 255, g: 255, b: 255, a: 255 });
    let mask = solid_image(100, 100, Rgba { r: 0, g: 0, b: 0, a: 255 });
    slider_captcha::block((200, 100), &mut working, &mask);
    // black at alpha 127 over white: (255 * 128) / 255 = 128 per channel,
    // alpha 127 + 255 * 128 / 255 = 255.
    let shaded = working.get_pixel(200, 100);
    assert_eq!((shaded.r, shaded.g, shaded.b, shaded.a), (128, 128, 128, 255));
    // Outside the masked region nothing changes.
    let outside = working.get_pixel(10, 10);
    assert_eq!((outside.r, outside.g, outside.b, outside.a), (255, 255, 255, 255));
}

#[test]
fn merge_with_transparent_overlay_returns_base() {
    let a = Rgba { r: 1, g: 2, b: 3, a: 0 };
    let b = Rgba { r: 10, g: 20, b: 30, a: 40 };
    let m = slider_captcha::merge_colors(a, b);
    assert_eq!((m.r, m.g, m.b, m.a), (10, 20, 30, 40));
}

#[test]
fn merge_with_opaque_overlay_returns_overlay_colors() {
    let a = Rgba { r: 7, g: 8, b: 9, a: 255 };
    let b = Rgba { r: 10, g: 20, b: 30, a: 40 };
    let m = slider_captcha::merge_colors(a, b);
    assert_eq!((m.r, m.g, m.b, m.a), (7, 8, 9, 255));
}

#[test]
fn merge_midway_matches_exact_integer_formula() {
    let a = Rgba { r: 100, g: 50, b: 25, a: 128 };
    let b = Rgba { r: 200, g: 100, b: 60, a: 200 };
    let m = slider_captcha::merge_colors(a, b);
    // (100*128 + 200*127)/255 = 149, (50*128 + 100*127)/255 = 74,
    // (25*128 + 60*127)/255 = 42, 128 + 200*127/255 = 227.
    assert_eq!((m.r, m.g, m.b, m.a), (149, 74, 42, 227));
}

#[test]
fn position_respects_margins() {
    for _ in 0..50 {
        let (x, y) = slider_captcha::position();
        assert!((100..620).contains(&x));
        assert!(y < 180);
    }
}

#[test]
fn malformed_input_bytes_are_rejected() {
    let r = slider_captcha::generate(&[0, 1, 2, 3], &square_mask_png(255), &frame_border_png());
    assert!(matches!(r, Err(CaptchaError::ImageError(_))));
}

#[test]
fn wrongly_sized_template_is_rejected() {
    let buffer_data = gradient_jpeg(720, 280);
    let small_mask = {
        let buf = image::RgbaImage::from_pixel(40, 40, image::Rgba([0, 0, 0, 255]));
        let mut cursor = std::io::Cursor::new(Vec::new());
        image::DynamicImage::ImageRgba8(buf)
            .write_to(&mut cursor, image::ImageOutputFormat::Png)
            .unwrap();
        cursor.into_inner()
    };
    let r = slider_captcha::generate(&buffer_data, &small_mask, &frame_border_png());
    assert!(matches!(r, Err(CaptchaError::OptionError)));
}

#[test]
fn exact_size_input_is_not_resized() {
    // original_image keeps a 720x280 input as decoded.
    let buffer_data = gradient_jpeg(720, 280);
    let img = slider_captcha::original_image(&buffer_data).unwrap();
    assert_eq!((img.width, img.height), (720, 280));
}
