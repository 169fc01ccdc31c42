//! Tests for the packed wire buffer.

use rcaptcha::wire;

#[test]
fn packed_buffer_has_header_then_data() {
    let piece: Vec<u8> = vec![9, 8, 7, 6, 5];
    let background: Vec<u8> = vec![1, 2, 3];
    let out = wire::pack_result(258, 70000, &piece, &background);
    assert_eq!(out.len(), 12 + 5 + 3);
    // 258 = 0x102, 70000 = 0x11170.
    assert_eq!(&out[0..4], &[0x02, 0x01, 0, 0]);
    assert_eq!(&out[4..8], &[0x70, 0x11, 0x01, 0]);
    assert_eq!(&out[8..12], &[5, 0, 0, 0]);
    assert_eq!(&out[12..17], &[9, 8, 7, 6, 5]);
    assert_eq!(&out[17..], &[1, 2, 3]);
}

#[test]
fn header_fields_read_back_unchanged() {
    let piece: Vec<u8> = (0..40u8).collect();
    let background: Vec<u8> = (0..60u8).rev().collect();
    let out = wire::pack_result(311, 89, &piece, &background);
    assert_eq!(wire::read_le(&out, 0), 311);
    assert_eq!(wire::read_le(&out, 4), 89);
    assert_eq!(wire::read_le(&out, 8), 40);
    assert_eq!(&out[12..52], piece.as_slice());
    assert_eq!(&out[52..], background.as_slice());
}

#[test]
fn packed_slider_challenge_round_trips() {
    let buf = image::RgbImage::from_fn(720, 280, |x, y| {
        image::Rgb([(x % 251) as u8, (y % 253) as u8, 100])
    });
    let mut cursor = std::io::Cursor::new(Vec::new());
    image::DynamicImage::ImageRgb8(buf)
        .write_to(&mut cursor, image::ImageOutputFormat::Jpeg(85))
        .unwrap();
    let input = cursor.into_inner();

    let mask = image::RgbaImage::from_pixel(100, 100, image::Rgba([0, 0, 0, 255]));
    let mut mask_cursor = std::io::Cursor::new(Vec::new());
    image::DynamicImage::ImageRgba8(mask)
        .write_to(&mut mask_cursor, image::ImageOutputFormat::Png)
        .unwrap();
    let border = image::RgbaImage::from_pixel(100, 100, image::Rgba([0, 0, 0, 0]));
    let mut border_cursor = std::io::Cursor::new(Vec::new());
    image::DynamicImage::ImageRgba8(border)
        .write_to(&mut border_cursor, image::ImageOutputFormat::Png)
        .unwrap();

    let out =
        rcaptcha::slider_captcha(&input, &mask_cursor.into_inner(), &border_cursor.into_inner())
            .unwrap();
    let x = wire::read_le(&out, 0);
    let y = wire::read_le(&out, 4);
    let n = wire::read_le(&out, 8) as usize;
    assert!((50..=309).contains(&x));
    assert!(y <= 89);
    assert!(12 + n <= out.len());

    // The piece bytes are a PNG decoding to the downsampled piece size, and
    // the remainder is a PNG decoding to the downsampled background size.
    let piece = image::load_from_memory(&out[12..12 + n]).unwrap();
    assert_eq!((piece.width(), piece.height()), (50, 50));
    let background = image::load_from_memory(&out[12 + n..]).unwrap();
    assert_eq!((background.width(), background.height()), (360, 140));
}
