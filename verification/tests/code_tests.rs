//! Tests for the distorted-text code captcha.

use rcaptcha::captcha_error::CaptchaError;
use rcaptcha::code_captcha;

fn be16(v: u16) -> [u8; 2] {
    v.to_be_bytes()
}

fn be32(v: u32) -> [u8; 4] {
    v.to_be_bytes()
}

/// The smallest font the font parser accepts: the three mandatory tables
/// plus horizontal metrics, with one glyph that has no outline, so text
/// draws nothing visible but every call succeeds.
fn minimal_font() -> Vec<u8> {
    let mut head: Vec<u8> = Vec::new();
    head.extend(be32(0x00010000));
    head.extend(be32(0));
    head.extend(be32(0));
    head.extend(be32(0x5F0F3CF5));
    head.extend(be16(0));
    head.extend(be16(1000));
    head.extend([0u8; 8]);
    head.extend([0u8; 8]);
    head.extend(be16(0));
    head.extend(be16(0));
    head.extend(be16(0));
    head.extend(be16(0));
    head.extend(be16(0));
    head.extend(be16(0));
    head.extend(be16(0));
    head.extend(be16(0));
    head.extend(be16(0));
    assert_eq!(head.len(), 54);

    let mut hhea: Vec<u8> = Vec::new();
    hhea.extend(be32(0x00010000));
    hhea.extend(be16(800));
    hhea.extend((-200i16).to_be_bytes());
    hhea.extend(be16(0));
    hhea.extend([0u8; 24]);
    hhea.extend(be16(1));
    assert_eq!(hhea.len(), 36);

    let mut maxp: Vec<u8> = Vec::new();
    maxp.extend(be32(0x00005000));
    maxp.extend(be16(1));

    let mut hmtx: Vec<u8> = Vec::new();
    hmtx.extend(be16(500));
    hmtx.extend(be16(0));

    let tables: [(&[u8; 4], &Vec<u8>); 4] =
        [(b"head", &head), (b"hhea", &hhea), (b"hmtx", &hmtx), (b"maxp", &maxp)];
    let mut font: Vec<u8> = Vec::new();
    font.extend(be32(0x00010000));
    font.extend(be16(4));
    font.extend(be16(0));
    font.extend(be16(0));
    font.extend(be16(0));
    let mut offset: usize = 12 + 16 * 4;
    for (tag, data) in tables.iter() {
        font.extend(tag.iter().copied());
        font.extend(be32(0));
        font.extend(be32(offset as u32));
        font.extend(be32(data.len() as u32));
        offset += data.len();
    }
    for (_, data) in tables.iter() {
        font.extend(data.iter().copied());
    }
    font
}

#[test]
fn captcha() {
    let font = minimal_font();
    let generate_result = code_captcha::generate("AP09".to_string(), &font).unwrap();
    assert_eq!(generate_result.width, 260);
    assert_eq!(generate_result.height, 96);
}

#[test]
fn canvas_size_is_fixed_for_every_length() {
    let font = minimal_font();
    for text in ["A", "AB", "ABC", "AB12", "ABCDEFGH", "ABCDEFGHIJKLMNOP"] {
        let img = code_captcha::generate(text.to_string(), &font).unwrap();
        assert_eq!(img.width, 260);
        assert_eq!(img.height, 96);
        assert_eq!(img.pixels.len(), 260 * 96);
    }
}

#[test]
fn layout_formula_matches_hand_computation() {
    // width(l) = 48*l + (l > 2 ? 15*(l-2) : 0); x = (260 - width)/2 - 5.
    let cases: [(usize, i128); 5] = [
        (1, 101),   // width 48,  (260-48)/2-5   = 101
        (2, 77),    // width 96,  (260-96)/2-5   = 77
        (3, 45),    // width 159, (260-159)/2-5  = 45
        (4, 14),    // width 222, (260-222)/2-5  = 14
        (8, -112),  // width 474, (260-474)/2-5  = -112 with truncation
    ];
    for (l, expected) in cases.iter() {
        let (x, y, step) = code_captcha::layout(*l);
        assert_eq!(x, *expected);
        assert_eq!(y, 17);
        assert_eq!(step, 63);
    }
}

#[test]
fn layout_is_defined_for_empty_text() {
    let (x, y, step) = code_captcha::layout(0);
    assert_eq!(x, 125);
    assert_eq!(y, 17);
    assert_eq!(step, 63);
}

#[test]
fn palette_has_twelve_distinct_colors() {
    let mut seen: Vec<(u8, u8, u8)> = Vec::new();
    for i in 0..12u32 {
        let c = code_captcha::palette(i);
        assert_eq!(c.a, 255);
        assert!(!seen.contains(&(c.r, c.g, c.b)));
        seen.push((c.r, c.g, c.b));
    }
    assert_eq!(code_captcha::palette(0).g, 135);
    assert_eq!(code_captcha::palette(11).b, 102);
}

#[test]
fn unparsable_font_bytes_are_rejected() {
    let r = code_captcha::generate("AB12".to_string(), &[1, 2, 3, 4]);
    assert!(matches!(r, Err(CaptchaError::OptionError)));
}

#[test]
fn code_captcha_jpeg_decodes_to_fixed_size() {
    let font = minimal_font();
    let bytes = rcaptcha::code_captcha("AB12".to_string(), &font).unwrap();
    let decoded = image::load_from_memory(&bytes).unwrap();
    assert_eq!(decoded.width(), 260);
    assert_eq!(decoded.height(), 96);
}

#[test]
fn code_captcha_canvas_is_not_blank() {
    // The circles and curves are drawn from a palette without white, so some
    // pixel must stray well away from the white background.
    let font = minimal_font();
    let bytes = rcaptcha::code_captcha("AB12".to_string(), &font).unwrap();
    let decoded = image::load_from_memory(&bytes).unwrap().to_rgb8();
    let strayed = decoded.pixels().any(|p| {
        (p[0] as i32) + (p[1] as i32) + (p[2] as i32) < 600
    });
    assert!(strayed);
}
