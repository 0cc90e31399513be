use imagefit::error::ResizeError;
use imagefit::format::{FormatPreference, ImageFormat};
use imagefit::pipeline::{resize_image, EncodeRequest};

fn hash_color(x: u32, y: u32) -> [u8; 4] {
    let mut v = x.wrapping_mul(2654435761).wrapping_add(y.wrapping_mul(40503)).wrapping_add(97);
    v ^= v >> 13;
    v = v.wrapping_mul(2246822519);
    v ^= v >> 11;
    [(v & 0xff) as u8, ((v >> 8) & 0xff) as u8, ((v >> 16) & 0xff) as u8, 255]
}

fn png_from<F: Fn(u32, u32) -> [u8; 4]>(w: u32, h: u32, f: F) -> Vec<u8> {
    let mut img = image::RgbaImage::new(w, h);
    for y in 0..h {
        for x in 0..w {
            img.put_pixel(x, y, image::Rgba(f(x, y)));
        }
    }
    let mut out = Vec::new();
    img.write_to(&mut std::io::Cursor::new(&mut out), image::ImageFormat::Png).unwrap();
    out
}

fn jpeg_from<F: Fn(u32, u32) -> [u8; 3]>(w: u32, h: u32, f: F) -> Vec<u8> {
    let mut img = image::RgbImage::new(w, h);
    for y in 0..h {
        for x in 0..w {
            img.put_pixel(x, y, image::Rgb(f(x, y)));
        }
    }
    let mut out = Vec::new();
    img.write_to(&mut std::io::Cursor::new(&mut out), image::ImageFormat::Jpeg).unwrap();
    out
}

#[test]
fn round_trip_keeps_dimensions_png() {
    let data = png_from(20, 15, |x, y| [(x * 9) as u8, (y * 11) as u8, 77, 255]);
    let request = EncodeRequest { target_bytes: 512 * 1024, preference: FormatPreference::Auto };
    let out = resize_image(&data, &request).unwrap();
    assert_eq!(out.format, ImageFormat::Png);
    let decoded = image::load_from_memory(&out.bytes).unwrap();
    assert_eq!(decoded.width(), 20);
    assert_eq!(decoded.height(), 15);
}

#[test]
fn round_trip_keeps_dimensions_jpeg() {
    let data = jpeg_from(20, 15, |x, y| [(x * 9) as u8, (y * 11) as u8, 77]);
    let request = EncodeRequest { target_bytes: 512 * 1024, preference: FormatPreference::Auto };
    let out = resize_image(&data, &request).unwrap();
    assert_eq!(out.format, ImageFormat::Jpeg);
    // The very first attempt, at the quality ceiling, fits such a generous
    // budget, so the search accepts it without lowering the quality.
    assert_eq!(out.quality, Some(100));
    assert!(!out.budget_unreachable);
    assert_eq!(out.bytes.len(), 512 * 1024);
    let decoded = image::load_from_memory(&out.bytes).unwrap();
    assert_eq!(decoded.width(), 20);
    assert_eq!(decoded.height(), 15);
}

#[test]
fn small_image_padded_to_exact_target() {
    // A 10x10 image against a 100 KB budget: the baseline is trivially under
    // budget and comes back padded to exactly 102400 bytes, with the codec
    // stream intact as a prefix.
    let data = png_from(10, 10, |x, y| [(x * 20) as u8, (y * 20) as u8, 0, 255]);
    let request = EncodeRequest { target_bytes: 100 * 1024, preference: FormatPreference::Auto };
    let out = resize_image(&data, &request).unwrap();
    assert_eq!(out.bytes.len(), 102400);
    assert!(!out.budget_unreachable);
    assert!(!out.quantization_degraded);
    assert_eq!(out.format.mime_type(), "image/png");
    // The PNG signature still opens the stream and the stream still decodes.
    assert_eq!(&out.bytes[..8], &[0x89, 0x50, 0x4e, 0x47, 0x0d, 0x0a, 0x1a, 0x0a]);
    let decoded = image::load_from_memory(&out.bytes).unwrap();
    assert_eq!((decoded.width(), decoded.height()), (10, 10));
    // The padding is all zero bytes.
    assert!(out.bytes[out.bytes.len() - 16..].iter().all(|b| *b == 0));
}

#[test]
fn palette_limited_png_against_one_kilobyte_budget() {
    // A 100x100 opaque PNG built from at most 256 distinct colors in small
    // blocks: its lossless baseline far exceeds 1024 bytes, so the
    // quantizer runs (and cannot fail on a palette-sized image). If its
    // result fits the budget the response is padded to exactly 1024 bytes;
    // otherwise the closest over-budget result comes back flagged, unpadded.
    let data = png_from(100, 100, |x, y| {
        let i = u32::from(hash_color(x / 2, y / 2)[0]);
        [i as u8, (i * 91 % 256) as u8, (i * 173 % 256) as u8, 255]
    });
    assert!(data.len() > 1024);
    let request = EncodeRequest { target_bytes: 1024, preference: FormatPreference::Auto };
    let out = resize_image(&data, &request).unwrap();
    assert_eq!(out.format.mime_type(), "image/png");
    assert!(!out.quantization_degraded);
    if out.budget_unreachable {
        assert!(out.bytes.len() > 1024);
    } else {
        assert_eq!(out.bytes.len(), 1024);
    }
}

#[test]
fn unquantizable_noise_degrades_to_baseline() {
    // Pure noise cannot be reduced to 256 colors within the configured
    // quality window, so quantization aborts internally; the request still
    // succeeds on the lossless baseline, with the degradation reported.
    let data = png_from(100, 100, hash_color);
    assert!(data.len() > 1024);
    let request = EncodeRequest { target_bytes: 1024, preference: FormatPreference::Auto };
    let out = resize_image(&data, &request).unwrap();
    assert!(out.quantization_degraded);
    assert!(out.budget_unreachable);
    assert!(out.bytes.len() > 1024);
    let decoded = image::load_from_memory(&out.bytes).unwrap();
    assert_eq!((decoded.width(), decoded.height()), (100, 100));
}

#[test]
fn quantized_output_still_decodes_at_size() {
    // Force the quantizer to run and check that whatever candidate wins
    // still decodes to the original dimensions.
    let data = png_from(64, 64, |x, y| {
        let i = u32::from(hash_color(x / 2, y / 2)[0]);
        [i as u8, (i * 91 % 256) as u8, (i * 173 % 256) as u8, 255]
    });
    let request = EncodeRequest { target_bytes: 1024, preference: FormatPreference::Auto };
    let out = resize_image(&data, &request).unwrap();
    let decoded = image::load_from_memory(&out.bytes).unwrap();
    assert_eq!((decoded.width(), decoded.height()), (64, 64));
}

#[test]
fn alpha_image_to_lossy_never_fails_and_is_opaque() {
    // An alpha-carrying image forced to the lossy codec: the conversion
    // succeeds, reports the dropped channel, and the decoded result is
    // fully opaque at every pixel.
    let data = png_from(8, 8, |x, y| [(x * 30) as u8, (y * 30) as u8, 9, (x * 32) as u8]);
    let request = EncodeRequest {
        target_bytes: 64 * 1024,
        preference: FormatPreference::ForceLossy,
    };
    let out = resize_image(&data, &request).unwrap();
    assert_eq!(out.format, ImageFormat::Jpeg);
    assert!(out.alpha_discarded);
    assert!(out.quality.is_some());
    let decoded = image::load_from_memory(&out.bytes).unwrap().to_rgba8();
    assert!(decoded.pixels().all(|p| p[3] == 255));
}

#[test]
fn opaque_png_to_lossy_reports_no_conversion() {
    let data = png_from(8, 8, |x, y| [(x * 30) as u8, (y * 30) as u8, 9, 255]);
    let request = EncodeRequest {
        target_bytes: 64 * 1024,
        preference: FormatPreference::ForceLossy,
    };
    let out = resize_image(&data, &request).unwrap();
    assert!(!out.alpha_discarded);
}

#[test]
fn same_input_gives_same_output_bytes() {
    // The schedule is a pure function of the iteration index and the
    // encoders are deterministic, so a fixed input and target give the same
    // bytes on every run.
    let data = jpeg_from(40, 40, |x, y| hash_color(x, y)[..3].try_into().unwrap());
    let request = EncodeRequest { target_bytes: 700, preference: FormatPreference::Auto };
    let first = resize_image(&data, &request).unwrap();
    let second = resize_image(&data, &request).unwrap();
    assert_eq!(first.bytes, second.bytes);
    assert_eq!(first.quality, second.quality);
    assert_eq!(first.budget_unreachable, second.budget_unreachable);
}

#[test]
fn lossy_search_meets_budget_or_flags_it() {
    let data = jpeg_from(60, 60, |x, y| hash_color(x, y)[..3].try_into().unwrap());
    let request = EncodeRequest { target_bytes: 2048, preference: FormatPreference::Auto };
    let out = resize_image(&data, &request).unwrap();
    assert_eq!(out.format, ImageFormat::Jpeg);
    if out.budget_unreachable {
        assert!(out.bytes.len() > 2048);
    } else {
        assert_eq!(out.bytes.len(), 2048);
    }
    let q = out.quality.unwrap();
    assert!((10..=100).contains(&q));
}

#[test]
fn unsupported_format_is_rejected() {
    let gif = b"GIF89a rest of a gif stream".to_vec();
    let request = EncodeRequest { target_bytes: 1024, preference: FormatPreference::Auto };
    assert_eq!(resize_image(&gif, &request).unwrap_err(), ResizeError::UnsupportedFormat);
    let empty: Vec<u8> = Vec::new();
    assert_eq!(resize_image(&empty, &request).unwrap_err(), ResizeError::UnsupportedFormat);
}

#[test]
fn corrupt_payload_is_a_decode_failure() {
    let mut bad = vec![0x89u8, 0x50, 0x4e, 0x47, 0x0d, 0x0a, 0x1a, 0x0a];
    bad.extend_from_slice(&[0u8; 32]);
    let request = EncodeRequest { target_bytes: 1024, preference: FormatPreference::Auto };
    assert_eq!(resize_image(&bad, &request).unwrap_err(), ResizeError::DecodeFailure);
}

#[test]
fn format_preference_overrides_input_class() {
    let data = png_from(12, 12, |x, y| [(x + y) as u8, 0, 200, 255]);
    let request = EncodeRequest {
        target_bytes: 64 * 1024,
        preference: FormatPreference::ForceLossy,
    };
    let out = resize_image(&data, &request).unwrap();
    assert_eq!(out.format, ImageFormat::Jpeg);
    assert_eq!(&out.bytes[..3], &[0xff, 0xd8, 0xff]);

    let jpeg = jpeg_from(12, 12, |x, y| [(x + y) as u8, 0, 200]);
    let request = EncodeRequest {
        target_bytes: 64 * 1024,
        preference: FormatPreference::ForceLossless,
    };
    let out = resize_image(&jpeg, &request).unwrap();
    assert_eq!(out.format, ImageFormat::Png);
    assert_eq!(&out.bytes[..8], &[0x89, 0x50, 0x4e, 0x47, 0x0d, 0x0a, 0x1a, 0x0a]);
}
