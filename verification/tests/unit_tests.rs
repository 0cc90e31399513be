use imagefit::catalog::RepoContent;
use imagefit::config::{deobfuscate_key, ToolsConfig};
use imagefit::error::ResizeError;
use imagefit::format::{detect_format, FormatPreference, ImageFormat};
use imagefit::padding::pad_to_target;
use imagefit::params::{sanitize_hex_color, BgChangeParams, ResizeParams};
use imagefit::quality::calculate_jpeg_quality_v2;

#[test]
fn format_detection_by_magic_bytes() {
    let png = vec![0x89u8, 0x50, 0x4e, 0x47, 0x0d, 0x0a, 0x1a, 0x0a, 1, 2, 3];
    assert_eq!(detect_format(&png), Some(ImageFormat::Png));
    let jpeg = vec![0xffu8, 0xd8, 0xff, 0xe0, 0, 16];
    assert_eq!(detect_format(&jpeg), Some(ImageFormat::Jpeg));
    let gif = b"GIF89a".to_vec();
    assert_eq!(detect_format(&gif), None);
    let short = vec![0x89u8, 0x50];
    assert_eq!(detect_format(&short), None);
    assert_eq!(detect_format(&Vec::new()), None);
}

#[test]
fn format_resolution_honors_preference() {
    assert_eq!(ImageFormat::Png.resolve(FormatPreference::Auto), ImageFormat::Png);
    assert_eq!(ImageFormat::Jpeg.resolve(FormatPreference::Auto), ImageFormat::Jpeg);
    assert_eq!(ImageFormat::Png.resolve(FormatPreference::ForceLossy), ImageFormat::Jpeg);
    assert_eq!(ImageFormat::Jpeg.resolve(FormatPreference::ForceLossless), ImageFormat::Png);
    assert_eq!(ImageFormat::Jpeg.mime_type(), "image/jpeg");
    assert_eq!(ImageFormat::Png.mime_type(), "image/png");
}

#[test]
fn padding_reaches_exact_target_and_keeps_prefix() {
    let mut v = vec![1u8, 2, 3];
    pad_to_target(&mut v, 10);
    assert_eq!(v.len(), 10);
    assert_eq!(&v[..3], &[1, 2, 3]);
    assert!(v[3..].iter().all(|b| *b == 0));
}

#[test]
fn padding_never_truncates() {
    let mut v = vec![9u8; 8];
    pad_to_target(&mut v, 3);
    assert_eq!(v, vec![9u8; 8]);
    let mut w = vec![7u8; 5];
    pad_to_target(&mut w, 5);
    assert_eq!(w, vec![7u8; 5]);
}

#[test]
fn quality_schedule_endpoints() {
    assert_eq!(calculate_jpeg_quality_v2(0, 16, 100, 10), 100);
    assert_eq!(calculate_jpeg_quality_v2(15, 16, 100, 10), 10);
    assert_eq!(calculate_jpeg_quality_v2(20, 16, 100, 10), 10);
    // Degenerate schedules hold at the starting quality.
    assert_eq!(calculate_jpeg_quality_v2(0, 1, 100, 10), 100);
    assert_eq!(calculate_jpeg_quality_v2(5, 1, 100, 10), 100);
    assert_eq!(calculate_jpeg_quality_v2(3, 16, 5, 10), 10);
    // A two-step schedule goes straight from ceiling to floor.
    assert_eq!(calculate_jpeg_quality_v2(0, 2, 100, 10), 100);
    assert_eq!(calculate_jpeg_quality_v2(1, 2, 100, 10), 10);
}

#[test]
fn quality_schedule_is_monotone_and_square_root_shaped() {
    let mut prev = calculate_jpeg_quality_v2(0, 16, 100, 10);
    for i in 1..16 {
        let q = calculate_jpeg_quality_v2(i, 16, 100, 10);
        assert!(q <= prev, "schedule rose at iteration {}", i);
        assert!((10..=100).contains(&q));
        prev = q;
    }
    // The decay front-loads coarse steps: the very first drop is the largest.
    let q1 = calculate_jpeg_quality_v2(1, 16, 100, 10);
    let q2 = calculate_jpeg_quality_v2(2, 16, 100, 10);
    assert!(100 - q1 >= q1 - q2);
}

#[test]
fn quality_schedule_exact_values() {
    // Fixed-point rendering of 100 - 90 * sqrt(i / 15) for a few points.
    assert_eq!(calculate_jpeg_quality_v2(1, 16, 100, 10), 77);
    assert_eq!(calculate_jpeg_quality_v2(8, 16, 100, 10), 35);
}

#[test]
fn resize_params_build_requests() {
    let params = ResizeParams { target_size_kb: 2, output_format: None };
    let req = params.request().unwrap();
    assert_eq!(req.target_bytes, 2048);
    assert_eq!(req.preference, FormatPreference::Auto);

    let params = ResizeParams { target_size_kb: 0, output_format: None };
    assert!(params.request().is_none());

    let params = ResizeParams {
        target_size_kb: 1,
        output_format: Some(String::from("JPEG")),
    };
    assert_eq!(params.request().unwrap().preference, FormatPreference::ForceLossy);

    let params = ResizeParams { target_size_kb: 1, output_format: Some(String::from("jpg")) };
    assert_eq!(params.request().unwrap().preference, FormatPreference::ForceLossy);

    let params = ResizeParams { target_size_kb: 1, output_format: Some(String::from("Png")) };
    assert_eq!(params.request().unwrap().preference, FormatPreference::ForceLossless);

    let params = ResizeParams { target_size_kb: 1, output_format: Some(String::from("webp")) };
    assert_eq!(params.request().unwrap().preference, FormatPreference::Auto);
}

#[test]
fn background_color_sanitizing() {
    assert_eq!(sanitize_hex_color("#aabbcc").unwrap(), "aabbcc");
    assert_eq!(sanitize_hex_color("AABB00").unwrap(), "AABB00");
    assert_eq!(sanitize_hex_color("##ffffff").unwrap(), "ffffff");
    assert!(sanitize_hex_color("#abc").is_none());
    assert!(sanitize_hex_color("zzzzzz").is_none());
    assert!(sanitize_hex_color("").is_none());
    assert!(sanitize_hex_color("#aabbccdd").is_none());

    let params = BgChangeParams { target_color: Some(String::from("#00FF00")) };
    assert_eq!(params.sanitized_color().unwrap(), "00FF00");
    let params = BgChangeParams { target_color: None };
    assert!(params.sanitized_color().is_none());
}

#[test]
fn api_key_deobfuscation() {
    // Shift every character up by one code point.
    assert_eq!(deobfuscate_key("abc").unwrap(), "bcd");
    assert_eq!(deobfuscate_key("4zW").unwrap(), "5{X");
    // Placeholders and empty values are not usable keys.
    assert!(deobfuscate_key("").is_none());
    assert!(deobfuscate_key("INSERT_YOUR_API_KEY_HERE").is_none());
    assert!(deobfuscate_key("XntqB`st`k@ohJ`z012").is_none());
    // The shipped value is the placeholder, so no key is configured.
    assert!(ToolsConfig::get_removebg_api_key().is_none());
}

#[test]
fn markdown_article_filter() {
    let entry = |name: &str, item_type: &str| RepoContent {
        name: String::from(name),
        path: String::from(name),
        item_type: String::from(item_type),
        size: 1000,
        download_url: Some(String::from("https://example.invalid/raw")),
        html_url: String::from("https://example.invalid/blob"),
    };
    assert!(entry("notes.md", "file").is_markdown_article());
    assert!(!entry("README.md", "file").is_markdown_article());
    assert!(!entry("Readme.md", "file").is_markdown_article());
    assert!(!entry("notes.md", "dir").is_markdown_article());
    assert!(!entry("notes.txt", "file").is_markdown_article());
    assert!(!entry("md", "file").is_markdown_article());
    assert!(!entry("readme-notes.md", "file").is_markdown_article());
    assert!(entry("a.md", "file").is_markdown_article());
}

#[test]
fn error_labels() {
    assert_eq!(ResizeError::NoImageSupplied.label(), "no image supplied");
    assert_eq!(ResizeError::UnreadablePayload.label(), "unreadable payload");
    assert_eq!(ResizeError::UnsupportedFormat.label(), "unsupported format");
    assert_eq!(ResizeError::DecodeFailure.label(), "decode failure");
    assert_eq!(ResizeError::EncodeFailure.label(), "encode failure");
    assert_eq!(ResizeError::PaddingInconsistency.label(), "padding inconsistency");
}
