use svgager::{
    apply_replacements, convert_svg_to_image, demultiply, encode_image, parse_format, parse_hex_color,
    plan_surface, resolve_dimensions, rgba_to_rgb, ConvertError, IntrinsicSize, OutputFormat,
    SurfacePlan,
};

fn size(w: f32, h: f32) -> IntrinsicSize {
    IntrinsicSize::from_bits(w.to_bits(), h.to_bits()).unwrap()
}

fn subs(pairs: &[(&str, &str)]) -> Vec<(String, String)> {
    pairs.iter().map(|(a, b)| (a.to_string(), b.to_string())).collect()
}

fn red_rect(w: u32, h: u32) -> String {
    format!(
        "<svg xmlns=\"http://www.w3.org/2000/svg\" width=\"{w}\" height=\"{h}\"><rect width=\"{w}\" height=\"{h}\" fill=\"#FF0000\"/></svg>"
    )
}

fn empty_svg(w: u32, h: u32) -> String {
    format!("<svg xmlns=\"http://www.w3.org/2000/svg\" width=\"{w}\" height=\"{h}\"></svg>")
}

fn convert(svg: &str, format: &str, w: Option<u32>, h: Option<u32>, bg: Option<&str>) -> Result<Vec<u8>, ConvertError> {
    convert_svg_to_image(svg.to_string(), format.to_string(), w, h, bg.map(|s| s.to_string()), vec![])
}

#[test]
fn dimension_inference_from_width() {
    assert_eq!(resolve_dimensions(Some(200), None, size(100.0, 50.0)), (200, 100));
}

#[test]
fn dimension_inference_from_intrinsic_size() {
    assert_eq!(resolve_dimensions(None, None, size(100.0, 50.0)), (100, 50));
}

#[test]
fn dimension_inference_from_height() {
    assert_eq!(resolve_dimensions(None, Some(25), size(100.0, 50.0)), (50, 25));
}

#[test]
fn dimension_both_given_ignore_aspect() {
    assert_eq!(resolve_dimensions(Some(10), Some(300), size(100.0, 50.0)), (10, 300));
}

#[test]
fn dimension_truncates_toward_zero() {
    assert_eq!(resolve_dimensions(None, None, size(100.75, 50.25)), (100, 50));
    assert_eq!(resolve_dimensions(Some(2), None, size(3.0, 1.0)), (2, 0));
    assert_eq!(resolve_dimensions(Some(100), None, size(3.0, 1.0)), (100, 33));
}

#[test]
fn dimension_saturates_at_u32_max() {
    assert_eq!(resolve_dimensions(Some(1000), None, size(1.0e-20, 1.0e20)), (1000, u32::MAX));
    assert_eq!(resolve_dimensions(None, None, size(1.0e30, 2.0)), (u32::MAX, 2));
}

#[test]
fn intrinsic_size_rejects_non_positive_or_non_finite() {
    assert!(IntrinsicSize::from_bits(0.0f32.to_bits(), 1.0f32.to_bits()).is_none());
    assert!(IntrinsicSize::from_bits((-1.0f32).to_bits(), 1.0f32.to_bits()).is_none());
    assert!(IntrinsicSize::from_bits(1.0f32.to_bits(), f32::INFINITY.to_bits()).is_none());
    assert!(IntrinsicSize::from_bits(f32::NAN.to_bits(), 1.0f32.to_bits()).is_none());
    assert!(IntrinsicSize::from_bits(1.0f32.to_bits(), 2.5f32.to_bits()).is_some());
}

#[test]
fn substitution_ordering_is_sequential() {
    assert_eq!(apply_replacements("A B", &subs(&[("A", "B"), ("B", "C")])), "C C");
}

#[test]
fn substitution_replaces_all_non_overlapping() {
    assert_eq!(apply_replacements("aaa", &subs(&[("aa", "b")])), "ba");
    assert_eq!(apply_replacements("{{c}} and {{c}}", &subs(&[("{{c}}", "red")])), "red and red");
    assert_eq!(apply_replacements("abc", &subs(&[])), "abc");
}

#[test]
fn substitution_with_empty_search() {
    assert_eq!(apply_replacements("ab", &subs(&[("", "x")])), "ab".replace("", "x"));
    assert_eq!(apply_replacements("", &subs(&[("", "x")])), "x");
}

#[test]
fn color_parsing_with_and_without_hash() {
    assert_eq!(parse_hex_color("#FF0000").unwrap(), (255, 0, 0));
    assert_eq!(parse_hex_color("FF0000").unwrap(), (255, 0, 0));
    assert_eq!(parse_hex_color("#0a0B0c").unwrap(), (10, 11, 12));
}

#[test]
fn color_parsing_rejects_bad_input() {
    for bad in ["ZZ0000", "12345", "##FF0000", "+F0000", "", "#", "FF00001", "éé0000"] {
        match parse_hex_color(bad) {
            Err(ConvertError::InvalidColor(v)) => assert_eq!(v, bad),
            other => panic!("{bad}: {:?}", other),
        }
    }
}

#[test]
fn format_names_are_case_insensitive() {
    assert_eq!(parse_format("PNG").unwrap(), OutputFormat::Png);
    assert_eq!(parse_format("Jpg").unwrap(), OutputFormat::Jpeg);
    assert_eq!(parse_format("jpeg").unwrap(), OutputFormat::Jpeg);
    assert_eq!(parse_format("GIF").unwrap(), OutputFormat::Gif);
    assert_eq!(parse_format("WebP").unwrap(), OutputFormat::WebP);
}

#[test]
fn unsupported_format_names_the_value() {
    match parse_format("bmp") {
        Err(ConvertError::UnsupportedFormat(v)) => assert_eq!(v, "bmp"),
        other => panic!("{:?}", other),
    }
}

#[test]
fn unsupported_format_fails_before_any_work() {
    // Even text that would fail to parse, or a size that cannot be allocated,
    // reports the format first.
    match convert("not svg", "bmp", Some(0), None, Some("ZZ")) {
        Err(e) => {
            assert!(matches!(e, ConvertError::UnsupportedFormat(ref v) if v == "bmp"));
            assert_eq!(e.message(), "Unsupported format: bmp");
        }
        Ok(_) => panic!("bmp accepted"),
    }
}

#[test]
fn alpha_is_stripped_every_fourth_byte() {
    assert_eq!(rgba_to_rgb(&[1, 2, 3, 4, 5, 6, 7, 8]), vec![1, 2, 3, 5, 6, 7]);
    assert_eq!(rgba_to_rgb(&[]), Vec::<u8>::new());
}

#[test]
fn encode_rejects_buffer_of_wrong_shape() {
    match encode_image(&[0u8; 15], 2, 2, OutputFormat::Png) {
        Err(ConvertError::BufferShape(n)) => assert_eq!(n, 15),
        other => panic!("{:?}", other),
    }
}

#[test]
fn encode_png_of_raw_pixels_decodes_back() {
    let data: Vec<u8> = vec![10, 20, 30, 255, 40, 50, 60, 128];
    let bytes = encode_image(&data, 2, 1, OutputFormat::Png).unwrap();
    let img = image::load_from_memory(&bytes).unwrap().to_rgba8();
    assert_eq!(img.into_raw(), data);
}

#[test]
fn plan_rejects_zero_size() {
    match plan_surface(Some(0), Some(5), &None, size(10.0, 10.0), OutputFormat::Png) {
        Err(ConvertError::SurfaceAllocation(w, h)) => assert_eq!((w, h), (0, 5)),
        other => panic!("{:?}", other),
    }
}

#[test]
fn plan_rejects_excessive_size() {
    assert!(matches!(
        plan_surface(Some(500_000_000), Some(1), &None, size(10.0, 10.0), OutputFormat::Png),
        Err(ConvertError::SurfaceAllocation(500_000_000, 1))
    ));
}

#[test]
fn plan_png_has_no_background() {
    let p = plan_surface(None, None, &Some("nonsense".to_string()), size(4.0, 2.0), OutputFormat::Png).unwrap();
    assert_eq!(p, SurfacePlan { width: 4, height: 2, background: None });
}

#[test]
fn plan_lossy_defaults_to_white() {
    for f in [OutputFormat::Jpeg, OutputFormat::Gif, OutputFormat::WebP] {
        let p = plan_surface(None, Some(4), &None, size(4.0, 2.0), f).unwrap();
        assert_eq!(p, SurfacePlan { width: 8, height: 4, background: Some((255, 255, 255)) });
    }
}

#[test]
fn plan_uses_given_background() {
    let p = plan_surface(None, None, &Some("#102030".to_string()), size(4.0, 2.0), OutputFormat::Jpeg).unwrap();
    assert_eq!(p.background, Some((16, 32, 48)));
}

#[test]
fn plan_rejects_invalid_background_for_lossy() {
    match plan_surface(None, None, &Some("ZZ0000".to_string()), size(4.0, 2.0), OutputFormat::Gif) {
        Err(ConvertError::InvalidColor(v)) => assert_eq!(v, "ZZ0000"),
        other => panic!("{:?}", other),
    }
}

#[test]
fn png_round_trip_recovers_pixels() {
    let bytes = convert(&red_rect(4, 2), "png", None, None, None).unwrap();
    let img = image::load_from_memory_with_format(&bytes, image::ImageFormat::Png).unwrap().to_rgba8();
    assert_eq!(img.dimensions(), (4, 2));
    for p in img.pixels() {
        assert_eq!(p.0, [255, 0, 0, 255]);
    }
}

#[test]
fn png_of_empty_content_is_transparent() {
    let bytes = convert(&empty_svg(3, 3), "PNG", None, None, Some("000000")).unwrap();
    let img = image::load_from_memory(&bytes).unwrap().to_rgba8();
    for p in img.pixels() {
        assert_eq!(p.0, [0, 0, 0, 0]);
    }
}

#[test]
fn jpeg_of_transparent_content_is_opaque_white() {
    let bytes = convert(&empty_svg(8, 8), "jpg", None, None, None).unwrap();
    let img = image::load_from_memory_with_format(&bytes, image::ImageFormat::Jpeg).unwrap().to_rgb8();
    assert_eq!(img.dimensions(), (8, 8));
    for p in img.pixels() {
        for c in p.0 {
            assert!(c >= 250, "{:?}", p.0);
        }
    }
}

#[test]
fn gif_uses_background_color() {
    let bytes = convert(&empty_svg(4, 4), "gif", None, None, Some("#0000FF")).unwrap();
    let img = image::load_from_memory_with_format(&bytes, image::ImageFormat::Gif).unwrap().to_rgba8();
    assert_eq!(img.dimensions(), (4, 4));
    for p in img.pixels() {
        assert_eq!(p.0, [0, 0, 255, 255]);
    }
}

#[test]
fn webp_output_decodes_with_requested_size() {
    let bytes = convert(&red_rect(10, 10), "webp", Some(20), None, None).unwrap();
    let img = image::load_from_memory_with_format(&bytes, image::ImageFormat::WebP).unwrap().to_rgba8();
    assert_eq!(img.dimensions(), (20, 20));
    assert_eq!(img.get_pixel(10, 10).0, [255, 0, 0, 255]);
}

#[test]
fn replacements_apply_before_parsing() {
    let svg = "<svg xmlns=\"http://www.w3.org/2000/svg\" width=\"2\" height=\"2\"><rect width=\"2\" height=\"2\" fill=\"COLOR\"/></svg>";
    let bytes = convert_svg_to_image(
        svg.to_string(),
        "png".to_string(),
        None,
        None,
        None,
        subs(&[("COLOR", "#00FF00")]),
    )
    .unwrap();
    let img = image::load_from_memory(&bytes).unwrap().to_rgba8();
    assert_eq!(img.get_pixel(0, 0).0, [0, 255, 0, 255]);
}

#[test]
fn png_conversion_is_idempotent() {
    let a = convert(&red_rect(5, 3), "png", Some(12), None, None).unwrap();
    let b = convert(&red_rect(5, 3), "png", Some(12), None, None).unwrap();
    assert_eq!(a, b);
}

#[test]
fn parse_error_is_reported() {
    match convert("<svg", "png", None, None, None) {
        Err(e @ ConvertError::Parse(_)) => assert!(e.message().starts_with("Failed to parse SVG: ")),
        other => panic!("{:?}", other.map(|v| v.len())),
    }
}

#[test]
fn zero_size_request_fails_allocation() {
    assert!(matches!(
        convert(&red_rect(4, 4), "png", Some(0), Some(0), None),
        Err(ConvertError::SurfaceAllocation(0, 0))
    ));
}

#[test]
fn invalid_background_fails_for_jpeg_only() {
    assert!(matches!(
        convert(&red_rect(4, 4), "jpeg", None, None, Some("12345")),
        Err(ConvertError::InvalidColor(_))
    ));
    assert!(convert(&red_rect(4, 4), "png", None, None, Some("12345")).is_ok());
}

#[test]
fn error_messages_name_the_value() {
    assert_eq!(
        ConvertError::InvalidColor("xyz".to_string()).message(),
        "Invalid hex color: must be 6 hex digits (RRGGBB), got xyz"
    );
    assert_eq!(ConvertError::SurfaceAllocation(0, 1907).message(), "Failed to create pixmap of 0x1907");
    assert_eq!(ConvertError::BufferShape(30).message(), "Failed to create image buffer from 30 bytes");
    assert_eq!(
        ConvertError::Encoding(OutputFormat::WebP, "boom".to_string()).message(),
        "Failed to encode WebP: boom"
    );
}

#[test]
fn png_output_has_straight_alpha() {
    let svg = "<svg xmlns='http://www.w3.org/2000/svg' width='2' height='1'><rect width='1' height='1' fill='#FF0000' fill-opacity='0.5'/></svg>";
    let bytes = convert(svg, "png", None, None, Some("00FF00")).unwrap();
    let img = image::load_from_memory(&bytes).unwrap().to_rgba8();
    assert_eq!(img.get_pixel(1, 0).0, [0, 0, 0, 0]);
    let p = img.get_pixel(0, 0).0;
    assert!(p[3] == 127 || p[3] == 128, "{:?}", p);
    assert!(p[0] >= 254 && p[1] == 0 && p[2] == 0, "{:?}", p);
}

#[test]
fn demultiply_restores_straight_channels() {
    assert_eq!(demultiply(&[128, 64, 0, 128, 10, 20, 30, 255, 9, 9, 9, 0]), vec![255, 128, 0, 128, 10, 20, 30, 255, 0, 0, 0, 0]);
    assert_eq!(demultiply(&[5, 6, 7]), vec![5, 6, 7]);
}

#[test]
fn jpeg_buffer_mismatch_is_an_encoding_error() {
    match encode_image(&[], 1, 1, OutputFormat::Jpeg) {
        Err(ConvertError::Encoding(OutputFormat::Jpeg, _)) => {}
        other => panic!("{:?}", other),
    }
}

#[test]
fn encoders_succeed_within_limits() {
    let data = vec![200u8; 4 * 3 * 2];
    for f in [OutputFormat::Png, OutputFormat::Jpeg, OutputFormat::Gif, OutputFormat::WebP] {
        let bytes = encode_image(&data, 3, 2, f).unwrap();
        let img = image::load_from_memory(&bytes).unwrap();
        assert_eq!((img.width(), img.height()), (3, 2));
    }
}

#[test]
fn jpeg_ignores_alpha_bytes() {
    let a = vec![10u8, 20, 30, 255, 40, 50, 60, 0];
    let b = vec![10u8, 20, 30, 0, 40, 50, 60, 77];
    assert_eq!(encode_image(&a, 2, 1, OutputFormat::Jpeg).unwrap(), encode_image(&b, 2, 1, OutputFormat::Jpeg).unwrap());
}

#[test]
fn codecs_refuse_sizes_beyond_their_limits() {
    let wide = vec![0u8; 4 * 16385];
    assert!(matches!(encode_image(&wide, 16385, 1, OutputFormat::WebP), Err(ConvertError::Encoding(OutputFormat::WebP, _))));
    let wider = vec![0u8; 4 * 70000];
    assert!(matches!(encode_image(&wider, 70000, 1, OutputFormat::Jpeg), Err(ConvertError::Encoding(OutputFormat::Jpeg, _))));
    assert!(encode_image(&wider, 70000, 1, OutputFormat::Png).is_ok());
}
