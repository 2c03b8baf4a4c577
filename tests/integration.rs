use qr_service::encode::encode_text;
use qr_service::style::{parse_ec_level, parse_hex_color, EcLevel, QrOptions, QrStyle};
use qr_service::raster::generate_png;
use qr_service::svg::generate_svg;
use qr_service::templates::{vcard_data, wifi_data};

fn decode_png_qr(png: &[u8]) -> Option<String> {
    let img = image::load_from_memory(png).ok()?.to_luma8();
    let (w, h) = img.dimensions();
    let mut prepared = rqrr::PreparedImage::prepare_from_greyscale(w as usize, h as usize, |x, y| {
        img.get_pixel(x as u32, y as u32).0[0]
    });
    let grids = prepared.detect_grids();
    let grid = grids.into_iter().next()?;
    grid.decode().ok().map(|(_meta, content)| content)
}

fn options(size: u32, ec: EcLevel, style: QrStyle) -> QrOptions {
    QrOptions { size, fg_color: [0, 0, 0, 255], bg_color: [255, 255, 255, 255], error_correction: ec, style }
}

#[test]
fn test_health_endpoint() {
    let code = encode_text("Hello, World!", EcLevel::M).unwrap();
    assert!(code.side > 0);
}

#[test]
fn test_hex_color_parsing() {
    let white = parse_hex_color("#FFFFFF").unwrap();
    assert_eq!(white, [255, 255, 255, 255]);

    let black = parse_hex_color("#000000").unwrap();
    assert_eq!(black, [0, 0, 0, 255]);

    let with_alpha = parse_hex_color("#FF000080").unwrap();
    assert_eq!(with_alpha, [255, 0, 0, 128]);

    assert!(parse_hex_color("#GGG").is_err());
    assert!(parse_hex_color("#12").is_err());
}

#[test]
fn test_qr_png_generation() {
    let options = options(256, EcLevel::M, QrStyle::Square);
    let result = generate_png("https://example.com", &options);
    assert!(result.is_ok());
    let data = result.unwrap();
    assert_eq!(&data[0..4], &[0x89, 0x50, 0x4E, 0x47]);
    assert!(data.len() > 100);
}

#[test]
fn test_qr_svg_generation() {
    let options = options(256, EcLevel::M, QrStyle::Square);
    let result = generate_svg("https://example.com", &options);
    assert!(result.is_ok());
    let svg = result.unwrap();
    assert!(svg.contains("<svg"));
    assert!(svg.contains("</svg>"));
    assert!(svg.contains("<rect"));
}

#[test]
fn test_wifi_template_data() {
    let data = wifi_data("MyNetwork", "secret123", "WPA2", false);
    assert_eq!(data, "WIFI:T:WPA2;S:MyNetwork;P:secret123;H:false;;");
}

#[test]
fn test_wifi_template_hidden() {
    let data = wifi_data("HiddenNet", "pass", "WPA2", true);
    assert!(data.contains("H:true"));
}

#[test]
fn test_wifi_template_escaping() {
    let data = wifi_data("My;Network", "pass;word", "WPA2", false);
    assert!(data.contains("S:My\\;Network"));
    assert!(data.contains("P:pass\\;word"));
}

#[test]
fn test_vcard_generation() {
    let data = vcard_data("John Doe", Some("john@example.com"), Some("+1234567890"), None, None, None);
    assert!(data.contains("BEGIN:VCARD"));
    assert!(data.contains("FN:John Doe"));
    assert!(data.contains("EMAIL:john@example.com"));
    assert!(data.contains("TEL:+1234567890"));
    assert!(data.contains("END:VCARD"));
}

#[test]
fn test_vcard_minimal() {
    let data = vcard_data("Jane", None, None, None, None, None);
    assert!(data.contains("FN:Jane"));
    assert!(!data.contains("EMAIL:"));
}

#[test]
fn test_roundtrip_generate_decode() {
    let test_data = "https://humans-not-required.github.io";
    let options = options(512, EcLevel::H, QrStyle::Square);
    let png_data = generate_png(test_data, &options).unwrap();
    let content = decode_png_qr(&png_data);
    assert!(content.is_some(), "Should detect at least one QR grid");
    assert_eq!(content.unwrap(), test_data);
}

#[test]
fn test_error_correction_levels() {
    for level in &["L", "M", "Q", "H"] {
        let ec = parse_ec_level(level);
        let options = options(128, ec, QrStyle::Square);
        assert!(generate_png("test", &options).is_ok());
    }
}

#[test]
fn test_dots_style_png() {
    let options = options(256, EcLevel::M, QrStyle::Dots);
    let result = generate_png("https://example.com", &options);
    assert!(result.is_ok());
    let data = result.unwrap();
    assert_eq!(&data[0..4], &[0x89, 0x50, 0x4E, 0x47]);
}

#[test]
fn test_rounded_style_png() {
    let options = options(256, EcLevel::M, QrStyle::Rounded);
    let result = generate_png("https://example.com", &options);
    assert!(result.is_ok());
    let data = result.unwrap();
    assert_eq!(&data[0..4], &[0x89, 0x50, 0x4E, 0x47]);
}

#[test]
fn test_dots_style_svg() {
    let options = options(256, EcLevel::M, QrStyle::Dots);
    let svg = generate_svg("https://example.com", &options).unwrap();
    assert!(svg.contains("<circle"), "Dots style SVG should use <circle> elements");
    assert!(
        !svg.contains("<rect x="),
        "Dots style SVG should not use module <rect> elements (except background)"
    );
}

#[test]
fn test_rounded_style_svg() {
    let options = options(256, EcLevel::M, QrStyle::Rounded);
    let svg = generate_svg("https://example.com", &options).unwrap();
    assert!(svg.contains("<svg"));
    assert!(
        svg.contains("<path") || svg.contains("<rect"),
        "Rounded style SVG should have path or rect elements"
    );
}

#[test]
fn test_dots_style_roundtrip() {
    let test_data = "DOTS_TEST";
    let options = options(1024, EcLevel::H, QrStyle::Dots);
    let png_data = generate_png(test_data, &options).unwrap();
    let content = decode_png_qr(&png_data);
    assert!(content.is_some(), "Dots style QR should still be detectable");
    assert_eq!(content.unwrap(), test_data);
}

#[test]
fn test_rounded_style_roundtrip() {
    let test_data = "ROUNDED_TEST";
    let options = options(512, EcLevel::H, QrStyle::Rounded);
    let png_data = generate_png(test_data, &options).unwrap();
    let content = decode_png_qr(&png_data);
    assert!(content.is_some(), "Rounded style QR should still be detectable");
    assert_eq!(content.unwrap(), test_data);
}

#[test]
fn test_style_from_str() {
    assert_eq!(QrStyle::parse("square"), QrStyle::Square);
    assert_eq!(QrStyle::parse("rounded"), QrStyle::Rounded);
    assert_eq!(QrStyle::parse("dots"), QrStyle::Dots);
    assert_eq!(QrStyle::parse("DOTS"), QrStyle::Dots);
    assert_eq!(QrStyle::parse("unknown"), QrStyle::Square);
}

#[test]
fn wifi_escapes_commas_and_templates_are_exact() {
    assert_eq!(wifi_data("a,b", "", "nopass", true), "WIFI:T:nopass;S:a\\,b;P:;H:true;;");
    assert_eq!(
        vcard_data("A", Some("e"), Some("t"), Some("o"), Some("ti"), Some("u")),
        "BEGIN:VCARD\nVERSION:3.0\nFN:A\nEMAIL:e\nTEL:t\nORG:o\nTITLE:ti\nURL:u\nEND:VCARD"
    );
}
