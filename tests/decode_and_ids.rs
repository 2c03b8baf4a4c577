use qr_service::decode::{decode_qr, DecodeError};
use qr_service::ids::{generate_api_key, generate_short_code, link_expired, link_expired_at, short_code_from_uuid};
use qr_service::raster::generate_png;
use qr_service::style::{EcLevel, QrOptions, QrStyle};

fn options(size: u32, style: QrStyle) -> QrOptions {
    QrOptions { size, fg_color: [0, 0, 0, 255], bg_color: [255, 255, 255, 255], error_correction: EcLevel::H, style }
}

#[test]
fn decode_roundtrip_through_library() {
    let png = generate_png("roundtrip-test", &options(256, QrStyle::Square)).unwrap();
    let d = decode_qr(&png).unwrap();
    assert_eq!(d.data, "roundtrip-test");
    assert_eq!(d.format, "qr");
}

#[test]
fn decode_refuses_non_images_and_blank_images() {
    assert_eq!(decode_qr(b"this is not an image").err(), Some(DecodeError::InvalidImage));
    let img = image::RgbaImage::from_pixel(64, 64, image::Rgba([255, 255, 255, 255]));
    let mut buf = std::io::Cursor::new(Vec::new());
    img.write_to(&mut buf, image::ImageFormat::Png).unwrap();
    assert_eq!(decode_qr(&buf.into_inner()).err(), Some(DecodeError::NoQrFound));
}

#[test]
fn short_codes_and_keys_from_uuids() {
    assert_eq!(short_code_from_uuid("0f1e2d3c-4b5a-4968-8776-a5b4c3d2e1f0"), "0f1e2d3c");
    let code = generate_short_code();
    assert_eq!(code.len(), 8);
    assert!(code.chars().all(|c| c.is_ascii_hexdigit() && !c.is_ascii_uppercase()));
    let key = generate_api_key();
    assert!(key.starts_with("qrs_"));
    assert_eq!(key.len(), 36);
    assert!(!key.contains('-'));
    assert_ne!(generate_api_key(), key);
}

#[test]
fn link_expiry() {
    assert!(!link_expired(None));
    assert!(link_expired(Some("2000-01-01 00:00:00")));
    assert!(!link_expired(Some("9999-12-31 23:59:59")));
    assert!(link_expired_at(Some("2026-01-01 00:00:00"), "2026-01-01 00:00:01"));
    assert!(!link_expired_at(None, "2026-01-01 00:00:01"));
}
