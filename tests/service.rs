use qr_service::models::{default_rate_limit, health, GenerateRequest};
use qr_service::embed::data_uri;
use qr_service::service::{
    check_batch_size, client_ip, extract_api_key, format_name, hash_key, is_expired, page_window,
    prepare_batch_item, prepare_generate, short_url, url_with_utm, validate_short_code,
    validate_target_url, AuthError, RequestError, ShortCodeError,
};
use qr_service::style::{EcLevel, OutputFormat, QrStyle};

#[test]
fn api_key_from_headers() {
    assert_eq!(extract_api_key(Some("Bearer qrs_abc"), None), Ok("qrs_abc".to_string()));
    assert_eq!(extract_api_key(Some("Bearer qrs_abc"), Some("other")), Ok("qrs_abc".to_string()));
    assert_eq!(extract_api_key(Some("Token qrs_abc"), Some("other")), Err(AuthError::InvalidFormat));
    assert_eq!(extract_api_key(Some("Bear"), None), Err(AuthError::InvalidFormat));
    assert_eq!(extract_api_key(None, Some("k1")), Ok("k1".to_string()));
    assert_eq!(extract_api_key(None, None), Err(AuthError::Missing));
}

#[test]
fn client_ip_preference() {
    assert_eq!(client_ip(Some(" 10.0.0.1 , 10.0.0.2"), Some("9.9.9.9"), Some("1.1.1.1")), "10.0.0.1");
    assert_eq!(client_ip(None, Some("9.9.9.9"), Some("1.1.1.1")), "9.9.9.9");
    assert_eq!(client_ip(None, None, Some("1.1.1.1")), "1.1.1.1");
    assert_eq!(client_ip(None, None, None), "unknown");
}

#[test]
fn utm_parameters_are_appended() {
    assert_eq!(
        url_with_utm("https://example.com", Some("qr"), Some("print"), None),
        "https://example.com?utm_source=qr&utm_medium=print"
    );
    assert_eq!(
        url_with_utm("https://example.com?a=1", None, None, Some("spring")),
        "https://example.com?a=1&utm_campaign=spring"
    );
    assert_eq!(url_with_utm("https://example.com", None, None, None), "https://example.com");
}

#[test]
fn short_code_rules() {
    assert_eq!(validate_short_code("ab"), Err(ShortCodeError::Length));
    assert_eq!(validate_short_code(&"a".repeat(33)), Err(ShortCodeError::Length));
    assert_eq!(validate_short_code(&"a".repeat(32)), Ok(()));
    assert_eq!(validate_short_code("abc"), Ok(()));
    assert_eq!(validate_short_code("my-custom-code"), Ok(()));
    assert_eq!(validate_short_code("has spaces!"), Err(ShortCodeError::Characters));
}

#[test]
fn paging_defaults_and_bounds() {
    assert_eq!(page_window(None, None), (1, 20, 0));
    assert_eq!(page_window(Some(0), Some(0)), (1, 1, 0));
    assert_eq!(page_window(Some(3), Some(500)), (3, 100, 200));
}

#[test]
fn expiry_compares_timestamps() {
    assert!(is_expired("2026-01-02 00:00:00", "2026-01-01 23:59:59"));
    assert!(!is_expired("2026-01-01 00:00:00", "2026-01-01 00:00:00"));
    assert!(!is_expired("2025-12-31 23:59:59", "2026-01-01 00:00:00"));
}

#[test]
fn key_hash_is_sha256_hex() {
    assert_eq!(hash_key("abc"), "ba7816bf8f01cfea414140de5dae2223b00361a396177a9cb410ff61f20015ad");
    assert_eq!(hash_key("").len(), 64);
}

#[test]
fn generate_request_validation() {
    let mut req = GenerateRequest::with_defaults("hello".to_string());
    let (o, f) = prepare_generate(&req).unwrap();
    assert_eq!(f, OutputFormat::Png);
    assert_eq!((o.size, o.fg_color, o.bg_color), (256, [0, 0, 0, 255], [255, 255, 255, 255]));
    assert_eq!((o.error_correction, o.style), (EcLevel::M, QrStyle::Square));
    req.size = 63;
    assert_eq!(prepare_generate(&req).err(), Some(RequestError::InvalidSize));
    req.size = 4096;
    req.fg_color = "#GGG".to_string();
    assert_eq!(prepare_generate(&req).err(), Some(RequestError::InvalidFgColor));
    req.fg_color = "#FF000080".to_string();
    req.bg_color = "#XYZ".to_string();
    assert_eq!(prepare_generate(&req).err(), Some(RequestError::InvalidBgColor));
    req.bg_color = "#00FF0040".to_string();
    req.format = "gif".to_string();
    assert_eq!(prepare_generate(&req).err(), Some(RequestError::InvalidFormat));
    req.format = "svg".to_string();
    req.style = "Rounded".to_string();
    let (o, f) = prepare_generate(&req).unwrap();
    assert_eq!((o.fg_color, o.bg_color, o.style, f), ([255, 0, 0, 128], [0, 255, 0, 64], QrStyle::Rounded, OutputFormat::Svg));
    req.data = String::new();
    assert_eq!(prepare_generate(&req).err(), Some(RequestError::EmptyData));
    assert_eq!(format_name("pdf"), Some(OutputFormat::Pdf));
    assert_eq!(format_name("PNG"), None);
}

#[test]
fn health_and_defaults() {
    let h = health("1.2.3");
    assert_eq!((h.status.as_str(), h.version.as_str(), h.uptime_seconds), ("ok", "1.2.3", 0));
    assert_eq!(default_rate_limit(), 100);
}

#[test]
fn batch_rules() {
    assert_eq!(check_batch_size(0), Err(RequestError::EmptyBatch));
    assert_eq!(check_batch_size(51), Err(RequestError::BatchTooLarge));
    assert_eq!(check_batch_size(1), Ok(()));
    assert_eq!(check_batch_size(50), Ok(()));
    let mut item = GenerateRequest::with_defaults("tiny".to_string());
    item.size = 10;
    item.fg_color = "bad".to_string();
    item.format = "gif".to_string();
    let (o, f) = prepare_batch_item(&item);
    assert_eq!((o.size, o.fg_color, f), (64, [0, 0, 0, 255], OutputFormat::Png));
    item.size = 9999;
    item.format = "svg".to_string();
    item.bg_color = "#00000000".to_string();
    let (o, f) = prepare_batch_item(&item);
    assert_eq!((o.size, o.bg_color, f), (4096, [0, 0, 0, 0], OutputFormat::Svg));
}

#[test]
fn tracked_url_rules() {
    assert_eq!(validate_target_url(""), Err(RequestError::EmptyTargetUrl));
    assert_eq!(validate_target_url("not-a-url"), Err(RequestError::InvalidUrl));
    assert_eq!(validate_target_url("http://a"), Ok(()));
    assert_eq!(validate_target_url("https://example.com/target"), Ok(()));
    assert_eq!(short_url("http://localhost:8000/", "redir-test"), "http://localhost:8000/r/redir-test");
    assert_eq!(short_url("http://localhost:8000", "abc"), "http://localhost:8000/r/abc");
}

#[test]
fn data_uri_wraps_base64() {
    assert_eq!(data_uri("image/png", b"hello"), "data:image/png;base64,aGVsbG8=");
    assert_eq!(data_uri("image/svg+xml", b""), "data:image/svg+xml;base64,");
}
