use qr_service::blend::{alpha_blend, is_inside_rounded_rect};
use qr_service::embed::{decode_logo_base64, logo_mime, svg_logo_overlay};
use qr_service::encode::encode_text;
use qr_service::geometry::{corner_rounding, module_px, neighbors, output_px, CornerFlags, ModuleMatrix};
use qr_service::logo::{logo_layout, overlay_logo_png};
use qr_service::pdf::{pdf_plan, PdfShape};
use qr_service::raster::{generate_png, render_canvas, render_png};
use qr_service::render::{render, render_text, LogoSpec, RenderedOutput};
use qr_service::style::{
    check_logo_support, mime_type, parse_ec_level, parse_hex_color, select_error_correction, EcLevel,
    OutputFormat, QrOptions, QrStyle, RenderError,
};
use qr_service::svg::{generate_svg, render_svg};

fn options(size: u32, ec: EcLevel, style: QrStyle) -> QrOptions {
    QrOptions { size, fg_color: [0, 0, 0, 255], bg_color: [255, 255, 255, 255], error_correction: ec, style }
}

fn decode_png_qr(png: &[u8]) -> Option<String> {
    let img = image::load_from_memory(png).ok()?.to_luma8();
    let (w, h) = img.dimensions();
    let mut prepared = rqrr::PreparedImage::prepare_from_greyscale(w as usize, h as usize, |x, y| {
        img.get_pixel(x as u32, y as u32).0[0]
    });
    let grid = prepared.detect_grids().into_iter().next()?;
    grid.decode().ok().map(|(_meta, content)| content)
}

fn matrix(side: usize, dark: &[(usize, usize)]) -> ModuleMatrix {
    let mut cells = vec![false; side * side];
    for &(x, y) in dark {
        cells[y * side + x] = true;
    }
    ModuleMatrix { side, dark: cells }
}

fn solid_png(w: u32, h: u32, rgba: [u8; 4]) -> Vec<u8> {
    let img = image::RgbaImage::from_pixel(w, h, image::Rgba(rgba));
    let mut buf = std::io::Cursor::new(Vec::new());
    img.write_to(&mut buf, image::ImageFormat::Png).unwrap();
    buf.into_inner()
}

#[test]
fn parse_color_examples() {
    assert_eq!(parse_hex_color("#FF0000"), Ok([255, 0, 0, 255]));
    assert_eq!(parse_hex_color("#FF000080"), Ok([255, 0, 0, 128]));
    assert_eq!(parse_hex_color("#GGG"), Err(RenderError::ColorParse));
    assert_eq!(parse_hex_color("#ff8800"), Ok([255, 136, 0, 255]));
    assert_eq!(parse_hex_color("00ff00"), Ok([0, 255, 0, 255]));
    assert_eq!(parse_hex_color("#1234567"), Err(RenderError::ColorParse));
    assert_eq!(parse_hex_color("#12345G"), Err(RenderError::ColorParse));
    assert_eq!(parse_hex_color("#€€"), Err(RenderError::ColorParse));
    assert_eq!(parse_hex_color(""), Err(RenderError::ColorParse));
}

#[test]
fn hello_png_example_decodes() {
    let png = generate_png("HELLO", &options(256, EcLevel::M, QrStyle::Square)).unwrap();
    assert_eq!(&png[0..4], &[0x89, 0x50, 0x4E, 0x47]);
    assert_eq!(decode_png_qr(&png).as_deref(), Some("HELLO"));
}

#[test]
fn raster_size_follows_quiet_zone_rule() {
    let m = encode_text("HELLO", EcLevel::M).unwrap();
    assert_eq!(m.side, 21);
    assert_eq!(module_px(21, 256), 8);
    assert_eq!(output_px(21, 256), 232);
    assert_eq!(module_px(21, 10), 1);
    assert_eq!(output_px(21, 10), 29);
    let png = generate_png("HELLO", &options(256, EcLevel::M, QrStyle::Square)).unwrap();
    let img = image::load_from_memory(&png).unwrap();
    assert_eq!((img.width(), img.height()), (232, 232));
}

#[test]
fn isolated_module_rounds_all_corners() {
    let m = matrix(3, &[(1, 1)]);
    let c = corner_rounding(QrStyle::Rounded, neighbors(&m, 1, 1));
    assert_eq!(c, CornerFlags { tl: true, tr: true, bl: true, br: true });
}

#[test]
fn horizontal_pair_keeps_shared_edge_square() {
    let m = matrix(3, &[(0, 1), (1, 1)]);
    let left = corner_rounding(QrStyle::Rounded, neighbors(&m, 0, 1));
    let right = corner_rounding(QrStyle::Rounded, neighbors(&m, 1, 1));
    assert_eq!(left, CornerFlags { tl: true, tr: false, bl: true, br: false });
    assert_eq!(right, CornerFlags { tl: false, tr: true, bl: false, br: true });
    assert_eq!(corner_rounding(QrStyle::Square, neighbors(&m, 0, 1)), CornerFlags { tl: false, tr: false, bl: false, br: false });
    assert_eq!(corner_rounding(QrStyle::Dots, neighbors(&m, 0, 1)), CornerFlags { tl: true, tr: true, bl: true, br: true });
}

#[test]
fn neighbors_do_not_wrap() {
    let m = matrix(3, &[(0, 0), (2, 0), (0, 2)]);
    let n = neighbors(&m, 0, 0);
    assert!(!n.top && !n.left && !n.right && !n.bottom);
}

#[test]
fn alpha_blend_opaque_and_transparent() {
    assert_eq!(alpha_blend([10, 20, 30, 40], [200, 100, 50, 255]), [200, 100, 50, 255]);
    assert_eq!(alpha_blend([10, 20, 30, 40], [200, 100, 50, 0]), [10, 20, 30, 40]);
    assert_eq!(alpha_blend([10, 20, 30, 0], [200, 100, 50, 0]), [0, 0, 0, 0]);
    assert_eq!(alpha_blend([255, 255, 255, 255], [0, 0, 0, 128]), [127, 127, 127, 255]);
}

#[test]
fn rounded_rect_corners() {
    assert!(is_inside_rounded_rect(5, 5, 10, 10, 3));
    assert!(!is_inside_rounded_rect(0, 0, 10, 10, 3));
    assert!(!is_inside_rounded_rect(9, 9, 10, 10, 3));
    assert!(is_inside_rounded_rect(0, 5, 10, 10, 3));
}

#[test]
fn deterministic_outputs() {
    let o = options(256, EcLevel::M, QrStyle::Rounded);
    assert_eq!(generate_png("deterministic-test", &o), generate_png("deterministic-test", &o));
    assert_eq!(generate_svg("svg-deterministic", &o), generate_svg("svg-deterministic", &o));
    assert_ne!(generate_png("alpha", &o), generate_png("beta", &o));
}

#[test]
fn svg_document_is_framed() {
    let svg = generate_svg("frame", &options(200, EcLevel::M, QrStyle::Rounded)).unwrap();
    assert!(svg.starts_with("<?xml version=\"1.0\" encoding=\"UTF-8\"?>\n<svg xmlns=\"http://www.w3.org/2000/svg\" viewBox=\"0 0 200 200\""));
    assert!(svg.ends_with("</svg>"));
    for line in svg.lines().skip(2) {
        if line != "</svg>" {
            assert!(line.starts_with('<') && line.ends_with("/>"), "{}", line);
        }
    }
}

#[test]
fn svg_exact_module_geometry() {
    let m = matrix(1, &[(0, 0)]);
    let o = QrOptions { size: 90, fg_color: [255, 0, 0, 255], bg_color: [0, 0, 255, 255], error_correction: EcLevel::M, style: QrStyle::Square };
    let svg = render_svg(&m, &o);
    assert_eq!(
        svg,
        "<?xml version=\"1.0\" encoding=\"UTF-8\"?>\n<svg xmlns=\"http://www.w3.org/2000/svg\" viewBox=\"0 0 90 90\" width=\"90\" height=\"90\">\n<rect width=\"90\" height=\"90\" fill=\"#0000ff\"/>\n<rect x=\"40.00\" y=\"40.00\" width=\"10.00\" height=\"10.00\" fill=\"#ff0000\"/>\n</svg>"
    );
    let dots = render_svg(&m, &QrOptions { style: QrStyle::Dots, ..o });
    assert!(dots.contains("<circle cx=\"45.00\" cy=\"45.00\" r=\"5.00\" fill=\"#ff0000\"/>"));
    let rounded = render_svg(&m, &QrOptions { style: QrStyle::Rounded, ..o });
    assert!(rounded.contains("<path d=\"M43.50,40.00 L46.50,40.00 Q50.00,40.00 50.00,43.50 L50.00,46.50 Q50.00,50.00 46.50,50.00 L43.50,50.00 Q40.00,50.00 40.00,46.50 L40.00,43.50 Q40.00,40.00 43.50,40.00 Z\" fill=\"#ff0000\"/>"));
}

#[test]
fn raster_pixels_of_single_module() {
    let m = matrix(1, &[(0, 0)]);
    let o = QrOptions { size: 18, fg_color: [1, 2, 3, 255], bg_color: [9, 9, 9, 255], error_correction: EcLevel::M, style: QrStyle::Square };
    let c = render_canvas(&m, &o);
    assert_eq!((c.width, c.height), (18, 18));
    let px = |x: usize, y: usize| &c.pixels[(y * 18 + x) * 4..(y * 18 + x) * 4 + 4];
    assert_eq!(px(0, 0), &[9, 9, 9, 255]);
    assert_eq!(px(8, 8), &[1, 2, 3, 255]);
    assert_eq!(px(9, 9), &[1, 2, 3, 255]);
    assert_eq!(px(10, 10), &[9, 9, 9, 255]);
    let dots = render_canvas(&m, &QrOptions { size: 90, style: QrStyle::Dots, ..o });
    let dpx = |x: usize, y: usize| dots.pixels[(y * 90 + x) * 4];
    assert_eq!(dpx(45, 45), 1);
    assert_eq!(dpx(40, 40), 9);
    let rounded = render_canvas(&m, &QrOptions { size: 90, style: QrStyle::Rounded, ..o });
    let rpx = |x: usize, y: usize| rounded.pixels[(y * 90 + x) * 4];
    assert_eq!(rpx(40, 40), 9);
    assert_eq!(rpx(42, 42), 1);
    assert_eq!(rpx(45, 40), 1);
}

#[test]
fn png_of_matrix_has_signature() {
    let m = matrix(1, &[(0, 0)]);
    let png = render_png(&m, &options(64, EcLevel::M, QrStyle::Square)).unwrap();
    assert_eq!(&png[0..8], &[137, 80, 78, 71, 13, 10, 26, 10]);
    let img = image::load_from_memory(&png).unwrap().to_rgba8();
    assert_eq!(img.dimensions(), (63, 63));
    assert_eq!(img.get_pixel(30, 30).0, [0, 0, 0, 255]);
}

#[test]
fn pdf_plan_flips_rows() {
    let m = matrix(2, &[(1, 0), (0, 1), (1, 1)]);
    let plan = pdf_plan(&m, QrStyle::Rounded);
    assert_eq!(plan.len(), 3);
    assert_eq!((plan[0].col, plan[0].row), (5, 5));
    assert_eq!((plan[1].col, plan[1].row), (4, 4));
    assert_eq!((plan[2].col, plan[2].row), (5, 4));
    assert_eq!(plan[2].shape, PdfShape::Rounded(CornerFlags { tl: false, tr: false, bl: false, br: true }));
    assert_eq!(pdf_plan(&m, QrStyle::Dots)[0].shape, PdfShape::Circle);
    assert_eq!(pdf_plan(&m, QrStyle::Square)[0].shape, PdfShape::Rect);
}

#[test]
fn logo_forces_high_error_correction() {
    assert_eq!(select_error_correction(EcLevel::L, true), EcLevel::H);
    assert_eq!(select_error_correction(EcLevel::Q, false), EcLevel::Q);
    assert_eq!(parse_ec_level("h"), EcLevel::H);
    assert_eq!(parse_ec_level("x"), EcLevel::M);
    assert_eq!(parse_ec_level(""), EcLevel::M);
}

#[test]
fn pdf_refuses_logo() {
    let m = matrix(1, &[(0, 0)]);
    let logo = LogoSpec { raw_image_bytes: solid_png(4, 4, [255, 0, 0, 255]), size_percent: 20 };
    let r = render(&m, &options(64, EcLevel::M, QrStyle::Square), Some(&logo), OutputFormat::Pdf);
    assert!(matches!(r, Err(RenderError::UnsupportedCombination)));
    assert_eq!(check_logo_support(OutputFormat::Pdf, true), Err(RenderError::UnsupportedCombination));
    assert_eq!(check_logo_support(OutputFormat::Png, true), Ok(()));
    let ok = render(&m, &options(64, EcLevel::M, QrStyle::Square), None, OutputFormat::Pdf).unwrap();
    assert_eq!(ok.mime(), "application/pdf");
    assert_eq!(mime_type(OutputFormat::Svg), "image/svg+xml");
}

#[test]
fn bad_logo_bytes_are_refused() {
    let logo = LogoSpec { raw_image_bytes: b"this is not an image".to_vec(), size_percent: 20 };
    let r = render_text("https://example.com", &options(256, EcLevel::M, QrStyle::Square), Some(&logo), OutputFormat::Png);
    assert!(matches!(r, Err(RenderError::LogoDecodeFailed)));
    let png = generate_png("x", &options(128, EcLevel::M, QrStyle::Square)).unwrap();
    assert_eq!(overlay_logo_png(&png, b"nope", 20, [255, 255, 255, 255]), Err(RenderError::LogoDecodeFailed));
    assert_eq!(overlay_logo_png(b"nope", &png, 20, [255, 255, 255, 255]), Err(RenderError::EncodingFailed));
}

#[test]
fn too_long_text_is_refused() {
    let long = "x".repeat(8000);
    assert_eq!(generate_png(&long, &options(256, EcLevel::H, QrStyle::Square)), Err(RenderError::DataTooLong));
    assert_eq!(generate_svg(&long, &options(256, EcLevel::H, QrStyle::Square)), Err(RenderError::DataTooLong));
}

#[test]
fn logo_overlay_stays_scannable() {
    let logo = LogoSpec { raw_image_bytes: solid_png(40, 20, [200, 0, 0, 255]), size_percent: 20 };
    let out = render_text("https://example.com", &options(400, EcLevel::M, QrStyle::Square), Some(&logo), OutputFormat::Png).unwrap();
    let png = match out {
        RenderedOutput::Png(b) => b,
        _ => panic!("expected PNG output"),
    };
    assert_eq!(&png[0..4], &[0x89, 0x50, 0x4E, 0x47]);
    let img = image::load_from_memory(&png).unwrap().to_rgba8();
    let centre = img.get_pixel(img.width() / 2, img.height() / 2).0;
    assert_eq!(centre, [200, 0, 0, 255]);
    assert_eq!(decode_png_qr(&png).as_deref(), Some("https://example.com"));
}

#[test]
fn overlay_logo_png_paints_box_and_logo() {
    let qr = solid_png(100, 100, [0, 0, 0, 255]);
    let logo = solid_png(10, 10, [0, 255, 0, 255]);
    let out = overlay_logo_png(&qr, &logo, 20, [255, 255, 255, 255]).unwrap();
    let img = image::load_from_memory(&out).unwrap().to_rgba8();
    assert_eq!(img.get_pixel(50, 50).0, [0, 255, 0, 255]);
    assert_eq!(img.get_pixel(38, 50).0, [255, 255, 255, 255]);
    assert_eq!(img.get_pixel(5, 5).0, [0, 0, 0, 255]);
}

#[test]
fn logo_layout_example() {
    let l = logo_layout(100, 100, 40, 20, 20);
    assert_eq!((l.logo_w, l.logo_h), (20, 10));
    assert_eq!((l.box_w, l.box_h), (26, 16));
    assert_eq!((l.box_x, l.box_y), (37, 42));
    assert_eq!((l.logo_x, l.logo_y), (40, 45));
    assert_eq!(l.corner, 2);
    let clamped = logo_layout(100, 100, 10, 10, 90);
    assert_eq!(clamped.logo_w, 40);
    let small = logo_layout(100, 100, 10, 10, 1);
    assert_eq!(small.logo_w, 5);
}

#[test]
fn logo_mime_sniffing() {
    assert_eq!(logo_mime(&[0x89, 0x50, 0x4E, 0x47, 0]), "image/png");
    assert_eq!(logo_mime(&[0xFF, 0xD8, 0xFF]), "image/jpeg");
    assert_eq!(logo_mime(b"<svg xmlns"), "image/svg+xml");
    assert_eq!(logo_mime(b"<?xml version"), "image/svg+xml");
    assert_eq!(logo_mime(b"GIF89a"), "image/gif");
    assert_eq!(logo_mime(b"RIFF0000WEBP"), "image/webp");
    assert_eq!(logo_mime(b"??"), "image/png");
    assert_eq!(logo_mime(&[]), "image/png");
}

#[test]
fn svg_logo_overlay_geometry() {
    let s = svg_logo_overlay(b"GIF8", 300, 20, [255, 255, 255, 255]).unwrap();
    assert_eq!(
        s,
        "<rect x=\"111.00\" y=\"111.00\" width=\"78.00\" height=\"78.00\" rx=\"11.70\" ry=\"11.70\" fill=\"#ffffff\"/>\n<image x=\"120.00\" y=\"120.00\" width=\"60.00\" height=\"60.00\" href=\"data:image/gif;base64,R0lGOA==\"/>"
    );
}

#[test]
fn svg_render_with_logo_embeds_image() {
    let logo = LogoSpec { raw_image_bytes: solid_png(4, 4, [1, 2, 3, 255]), size_percent: 15 };
    let out = render_text("https://example.com", &options(300, EcLevel::M, QrStyle::Square), Some(&logo), OutputFormat::Svg).unwrap();
    match out {
        RenderedOutput::Svg(s) => {
            assert!(s.contains("href=\"data:image/png;base64,iVBORw0KGgo"));
            assert!(s.ends_with("/>\n</svg>"));
        },
        _ => panic!("expected SVG output"),
    }
}

#[test]
fn decode_logo_base64_variants() {
    assert_eq!(decode_logo_base64("aGVsbG8="), Ok(b"hello".to_vec()));
    assert_eq!(decode_logo_base64("data:image/png;base64,aGVsbG8="), Ok(b"hello".to_vec()));
    assert_eq!(decode_logo_base64("  aGVsbG8=\n"), Ok(b"hello".to_vec()));
    assert_eq!(decode_logo_base64("not-valid-base64!!!"), Err(RenderError::LogoDecodeFailed));
    assert_eq!(decode_logo_base64("abc,aGVsbG8="), Err(RenderError::LogoDecodeFailed));
    assert_eq!(decode_logo_base64(""), Ok(Vec::new()));
}
