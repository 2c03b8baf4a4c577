//! The render engine: one call from a module matrix, options, an optional
//! logo and an output format to the rendered output, and the same from text.

use vstd::prelude::*;
use vstd::string::*;

use crate::embed::{spec_svg_logo_overlay, svg_logo_overlay};
use crate::encode::{encode_text, qr_modules};
use crate::geometry::{spec_output_px, ModuleMatrix, Modules};
use crate::logo::{decode_image, decoded_rgba, overlay_logo, spec_overlay};
use crate::pdf::{pdf_modules, pdf_plan, PdfModule};
use crate::raster::{encode_png, png_encoding, png_signature, raster_fits, raster_rgba, render_canvas, sq};
use crate::style::{
    select_error_correction, spec_select_error_correction, spec_mime_type, OutputFormat, QrOptions,
    RenderError,
};
use crate::svg::{render_svg_with, svg_document_with};

verus! {

/// A logo to overlay: raw image bytes and its size as a percentage of the symbol.
pub struct LogoSpec {
    pub raw_image_bytes: Vec<u8>,
    pub size_percent: u8,
}

/// The layout of a PDF page: modules per side (quiet zone included) and the
/// dark modules to draw, each one module wide.
pub struct PdfLayout {
    pub total_modules: u64,
    pub modules: Vec<PdfModule>,
}

/// What a render call produces: PNG bytes, SVG text, or the module layout of a
/// PDF page (drawn into PDF operators by the caller).
pub enum RenderedOutput {
    Png(Vec<u8>),
    Svg(String),
    Pdf(PdfLayout),
}

/// Mathematical model of a render result.
pub enum OutputModel {
    Png(Seq<u8>),
    Svg(Seq<char>),
    Pdf(nat, Seq<PdfModule>),
}

impl RenderedOutput {
    pub open spec fn model(&self) -> OutputModel {
        match self {
            RenderedOutput::Png(b) => OutputModel::Png(b@),
            RenderedOutput::Svg(s) => OutputModel::Svg(s@),
            RenderedOutput::Pdf(p) => OutputModel::Pdf(p.total_modules as nat, p.modules@),
        }
    }

    pub open spec fn format(&self) -> OutputFormat {
        match self {
            RenderedOutput::Png(_) => OutputFormat::Png,
            RenderedOutput::Svg(_) => OutputFormat::Svg,
            RenderedOutput::Pdf(_) => OutputFormat::Pdf,
        }
    }

    /// MIME type of the output.
    pub fn mime(&self) -> (r: &'static str)
        ensures
            r@ == spec_mime_type(self.format()),
    {
        match self {
            RenderedOutput::Png(_) => "image/png",
            RenderedOutput::Svg(_) => "image/svg+xml",
            RenderedOutput::Pdf(_) => "application/pdf",
        }
    }
}

/// The result of rendering matrix `m` with options `o`, an optional logo
/// (bytes and percentage) and format `f`.
pub open spec fn spec_render(m: Modules, o: QrOptions, logo: Option<(Seq<u8>, u8)>, f: OutputFormat) -> Result<OutputModel, RenderError> {
    let w = spec_output_px(m.side as int, o.size as int) as nat;
    match f {
        OutputFormat::Png => {
            let pixels = match logo {
                None => Ok(raster_rgba(m, o)),
                Some((bytes, pct)) => match decoded_rgba(bytes) {
                    None => Err(RenderError::LogoDecodeFailed),
                    Some((lw, lh, lpx)) => Ok(spec_overlay(w, w, raster_rgba(m, o), lw, lh, lpx, pct, o.bg_color@)),
                },
            };
            match pixels {
                Err(e) => Err(e),
                Ok(px) => match png_encoding(w, w, px) {
                    Some(b) => Ok(OutputModel::Png(b)),
                    None => Err(RenderError::EncodingFailed),
                },
            }
        },
        OutputFormat::Svg => {
            let extra = match logo {
                None => Seq::empty(),
                Some((bytes, pct)) => spec_svg_logo_overlay(bytes, o.size as nat, pct as int, o.bg_color) + "\n"@,
            };
            Ok(OutputModel::Svg(svg_document_with(m, o, extra)))
        },
        OutputFormat::Pdf => match logo {
            Some(_) => Err(RenderError::UnsupportedCombination),
            None => Ok(OutputModel::Pdf(m.side + 8, pdf_modules(m, o.style, m.side * m.side))),
        },
    }
}

pub open spec fn logo_model(logo: Option<&LogoSpec>) -> Option<(Seq<u8>, u8)> {
    match logo {
        Some(l) => Some((l.raw_image_bytes@, l.size_percent)),
        None => None,
    }
}

/// Renders a module matrix. A PNG starts with the PNG signature; a logo is
/// refused for PDF output.
pub fn render(m: &ModuleMatrix, o: &QrOptions, logo: Option<&LogoSpec>, format: OutputFormat) -> (r: Result<RenderedOutput, RenderError>)
    requires
        m.wf(),
        m.side <= u32::MAX,
        format == OutputFormat::Png ==> raster_fits(m.side as int, o.size as int),
        logo_model(logo) matches Some((b, _)) ==> b.len() <= usize::MAX / 2,
    ensures
        match r {
            Ok(out) => {
                &&& spec_render(m@, *o, logo_model(logo), format) == Ok::<OutputModel, RenderError>(out.model())
                &&& out.format() == format
                &&& (out matches RenderedOutput::Png(b) ==> b@.subrange(0, 8) == png_signature())
            },
            Err(e) => spec_render(m@, *o, logo_model(logo), format) == Err::<OutputModel, RenderError>(e),
        },
{
    match format {
        OutputFormat::Png => {
            let canvas = render_canvas(m, o);
            let canvas = match logo {
                None => canvas,
                Some(l) => match decode_image(l.raw_image_bytes.as_slice()) {
                    None => return Err(RenderError::LogoDecodeFailed),
                    Some(li) => overlay_logo(&canvas, &li, l.size_percent, o.bg_color),
                },
            };
            match encode_png(canvas.width, canvas.height, canvas.pixels) {
                Some(b) => Ok(RenderedOutput::Png(b)),
                None => Err(RenderError::EncodingFailed),
            }
        },
        OutputFormat::Svg => {
            let mut extra = String::new();
            match logo {
                None => {},
                Some(l) => {
                    let overlay = svg_logo_overlay(l.raw_image_bytes.as_slice(), o.size, l.size_percent, o.bg_color);
                    match overlay {
                        Ok(t) => {
                            crate::text::push_str(&mut extra, t.as_str());
                            crate::text::push_str(&mut extra, "\n");
                        },
                        Err(e) => return Err(e),
                    }
                },
            }
            proof {
                if logo is None {
                    assert(extra@ =~= Seq::<char>::empty());
                }
            }
            Ok(RenderedOutput::Svg(render_svg_with(m, o, extra.as_str())))
        },
        OutputFormat::Pdf => match logo {
            Some(_) => Err(RenderError::UnsupportedCombination),
            None => Ok(RenderedOutput::Pdf(PdfLayout { total_modules: m.side as u64 + 8, modules: pdf_plan(m, o.style) })),
        },
    }
}

/// The options actually used for text: the level is raised to `H` when a logo is present.
pub open spec fn effective_options(o: QrOptions, logo_present: bool) -> QrOptions {
    QrOptions { error_correction: spec_select_error_correction(o.error_correction, logo_present), ..o }
}

/// The result of rendering text: encoded at the effective level, then rendered.
pub open spec fn spec_render_text(data: Seq<u8>, o: QrOptions, logo: Option<(Seq<u8>, u8)>, f: OutputFormat) -> Result<OutputModel, RenderError> {
    let eo = effective_options(o, logo is Some);
    match qr_modules(data, eo.error_correction) {
        None => Err(RenderError::DataTooLong),
        Some((side, dark)) => spec_render(Modules { side, dark }, eo, logo, f),
    }
}

/// Encodes text and renders it; a logo forces the highest error-correction level.
pub fn render_text(data: &str, o: &QrOptions, logo: Option<&LogoSpec>, format: OutputFormat) -> (r: Result<RenderedOutput, RenderError>)
    requires
        format == OutputFormat::Png ==> o.size <= 32767,
        logo_model(logo) matches Some((b, _)) ==> b.len() <= usize::MAX / 2,
    ensures
        match r {
            Ok(out) => {
                &&& spec_render_text(data.spec_bytes(), *o, logo_model(logo), format) == Ok::<OutputModel, RenderError>(out.model())
                &&& out.format() == format
                &&& (out matches RenderedOutput::Png(b) ==> b@.subrange(0, 8) == png_signature())
            },
            Err(e) => spec_render_text(data.spec_bytes(), *o, logo_model(logo), format) == Err::<OutputModel, RenderError>(e),
        },
{
    let level = select_error_correction(o.error_correction, logo.is_some());
    let eo = QrOptions {
        size: o.size,
        fg_color: o.fg_color,
        bg_color: o.bg_color,
        error_correction: level,
        style: o.style,
    };
    assert(eo == effective_options(*o, logo is Some));
    match encode_text(data, level) {
        None => Err(RenderError::DataTooLong),
        Some(m) => {
            assert(format == OutputFormat::Png ==> raster_fits(m.side as int, eo.size as int)) by {
                if format == OutputFormat::Png {
                let w = spec_output_px(m.side as int, eo.size as int);
                let ms = crate::geometry::spec_module_px(m.side as int, eo.size as int);
                assert(w <= 32767) by (nonlinear_arith)
                    requires
                        w == ms * (m.side + 8),
                        ms == 1 || ms == eo.size as int / (m.side + 8),
                        eo.size <= 32767,
                        m.side <= 177,
                ;
                assert(sq(w) * 4 <= 0xffff_ffff) by (nonlinear_arith)
                    requires
                        0 <= w <= 32767,
                ;
                }
            }
            render(&m, &eo, logo, format)
        },
    }
}

/// Rendering is a function of its inputs: two renders of the same text with
/// the same options, logo and format give the same result.
pub proof fn lemma_render_deterministic(
    data: Seq<u8>,
    o: QrOptions,
    logo: Option<(Seq<u8>, u8)>,
    f: OutputFormat,
    first: Result<OutputModel, RenderError>,
    second: Result<OutputModel, RenderError>,
)
    requires
        first == spec_render_text(data, o, logo, f),
        second == spec_render_text(data, o, logo, f),
    ensures
        first == second,
{
}

} // verus!
