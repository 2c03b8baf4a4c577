//! Reading QR codes back from images, through an outside QR decoder.

use vstd::prelude::*;
use vstd::string::*;

use crate::logo::{decode_image, decoded_rgba};
use crate::models::DecodeResponse;
use crate::raster::Canvas;

verus! {

/// Grey levels of an RGBA image, one byte per pixel.
pub uninterp spec fn luma_of(width: nat, height: nat, rgba: Seq<u8>) -> Seq<u8>;

/// Relies on image's `DynamicImage::to_luma8`, which keeps the image size.
#[verifier::external_body]
fn to_luma(c: &Canvas) -> (r: Vec<u8>)
    requires
        c.wf(),
    ensures
        r@ == luma_of(c.width as nat, c.height as nat, c.pixels@),
        r@.len() == c.width * c.height,
{
    let img: image::RgbaImage = image::ImageBuffer::from_raw(c.width, c.height, c.pixels.clone()).unwrap();
    image::DynamicImage::ImageRgba8(img).to_luma8().into_raw()
}

/// Grey level of pixel (`x`, `y`) of a row-major image `width` pixels wide; 0 outside it.
pub fn luma_at(luma: &Vec<u8>, width: usize, x: usize, y: usize) -> (r: u8)
    ensures
        width > 0 && x < width && y < luma@.len() / (width as nat) ==> r == luma@[y * width + x],
{
    if width == 0 || x >= width {
        return 0;
    }
    let rows = luma.len() / width;
    if y >= rows {
        return 0;
    }
    assert(y * width + x < luma@.len()) by (nonlinear_arith)
        requires
            y < rows,
            rows == luma@.len() / (width as nat),
            x < width,
            width > 0,
    ;
    luma[y * width + x]
}

/// The text of the first QR code that the decoder finds in a grey image, if it decodes.
pub uninterp spec fn qr_text_in(width: nat, height: nat, luma: Seq<u8>) -> Option<Seq<char>>;

/// Relies on rqrr's `PreparedImage::prepare_from_greyscale`, `detect_grids`
/// and `Grid::decode`, applied to the first grid found.
#[verifier::external_body]
fn find_qr_text(width: u32, height: u32, luma: &Vec<u8>) -> (r: Option<String>)
    requires
        luma@.len() == width * height,
    ensures
        match r {
            Some(t) => qr_text_in(width as nat, height as nat, luma@) == Some(t@),
            None => qr_text_in(width as nat, height as nat, luma@) is None,
        },
{
    let w = width as usize;
    let mut img = rqrr::PreparedImage::prepare_from_greyscale(w, height as usize, |x, y| luma_at(luma, w, x, y));
    let grid = img.detect_grids().into_iter().next()?;
    grid.decode().ok().map(|(_meta, text)| text)
}

/// Why no text could be read from an image.
#[derive(Clone, Copy, Debug, PartialEq, Eq, Structural)]
pub enum DecodeError {
    /// The bytes are no image the decoder recognises.
    InvalidImage,
    /// No QR code was found, or none decoded.
    NoQrFound,
}

/// The text of the QR code in an image file, or why there is none.
pub open spec fn spec_decode_qr(bytes: Seq<u8>) -> Result<Seq<char>, DecodeError> {
    match decoded_rgba(bytes) {
        None => Err(DecodeError::InvalidImage),
        Some((w, h, px)) => match qr_text_in(w, h, luma_of(w, h, px)) {
            None => Err(DecodeError::NoQrFound),
            Some(t) => Ok(t),
        },
    }
}

/// Reads the QR code in an image file (PNG, JPEG, GIF or WebP).
pub fn decode_qr(data: &[u8]) -> (r: Result<DecodeResponse, DecodeError>)
    ensures
        match r {
            Ok(d) => spec_decode_qr(data@) == Ok::<Seq<char>, DecodeError>(d.data@) && d.format@ == "qr"@,
            Err(e) => spec_decode_qr(data@) == Err::<Seq<char>, DecodeError>(e),
        },
{
    let img = match decode_image(data) {
        Some(c) => c,
        None => return Err(DecodeError::InvalidImage),
    };
    let luma = to_luma(&img);
    match find_qr_text(img.width, img.height, &luma) {
        Some(t) => Ok(DecodeResponse { data: t, format: String::from_str("qr") }),
        None => Err(DecodeError::NoQrFound),
    }
}

} // verus!
