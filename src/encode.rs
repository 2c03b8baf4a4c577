//! The QR symbol encoder, used as a black box that yields a module matrix.

use vstd::prelude::*;
use vstd::string::*;

use crate::geometry::ModuleMatrix;
use crate::style::EcLevel;

verus! {

/// The module grid (side and row-major dark flags) that the QR encoder builds
/// for these bytes at this level, or `None` when they do not fit.
pub uninterp spec fn qr_modules(data: Seq<u8>, level: EcLevel) -> Option<(nat, Seq<bool>)>;

/// Relies on qrcode's `QrCode::with_error_correction_level`, `width` and
/// `to_colors`: the encoder picks the smallest normal version (1 to 40, side
/// `4 * version + 17`) and lays the modules out row by row.
#[verifier::external_body]
fn encode_modules(data: &[u8], level: EcLevel) -> (r: Option<ModuleMatrix>)
    ensures
        match r {
            Some(m) => {
                &&& qr_modules(data@, level) == Some((m.side as nat, m.dark@))
                &&& m.wf()
                &&& 21 <= m.side <= 177
                &&& m.side % 2 == 1
            },
            None => qr_modules(data@, level) is None,
        },
{
    let ec = match level {
        EcLevel::L => qrcode::EcLevel::L,
        EcLevel::M => qrcode::EcLevel::M,
        EcLevel::Q => qrcode::EcLevel::Q,
        EcLevel::H => qrcode::EcLevel::H,
    };
    let code = qrcode::QrCode::with_error_correction_level(data, ec).ok()?;
    let dark = code.to_colors().iter().map(|c| *c == qrcode::Color::Dark).collect();
    Some(ModuleMatrix { side: code.width(), dark })
}

/// Encodes text (as its UTF-8 bytes) into a module matrix.
pub fn encode_text(data: &str, level: EcLevel) -> (r: Option<ModuleMatrix>)
    ensures
        match r {
            Some(m) => {
                &&& qr_modules(data.spec_bytes(), level) == Some((m.side as nat, m.dark@))
                &&& m.wf()
                &&& 21 <= m.side <= 177
            },
            None => qr_modules(data.spec_bytes(), level) is None,
        },
{
    encode_modules(data.as_bytes(), level)
}

} // verus!
