//! Logo data as text: base64 decoding of an uploaded logo (with or without a
//! data-URI prefix), and the SVG elements that embed a logo in a document.

use vstd::prelude::*;

use crate::logo::clamp_pct;
use crate::style::RenderError;
use crate::text::{
    fixed2, hex_color, hex_color_string, hundredths, push_chars, push_fixed2, push_str, str_chars,
};

verus! {

/// Standard base64 (padded) of the bytes.
pub uninterp spec fn base64_of(bytes: Seq<u8>) -> Seq<char>;

/// The bytes that standard base64 text decodes to, or `None` when it is not valid base64.
pub uninterp spec fn base64_decoded(text: Seq<char>) -> Option<Seq<u8>>;

/// Relies on base64's `STANDARD` engine `encode`, which panics only when the
/// output length overflows `usize`.
#[verifier::external_body]
fn base64_encode(bytes: &[u8]) -> (r: String)
    requires
        bytes@.len() <= usize::MAX / 2,
    ensures
        r@ == base64_of(bytes@),
{
    base64::Engine::encode(&base64::engine::general_purpose::STANDARD, bytes)
}

/// Relies on base64's `STANDARD` engine `decode`.
#[verifier::external_body]
fn base64_decode(text: &str) -> (r: Option<Vec<u8>>)
    ensures
        match r {
            Some(b) => base64_decoded(text@) == Some(b@),
            None => base64_decoded(text@) is None,
        },
{
    base64::Engine::decode(&base64::engine::general_purpose::STANDARD, text).ok()
}

pub open spec fn starts_with(b: Seq<u8>, p: Seq<u8>) -> bool {
    b.len() >= p.len() && b.subrange(0, p.len() as int) == p
}

fn starts_with_exec(b: &[u8], p: &[u8]) -> (r: bool)
    ensures
        r == starts_with(b@, p@),
{
    if b.len() < p.len() {
        return false;
    }
    let mut i: usize = 0;
    while i < p.len()
        invariant
            b@.len() >= p@.len(),
            i <= p@.len(),
            forall|j: int| 0 <= j < i ==> b@[j] == p@[j],
        decreases p@.len() - i,
    {
        if b[i] != p[i] {
            assert(b@.subrange(0, p@.len() as int)[i as int] != p@[i as int]);
            return false;
        }
        i += 1;
    }
    assert(b@.subrange(0, p@.len() as int) =~= p@);
    true
}

/// MIME type of a logo, from the signature its bytes start with (PNG, JPEG,
/// SVG, GIF, WebP); anything else is taken for PNG.
pub open spec fn spec_logo_mime(b: Seq<u8>) -> Seq<char> {
    if starts_with(b, seq![0x89u8, 0x50u8, 0x4Eu8, 0x47u8]) {
        "image/png"@
    } else if starts_with(b, seq![0xFFu8, 0xD8u8]) {
        "image/jpeg"@
    } else if starts_with(b, seq![0x3Cu8, 0x73u8, 0x76u8, 0x67u8]) || starts_with(
        b,
        seq![0x3Cu8, 0x3Fu8, 0x78u8, 0x6Du8, 0x6Cu8],
    ) {
        "image/svg+xml"@
    } else if starts_with(b, seq![0x47u8, 0x49u8, 0x46u8, 0x38u8]) {
        "image/gif"@
    } else if starts_with(b, seq![0x52u8, 0x49u8, 0x46u8, 0x46u8]) {
        "image/webp"@
    } else {
        "image/png"@
    }
}

/// Sniffs the MIME type of logo bytes.
pub fn logo_mime(b: &[u8]) -> (r: &'static str)
    ensures
        r@ == spec_logo_mime(b@),
{
    let png: [u8; 4] = [0x89, 0x50, 0x4E, 0x47];
    let jpeg: [u8; 2] = [0xFF, 0xD8];
    let svg: [u8; 4] = [0x3C, 0x73, 0x76, 0x67];
    let xml: [u8; 5] = [0x3C, 0x3F, 0x78, 0x6D, 0x6C];
    let gif: [u8; 4] = [0x47, 0x49, 0x46, 0x38];
    let riff: [u8; 4] = [0x52, 0x49, 0x46, 0x46];
    assert(png@ =~= seq![0x89u8, 0x50u8, 0x4Eu8, 0x47u8]);
    assert(jpeg@ =~= seq![0xFFu8, 0xD8u8]);
    assert(svg@ =~= seq![0x3Cu8, 0x73u8, 0x76u8, 0x67u8]);
    assert(xml@ =~= seq![0x3Cu8, 0x3Fu8, 0x78u8, 0x6Du8, 0x6Cu8]);
    assert(gif@ =~= seq![0x47u8, 0x49u8, 0x46u8, 0x38u8]);
    assert(riff@ =~= seq![0x52u8, 0x49u8, 0x46u8, 0x46u8]);
    if starts_with_exec(b, png.as_slice()) {
        "image/png"
    } else if starts_with_exec(b, jpeg.as_slice()) {
        "image/jpeg"
    } else if starts_with_exec(b, svg.as_slice()) || starts_with_exec(b, xml.as_slice()) {
        "image/svg+xml"
    } else if starts_with_exec(b, gif.as_slice()) {
        "image/gif"
    } else if starts_with_exec(b, riff.as_slice()) {
        "image/webp"
    } else {
        "image/png"
    }
}

/// The SVG elements that put a logo at the centre of a `qr_size` document: a
/// rounded box of colour `bg` (15% padding, corners 15% of the box) and the
/// logo as a base64 data URI, both centred; lengths in hundredths, exact.
pub open spec fn spec_svg_logo_overlay(logo: Seq<u8>, qr_size: nat, pct: int, bg: [u8; 4]) -> Seq<char> {
    let p = clamp_pct(pct) as nat;
    let bx = fixed2(hundredths(qr_size * (1000 - 13 * p) as nat, 2000));
    let bs = fixed2(hundredths(qr_size * p * 13, 1000));
    let cr = fixed2(hundredths(qr_size * p * 39, 20000));
    let lx = fixed2(hundredths(qr_size * (100 - p) as nat, 200));
    let ls = fixed2(hundredths(qr_size * p, 100));
    "<rect x=\""@ + bx + "\" y=\""@ + bx + "\" width=\""@ + bs + "\" height=\""@ + bs + "\" rx=\""@ + cr
        + "\" ry=\""@ + cr + "\" fill=\""@ + hex_color(bg) + "\"/>\n<image x=\""@ + lx + "\" y=\""@ + lx
        + "\" width=\""@ + ls + "\" height=\""@ + ls + "\" href=\"data:"@ + spec_logo_mime(logo)
        + ";base64,"@ + base64_of(logo) + "\"/>"@
}

/// Builds the SVG elements that overlay a logo on a document `qr_size` pixels square.
pub fn svg_logo_overlay(logo_data: &[u8], qr_size: u32, logo_pct: u8, bg_color: [u8; 4]) -> (r: Result<String, RenderError>)
    requires
        logo_data@.len() <= usize::MAX / 2,
    ensures
        r == Ok::<String, RenderError>(r->Ok_0),
        r->Ok_0@ == spec_svg_logo_overlay(logo_data@, qr_size as nat, logo_pct as int, bg_color),
{
    let p: u128 = if logo_pct < 5 { 5 } else if logo_pct > 40 { 40 } else { logo_pct as u128 };
    let q = qr_size as u128;
    let ghost gq = qr_size as nat;
    let ghost gp = p as nat;
    assert(q * (1000 - 13 * p) <= 0x1_0000_0000 * 1000 && q * p * 39 <= 0x1_0000_0000 * 40 * 39
        && q * (100 - p) <= 0x1_0000_0000 * 100) by (nonlinear_arith)
        requires
            q <= 0xffff_ffff,
            5 <= p <= 40,
    ;
    let bx = (200 * (q * (1000 - 13 * p)) + 2000) / 4000;
    let bs = (200 * (q * p * 13) + 1000) / 2000;
    let cr = (200 * (q * p * 39) + 20000) / 40000;
    let lx = (200 * (q * (100 - p)) + 200) / 400;
    let ls = (200 * (q * p) + 100) / 200;
    let mut s = String::new();
    push_str(&mut s, "<rect x=\"");
    push_fixed2(&mut s, bx);
    push_str(&mut s, "\" y=\"");
    push_fixed2(&mut s, bx);
    push_str(&mut s, "\" width=\"");
    push_fixed2(&mut s, bs);
    push_str(&mut s, "\" height=\"");
    push_fixed2(&mut s, bs);
    push_str(&mut s, "\" rx=\"");
    push_fixed2(&mut s, cr);
    push_str(&mut s, "\" ry=\"");
    push_fixed2(&mut s, cr);
    push_str(&mut s, "\" fill=\"");
    let fill = hex_color_string(bg_color);
    push_str(&mut s, fill.as_str());
    push_str(&mut s, "\"/>\n<image x=\"");
    push_fixed2(&mut s, lx);
    push_str(&mut s, "\" y=\"");
    push_fixed2(&mut s, lx);
    push_str(&mut s, "\" width=\"");
    push_fixed2(&mut s, ls);
    push_str(&mut s, "\" height=\"");
    push_fixed2(&mut s, ls);
    push_str(&mut s, "\" href=\"data:");
    push_str(&mut s, logo_mime(logo_data));
    push_str(&mut s, ";base64,");
    let b64 = base64_encode(logo_data);
    push_str(&mut s, b64.as_str());
    push_str(&mut s, "\"/>");
    assert(s@ =~= spec_svg_logo_overlay(logo_data@, qr_size as nat, logo_pct as int, bg_color));
    Ok(s)
}

/// Unicode white space, as `str::trim` removes it.
pub open spec fn is_space(c: char) -> bool {
    let u = c as u32;
    ||| 9 <= u <= 13
    ||| u == 32
    ||| u == 0x85
    ||| u == 0xA0
    ||| u == 0x1680
    ||| 0x2000 <= u <= 0x200A
    ||| u == 0x2028
    ||| u == 0x2029
    ||| u == 0x202F
    ||| u == 0x205F
    ||| u == 0x3000
}

pub(crate) fn is_space_exec(c: char) -> (r: bool)
    ensures
        r == is_space(c),
{
    let u = c as u32;
    (9 <= u && u <= 13) || u == 32 || u == 0x85 || u == 0xA0 || u == 0x1680 || (0x2000 <= u && u
        <= 0x200A) || u == 0x2028 || u == 0x2029 || u == 0x202F || u == 0x205F || u == 0x3000
}

/// Index of the first `c` at or after `i`, or the length when there is none.
pub open spec fn find_char(s: Seq<char>, c: char, i: int) -> int
    decreases s.len() - i,
{
    if i < 0 || i >= s.len() {
        s.len() as int
    } else if s[i] == c {
        i
    } else {
        find_char(s, c, i + 1)
    }
}

/// Index of the first non-space character at or after `i`.
pub open spec fn skip_space(s: Seq<char>, i: int) -> int
    decreases s.len() - i,
{
    if 0 <= i < s.len() && is_space(s[i]) {
        skip_space(s, i + 1)
    } else {
        i
    }
}

/// End of `s[lo..j]` once trailing spaces are removed.
pub open spec fn back_space(s: Seq<char>, lo: int, j: int) -> int
    decreases j - lo,
{
    if lo < j <= s.len() && is_space(s[j - 1]) {
        back_space(s, lo, j - 1)
    } else {
        j
    }
}

/// Start of the base64 payload: after the first comma when the text before
/// it starts with `data:`, else the whole text.
pub open spec fn payload_start(s: Seq<char>) -> int {
    let p = find_char(s, ',', 0);
    if p < s.len() && p >= 5 && s[0] == 'd' && s[1] == 'a' && s[2] == 't' && s[3] == 'a' && s[4] == ':' {
        p + 1
    } else {
        0
    }
}

/// The base64 text of a logo: the payload of a data URI or the whole text,
/// with surrounding white space removed.
pub open spec fn logo_payload(s: Seq<char>) -> Seq<char> {
    let a = skip_space(s, payload_start(s));
    s.subrange(a, back_space(s, a, s.len() as int))
}

/// Decoding a logo yields the bytes of its base64 payload, or `LogoDecodeFailed`.
pub open spec fn spec_decode_logo_base64(s: Seq<char>) -> Result<Seq<u8>, RenderError> {
    match base64_decoded(logo_payload(s)) {
        Some(b) => Ok(b),
        None => Err(RenderError::LogoDecodeFailed),
    }
}

/// Decodes a logo given as base64, with or without a `data:<mime>;base64,` prefix.
pub fn decode_logo_base64(logo: &str) -> (r: Result<Vec<u8>, RenderError>)
    ensures
        match r {
            Ok(b) => spec_decode_logo_base64(logo@) == Ok::<Seq<u8>, RenderError>(b@),
            Err(e) => spec_decode_logo_base64(logo@) == Err::<Seq<u8>, RenderError>(e),
        },
{
    let cs = str_chars(logo);
    let ghost s = logo@;
    let n = cs.len();
    let mut p: usize = 0;
    while p < n && cs[p] != ','
        invariant
            cs@ == s,
            n == s.len(),
            p <= n,
            find_char(s, ',', 0) == find_char(s, ',', p as int),
        decreases n - p,
    {
        p += 1;
    }
    let start: usize = if p < n && p >= 5 && cs[0] == 'd' && cs[1] == 'a' && cs[2] == 't' && cs[3] == 'a'
        && cs[4] == ':' {
        p + 1
    } else {
        0
    };
    assert(start == payload_start(s));
    let mut a = start;
    while a < n && is_space_exec(cs[a])
        invariant
            cs@ == s,
            n == s.len(),
            start <= a <= n,
            skip_space(s, start as int) == skip_space(s, a as int),
        decreases n - a,
    {
        a += 1;
    }
    let mut b = n;
    while b > a && is_space_exec(cs[b - 1])
        invariant
            cs@ == s,
            n == s.len(),
            a <= b <= n,
            back_space(s, a as int, n as int) == back_space(s, a as int, b as int),
        decreases b - a,
    {
        b -= 1;
    }
    let mut payload = String::new();
    push_chars(&mut payload, &cs, a, b);
    assert(payload@ =~= logo_payload(s));
    match base64_decode(payload.as_str()) {
        Some(bytes) => Ok(bytes),
        None => Err(RenderError::LogoDecodeFailed),
    }
}

/// `data:<mime>;base64,<payload>`.
pub open spec fn spec_data_uri(mime: Seq<char>, bytes: Seq<u8>) -> Seq<char> {
    "data:"@ + mime + ";base64,"@ + base64_of(bytes)
}

/// Wraps bytes in a base64 data URI of the given MIME type.
pub fn data_uri(mime: &str, bytes: &[u8]) -> (r: String)
    requires
        bytes@.len() <= usize::MAX / 2,
    ensures
        r@ == spec_data_uri(mime@, bytes@),
{
    let mut s = String::new();
    push_str(&mut s, "data:");
    push_str(&mut s, mime);
    push_str(&mut s, ";base64,");
    let b64 = base64_encode(bytes);
    push_str(&mut s, b64.as_str());
    assert(s@ =~= spec_data_uri(mime@, bytes@));
    s
}

} // verus!
