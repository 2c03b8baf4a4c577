//! Rendering options: module style, error-correction level, colours and errors.

use vstd::prelude::*;

use crate::text::str_chars;

verus! {

/// Module shape style.
#[derive(Clone, Copy, Debug, PartialEq, Eq, Structural)]
pub enum QrStyle {
    Square,
    Rounded,
    Dots,
}

/// QR error-correction level, from least to most redundancy.
#[derive(Clone, Copy, Debug, PartialEq, Eq, Structural)]
pub enum EcLevel {
    L,
    M,
    Q,
    H,
}

/// Options of one render call. Colours are RGBA.
#[derive(Clone, Copy, Debug)]
pub struct QrOptions {
    pub size: u32,
    pub fg_color: [u8; 4],
    pub bg_color: [u8; 4],
    pub error_correction: EcLevel,
    pub style: QrStyle,
}

/// Why a render call failed.
#[derive(Clone, Copy, Debug, PartialEq, Eq, Structural)]
pub enum RenderError {
    /// A colour string is not `#RRGGBB` or `#RRGGBBAA`.
    ColorParse,
    /// The text does not fit in any QR version at the requested level.
    DataTooLong,
    /// Serialising the image failed.
    EncodingFailed,
    /// The logo is not valid base64 or not a recognised image.
    LogoDecodeFailed,
    /// A logo was requested for an output format that cannot carry one.
    UnsupportedCombination,
}

/// ASCII upper-case letters mapped to lower case; every other character kept.
pub open spec fn ascii_lower(c: char) -> char {
    if 'A' <= c <= 'Z' {
        (((c as u32) + 32) as u8) as char
    } else {
        c
    }
}

/// ASCII lower-case letters mapped to upper case; every other character kept.
pub open spec fn ascii_upper(c: char) -> char {
    if 'a' <= c <= 'z' {
        (((c as u32) - 32) as u8) as char
    } else {
        c
    }
}

/// Whether `s` equals the lower-case word `w` once its letters are lower-cased.
pub open spec fn lower_eq(s: Seq<char>, w: Seq<char>) -> bool {
    s.len() == w.len() && forall|i: int| 0 <= i < s.len() ==> ascii_lower(s[i]) == w[i]
}

fn lower_exec(c: char) -> (r: char)
    ensures
        r == ascii_lower(c),
{
    if 'A' <= c && c <= 'Z' {
        (((c as u32) + 32) as u8) as char
    } else {
        c
    }
}

fn lower_eq_exec(s: &Vec<char>, w: &[char]) -> (r: bool)
    ensures
        r == lower_eq(s@, w@),
{
    if s.len() != w.len() {
        return false;
    }
    let mut i: usize = 0;
    while i < s.len()
        invariant
            s@.len() == w@.len(),
            i <= s@.len(),
            forall|j: int| 0 <= j < i ==> ascii_lower(s@[j]) == w@[j],
        decreases s@.len() - i,
    {
        if lower_exec(s[i]) != w[i] {
            return false;
        }
        i += 1;
    }
    true
}

pub open spec fn rounded_word() -> Seq<char> {
    seq!['r', 'o', 'u', 'n', 'd', 'e', 'd']
}

pub open spec fn dots_word() -> Seq<char> {
    seq!['d', 'o', 't', 's']
}

/// `rounded` and `dots` in any letter case name their styles; anything else is
/// `Square`. No character outside ASCII lower-cases onto a letter of these
/// names, so ASCII case folding decides exactly as full Unicode folding would.
pub open spec fn spec_parse_style(s: Seq<char>) -> QrStyle {
    if lower_eq(s, rounded_word()) {
        QrStyle::Rounded
    } else if lower_eq(s, dots_word()) {
        QrStyle::Dots
    } else {
        QrStyle::Square
    }
}

impl QrStyle {
    /// Reads a style name, case-insensitively; unknown names give `Square`.
    pub fn parse(s: &str) -> (r: QrStyle)
        ensures
            r == spec_parse_style(s@),
    {
        let cs = str_chars(s);
        let rounded: [char; 7] = ['r', 'o', 'u', 'n', 'd', 'e', 'd'];
        let dots: [char; 4] = ['d', 'o', 't', 's'];
        assert(rounded@ =~= rounded_word());
        assert(dots@ =~= dots_word());
        if lower_eq_exec(&cs, rounded.as_slice()) {
            QrStyle::Rounded
        } else if lower_eq_exec(&cs, dots.as_slice()) {
            QrStyle::Dots
        } else {
            QrStyle::Square
        }
    }
}

/// `L`, `M`, `Q` or `H` in either case name their levels; anything else is `M`
/// (no character outside ASCII upper-cases onto one of these letters alone).
pub open spec fn spec_parse_ec_level(s: Seq<char>) -> EcLevel {
    if s.len() == 1 && ascii_upper(s[0]) == 'L' {
        EcLevel::L
    } else if s.len() == 1 && ascii_upper(s[0]) == 'Q' {
        EcLevel::Q
    } else if s.len() == 1 && ascii_upper(s[0]) == 'H' {
        EcLevel::H
    } else {
        EcLevel::M
    }
}

/// Reads an error-correction level name, case-insensitively; unknown names give `M`.
pub fn parse_ec_level(level: &str) -> (r: EcLevel)
    ensures
        r == spec_parse_ec_level(level@),
{
    let cs = str_chars(level);
    if cs.len() != 1 {
        return EcLevel::M;
    }
    let c = if 'a' <= cs[0] && cs[0] <= 'z' {
        (((cs[0] as u32) - 32) as u8) as char
    } else {
        cs[0]
    };
    if c == 'L' {
        EcLevel::L
    } else if c == 'Q' {
        EcLevel::Q
    } else if c == 'H' {
        EcLevel::H
    } else {
        EcLevel::M
    }
}

/// A logo covers modules, so it forces the highest level; otherwise the request stands.
pub open spec fn spec_select_error_correction(requested: EcLevel, logo_present: bool) -> EcLevel {
    if logo_present {
        EcLevel::H
    } else {
        requested
    }
}

/// Error-correction level to encode with.
pub fn select_error_correction(requested: EcLevel, logo_present: bool) -> (r: EcLevel)
    ensures
        r == spec_select_error_correction(requested, logo_present),
{
    if logo_present {
        EcLevel::H
    } else {
        requested
    }
}

/// Value of a hexadecimal digit in either case, or -1.
pub open spec fn hex_val(c: char) -> int {
    if '0' <= c <= '9' {
        c as u32 - 48
    } else if 'a' <= c <= 'f' {
        c as u32 - 87
    } else if 'A' <= c <= 'F' {
        c as u32 - 55
    } else {
        -1
    }
}

fn hex_val_exec(c: char) -> (r: Option<u8>)
    ensures
        match r {
            Some(v) => v as int == hex_val(c) && v < 16,
            None => hex_val(c) == -1,
        },
{
    if '0' <= c && c <= '9' {
        Some((c as u32 - 48) as u8)
    } else if 'a' <= c && c <= 'f' {
        Some((c as u32 - 87) as u8)
    } else if 'A' <= c && c <= 'F' {
        Some((c as u32 - 55) as u8)
    } else {
        None
    }
}

/// Index of the first character at or after `i` that is not `#`.
pub open spec fn skip_hashes(s: Seq<char>, i: int) -> int
    decreases s.len() - i,
{
    if 0 <= i < s.len() && s[i] == '#' {
        skip_hashes(s, i + 1)
    } else {
        i
    }
}

/// The byte written by the two hex digits at `i` and `i + 1`.
pub open spec fn hex_byte(d: Seq<char>, i: int) -> u8 {
    (16 * hex_val(d[i]) + hex_val(d[i + 1])) as u8
}

/// A colour is written as six or eight hex digits after any leading `#`
/// characters: red, green, blue and an optional alpha that defaults to opaque.
pub open spec fn spec_parse_hex_color(s: Seq<char>) -> Result<Seq<u8>, RenderError> {
    let d = s.subrange(skip_hashes(s, 0), s.len() as int);
    if (d.len() == 6 || d.len() == 8) && forall|i: int| 0 <= i < d.len() ==> hex_val(#[trigger] d[i]) >= 0 {
        Ok(seq![hex_byte(d, 0), hex_byte(d, 2), hex_byte(d, 4), if d.len() == 8 { hex_byte(d, 6) } else { 255u8 }])
    } else {
        Err(RenderError::ColorParse)
    }
}

fn hex_byte_exec(cs: &Vec<char>, i: usize) -> (r: Option<u8>)
    requires
        i + 1 < cs@.len(),
    ensures
        match r {
            Some(b) => hex_val(cs@[i as int]) >= 0 && hex_val(cs@[i + 1]) >= 0 && b == (16 * hex_val(cs@[i as int]) + hex_val(cs@[i + 1])) as u8,
            None => hex_val(cs@[i as int]) < 0 || hex_val(cs@[i + 1]) < 0,
        },
{
    let _n = cs.len();
    let hi = hex_val_exec(cs[i])?;
    let lo = hex_val_exec(cs[i + 1])?;
    Some(16 * hi + lo)
}

/// Parses `#RRGGBB` or `#RRGGBBAA` (case-insensitive) into RGBA bytes.
pub fn parse_hex_color(hex: &str) -> (r: Result<[u8; 4], RenderError>)
    ensures
        match r {
            Ok(c) => spec_parse_hex_color(hex@) == Ok::<Seq<u8>, RenderError>(c@),
            Err(e) => spec_parse_hex_color(hex@) == Err::<Seq<u8>, RenderError>(e),
        },
{
    let cs = str_chars(hex);
    let ghost s = hex@;
    let n = cs.len();
    let mut start: usize = 0;
    while start < n && cs[start] == '#'
        invariant
            cs@ == s,
            n == s.len(),
            start <= n,
            skip_hashes(s, 0) == skip_hashes(s, start as int),
        decreases n - start,
    {
        start += 1;
    }
    assert(skip_hashes(s, start as int) == start as int);
    let ghost d = s.subrange(start as int, n as int);
    let len = n - start;
    if len != 6 && len != 8 {
        return Err(RenderError::ColorParse);
    }
    let mut digits: Vec<char> = Vec::new();
    let mut i = start;
    while i < n
        invariant
            cs@ == s,
            n == s.len(),
            start <= i <= n,
            d == s.subrange(start as int, n as int),
            digits@ == d.subrange(0, i - start),
        decreases n - i,
    {
        digits.push(cs[i]);
        assert(d.subrange(0, i + 1 - start) =~= d.subrange(0, i - start).push(cs@[i as int]));
        i += 1;
    }
    assert(digits@ =~= d);
    let mut k: usize = 0;
    while k < len
        invariant
            digits@ == d,
            d == hex@.subrange(skip_hashes(hex@, 0), hex@.len() as int),
            len == d.len(),
            k <= len,
            forall|j: int| 0 <= j < k ==> hex_val(#[trigger] d[j]) >= 0,
        decreases len - k,
    {
        if hex_val_exec(digits[k]).is_none() {
            assert(hex_val(d[k as int]) < 0);
            assert(!(forall|i: int| 0 <= i < d.len() ==> hex_val(#[trigger] d[i]) >= 0));
            return Err(RenderError::ColorParse);
        }
        k += 1;
    }
    let r = match hex_byte_exec(&digits, 0) {
        Some(b) => b,
        None => return Err(RenderError::ColorParse),
    };
    let g = match hex_byte_exec(&digits, 2) {
        Some(b) => b,
        None => return Err(RenderError::ColorParse),
    };
    let b = match hex_byte_exec(&digits, 4) {
        Some(b) => b,
        None => return Err(RenderError::ColorParse),
    };
    let a = if len == 8 {
        match hex_byte_exec(&digits, 6) {
            Some(b) => b,
            None => return Err(RenderError::ColorParse),
        }
    } else {
        255
    };
    let c = [r, g, b, a];
    assert(c@ =~= seq![hex_byte(d, 0), hex_byte(d, 2), hex_byte(d, 4), if d.len() == 8 { hex_byte(d, 6) } else { 255u8 }]);
    Ok(c)
}

/// Output format of a render call.
#[derive(Clone, Copy, Debug, PartialEq, Eq, Structural)]
pub enum OutputFormat {
    Png,
    Svg,
    Pdf,
}

pub open spec fn spec_mime_type(f: OutputFormat) -> Seq<char> {
    match f {
        OutputFormat::Png => "image/png"@,
        OutputFormat::Svg => "image/svg+xml"@,
        OutputFormat::Pdf => "application/pdf"@,
    }
}

/// MIME type of an output format.
pub fn mime_type(f: OutputFormat) -> (r: &'static str)
    ensures
        r@ == spec_mime_type(f),
{
    match f {
        OutputFormat::Png => "image/png",
        OutputFormat::Svg => "image/svg+xml",
        OutputFormat::Pdf => "application/pdf",
    }
}

/// PDF output carries no logo: asking for one is refused rather than ignored.
pub fn check_logo_support(f: OutputFormat, logo_present: bool) -> (r: Result<(), RenderError>)
    ensures
        r is Err <==> (f == OutputFormat::Pdf && logo_present),
        r is Err ==> r == Err::<(), RenderError>(RenderError::UnsupportedCombination),
{
    if logo_present && f == OutputFormat::Pdf {
        Err(RenderError::UnsupportedCombination)
    } else {
        Ok(())
    }
}

} // verus!
