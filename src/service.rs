//! Request-level rules of the QR service: reading credentials and client
//! addresses from header values, validating generate requests and short
//! codes, building template URLs, paging, link expiry and API-key hashing.

use vstd::prelude::*;
use vstd::string::*;

use crate::models::GenerateRequest;
use crate::style::{
    parse_ec_level, parse_hex_color, spec_parse_ec_level, spec_parse_hex_color, spec_parse_style,
    OutputFormat, QrOptions, QrStyle,
};
use crate::embed::{back_space, skip_space};
use crate::text::{hex2, push_chars, push_hex2, push_str, str_chars};

verus! {

/// Why no API key could be read from a request.
#[derive(Clone, Copy, Debug, PartialEq, Eq, Structural)]
pub enum AuthError {
    /// An `Authorization` header that is not `Bearer <key>`.
    InvalidFormat,
    /// Neither `Authorization` nor `X-API-Key` is present.
    Missing,
}

pub open spec fn bearer_prefix() -> Seq<char> {
    seq!['B', 'e', 'a', 'r', 'e', 'r', ' ']
}

/// The key of a request: the `Authorization` header must read `Bearer <key>`;
/// without it the `X-API-Key` header is the key.
pub open spec fn spec_extract_api_key(authorization: Option<Seq<char>>, api_key: Option<Seq<char>>) -> Result<Seq<char>, AuthError> {
    match authorization {
        Some(a) => if a.len() >= 7 && a.subrange(0, 7) == bearer_prefix() {
            Ok(a.subrange(7, a.len() as int))
        } else {
            Err(AuthError::InvalidFormat)
        },
        None => match api_key {
            Some(k) => Ok(k),
            None => Err(AuthError::Missing),
        },
    }
}

pub open spec fn opt_view(o: Option<&str>) -> Option<Seq<char>> {
    match o {
        Some(s) => Some(s@),
        None => None,
    }
}

/// Reads the API key from the `Authorization` and `X-API-Key` header values.
pub fn extract_api_key(authorization: Option<&str>, api_key: Option<&str>) -> (r: Result<String, AuthError>)
    ensures
        match r {
            Ok(k) => spec_extract_api_key(opt_view(authorization), opt_view(api_key)) == Ok::<Seq<char>, AuthError>(k@),
            Err(e) => spec_extract_api_key(opt_view(authorization), opt_view(api_key)) == Err::<Seq<char>, AuthError>(e),
        },
{
    match authorization {
        Some(a) => {
            let cs = str_chars(a);
            let prefix: [char; 7] = ['B', 'e', 'a', 'r', 'e', 'r', ' '];
            assert(prefix@ =~= bearer_prefix());
            if cs.len() < 7 {
                return Err(AuthError::InvalidFormat);
            }
            let mut i: usize = 0;
            while i < 7
                invariant
                    cs@ == a@,
                    authorization == Some(a),
                    cs@.len() >= 7,
                    prefix@ == bearer_prefix(),
                    i <= 7,
                    forall|j: int| 0 <= j < i ==> cs@[j] == prefix@[j],
                decreases 7 - i,
            {
                if cs[i] != prefix[i] {
                    assert(a@.subrange(0, 7)[i as int] != bearer_prefix()[i as int]);
                    return Err(AuthError::InvalidFormat);
                }
                i += 1;
            }
            assert(a@.subrange(0, 7) =~= bearer_prefix());
            let mut key = String::new();
            push_chars(&mut key, &cs, 7, cs.len());
            Ok(key)
        },
        None => match api_key {
            Some(k) => Ok(k.to_owned()),
            None => Err(AuthError::Missing),
        },
    }
}

/// Text with surrounding white space removed.
pub open spec fn trimmed(s: Seq<char>) -> Seq<char> {
    let a = skip_space(s, 0);
    s.subrange(a, back_space(s, a, s.len() as int))
}

/// Index of the first comma, or the length.
pub open spec fn comma_index(s: Seq<char>, i: int) -> int
    decreases s.len() - i,
{
    if i < 0 || i >= s.len() {
        s.len() as int
    } else if s[i] == ',' {
        i
    } else {
        comma_index(s, i + 1)
    }
}

/// The client address: the first entry of `X-Forwarded-For` (trimmed), else
/// `X-Real-Ip`, else the socket address, else `unknown`.
pub open spec fn spec_client_ip(forwarded_for: Option<Seq<char>>, real_ip: Option<Seq<char>>, remote: Option<Seq<char>>) -> Seq<char> {
    match forwarded_for {
        Some(f) => trimmed(f.subrange(0, comma_index(f, 0))),
        None => match real_ip {
            Some(r) => r,
            None => match remote {
                Some(a) => a,
                None => "unknown"@,
            },
        },
    }
}

fn trim_chars(cs: &Vec<char>, from: usize, to: usize) -> (r: String)
    requires
        from <= to <= cs@.len(),
    ensures
        r@ == trimmed(cs@.subrange(from as int, to as int)),
{
    let ghost s = cs@.subrange(from as int, to as int);
    let mut a = from;
    while a < to && crate::embed::is_space_exec(cs[a])
        invariant
            from <= a <= to,
            to <= cs@.len(),
            s == cs@.subrange(from as int, to as int),
            skip_space(s, 0) == skip_space(s, a - from),
        decreases to - a,
    {
        a += 1;
    }
    let mut b = to;
    while b > a && crate::embed::is_space_exec(cs[b - 1])
        invariant
            from <= a <= b <= to,
            to <= cs@.len(),
            s == cs@.subrange(from as int, to as int),
            skip_space(s, 0) == a - from,
            back_space(s, a - from, s.len() as int) == back_space(s, a - from, b - from),
        decreases b - a,
    {
        b -= 1;
    }
    let mut out = String::new();
    push_chars(&mut out, cs, a, b);
    assert(out@ =~= trimmed(s));
    out
}

/// Picks the client address from the forwarding headers and the socket address.
pub fn client_ip(forwarded_for: Option<&str>, real_ip: Option<&str>, remote: Option<&str>) -> (r: String)
    ensures
        r@ == spec_client_ip(opt_view(forwarded_for), opt_view(real_ip), opt_view(remote)),
{
    match forwarded_for {
        Some(f) => {
            let cs = str_chars(f);
            let mut p: usize = 0;
            while p < cs.len() && cs[p] != ','
                invariant
                    cs@ == f@,
                    p <= cs@.len(),
                    comma_index(f@, 0) == comma_index(f@, p as int),
                decreases cs@.len() - p,
            {
                p += 1;
            }
            trim_chars(&cs, 0, p)
        },
        None => match real_ip {
            Some(r) => r.to_owned(),
            None => match remote {
                Some(a) => a.to_owned(),
                None => String::from_str("unknown"),
            },
        },
    }
}

/// One `name=value` query parameter when the value is given.
pub open spec fn utm_param(name: Seq<char>, value: Option<Seq<char>>) -> Seq<Seq<char>> {
    match value {
        Some(v) => seq![name + "="@ + v],
        None => Seq::empty(),
    }
}

/// Parameters joined with `&`.
pub open spec fn join_params(ps: Seq<Seq<char>>) -> Seq<char>
    decreases ps.len(),
{
    if ps.len() == 0 {
        Seq::empty()
    } else if ps.len() == 1 {
        ps[0]
    } else {
        join_params(ps.drop_last()) + "&"@ + ps.last()
    }
}

/// The URL with the given UTM parameters appended, after `?` or, when the URL
/// already has a query, after `&`.
pub open spec fn spec_url_with_utm(url: Seq<char>, source: Option<Seq<char>>, medium: Option<Seq<char>>, campaign: Option<Seq<char>>) -> Seq<char> {
    let ps = utm_param("utm_source"@, source) + utm_param("utm_medium"@, medium) + utm_param("utm_campaign"@, campaign);
    if ps.len() == 0 {
        url
    } else {
        url + (if url.contains('?') {
            "&"@
        } else {
            "?"@
        }) + join_params(ps)
    }
}

fn contains_char(cs: &Vec<char>, c: char) -> (r: bool)
    ensures
        r == cs@.contains(c),
{
    let mut i: usize = 0;
    while i < cs.len()
        invariant
            i <= cs@.len(),
            forall|j: int| 0 <= j < i ==> cs@[j] != c,
        decreases cs@.len() - i,
    {
        if cs[i] == c {
            return true;
        }
        i += 1;
    }
    false
}

fn push_param(out: &mut String, first: bool, name: &str, value: &str)
    ensures
        final(out)@ == old(out)@ + (if first { Seq::empty() } else { "&"@ }) + name@ + "="@ + value@,
{
    if !first {
        push_str(out, "&");
    }
    push_str(out, name);
    push_str(out, "=");
    push_str(out, value);
    assert(final(out)@ =~= old(out)@ + (if first { Seq::empty() } else { "&"@ }) + name@ + "="@ + value@);
}

/// Appends UTM parameters to a URL.
pub fn url_with_utm(url: &str, source: Option<&str>, medium: Option<&str>, campaign: Option<&str>) -> (r: String)
    ensures
        r@ == spec_url_with_utm(url@, opt_view(source), opt_view(medium), opt_view(campaign)),
{
    let ghost ps = utm_param("utm_source"@, opt_view(source)) + utm_param("utm_medium"@, opt_view(medium))
        + utm_param("utm_campaign"@, opt_view(campaign));
    let mut params = String::new();
    let mut count: usize = 0;
    let ghost mut done: Seq<Seq<char>> = Seq::empty();
    if let Some(v) = source {
        push_param(&mut params, true, "utm_source", v);
        proof {
            done = done.push("utm_source"@ + "="@ + v@);
            assert(params@ =~= join_params(done));
        }
        count += 1;
    }
    assert(done =~= utm_param("utm_source"@, opt_view(source)));
    if let Some(v) = medium {
        push_param(&mut params, count == 0, "utm_medium", v);
        proof {
            let prev = done;
            done = done.push("utm_medium"@ + "="@ + v@);
            assert(done.drop_last() =~= prev);
            assert(params@ =~= join_params(done));
        }
        count += 1;
    }
    assert(done =~= utm_param("utm_source"@, opt_view(source)) + utm_param("utm_medium"@, opt_view(medium)));
    if let Some(v) = campaign {
        push_param(&mut params, count == 0, "utm_campaign", v);
        proof {
            let prev = done;
            done = done.push("utm_campaign"@ + "="@ + v@);
            assert(done.drop_last() =~= prev);
            assert(params@ =~= join_params(done));
        }
        count += 1;
    }
    assert(done =~= ps);
    let mut out = String::new();
    push_str(&mut out, url);
    if count == 0 {
        return out;
    }
    let cs = str_chars(url);
    if contains_char(&cs, '?') {
        push_str(&mut out, "&");
    } else {
        push_str(&mut out, "?");
    }
    push_str(&mut out, params.as_str());
    out
}

/// Whether the character is alphabetic or numeric in Unicode.
pub uninterp spec fn alphanumeric(c: char) -> bool;

/// Relies on `char::is_alphanumeric`.
#[verifier::external_body]
fn is_alphanumeric(c: char) -> (r: bool)
    ensures
        r == alphanumeric(c),
{
    c.is_alphanumeric()
}

/// Why a requested short code is refused.
#[derive(Clone, Copy, Debug, PartialEq, Eq, Structural)]
pub enum ShortCodeError {
    /// Shorter than 3 or longer than 32 bytes.
    Length,
    /// A character other than a letter, a digit, `-` or `_`.
    Characters,
}

pub open spec fn short_code_char(c: char) -> bool {
    alphanumeric(c) || c == '-' || c == '_'
}

/// A short code has 3 to 32 bytes, all of them letters, digits, `-` or `_`.
pub open spec fn spec_validate_short_code(bytes: nat, s: Seq<char>) -> Result<(), ShortCodeError> {
    if bytes < 3 || bytes > 32 {
        Err(ShortCodeError::Length)
    } else if forall|i: int| 0 <= i < s.len() ==> short_code_char(#[trigger] s[i]) {
        Ok(())
    } else {
        Err(ShortCodeError::Characters)
    }
}

/// Checks a custom short code.
pub fn validate_short_code(code: &str) -> (r: Result<(), ShortCodeError>)
    ensures
        r == spec_validate_short_code(code.spec_bytes().len(), code@),
{
    let n = code.as_bytes().len();
    if n < 3 || n > 32 {
        return Err(ShortCodeError::Length);
    }
    let cs = str_chars(code);
    let mut i: usize = 0;
    while i < cs.len()
        invariant
            cs@ == code@,
            3 <= code.spec_bytes().len() <= 32,
            i <= cs@.len(),
            forall|j: int| 0 <= j < i ==> short_code_char(#[trigger] cs@[j]),
        decreases cs@.len() - i,
    {
        let c = cs[i];
        if !(is_alphanumeric(c) || c == '-' || c == '_') {
            assert(!short_code_char(code@[i as int]));
            return Err(ShortCodeError::Characters);
        }
        i += 1;
    }
    Ok(())
}

/// Page number (at least 1), page length (1 to 100, 20 by default) and the
/// number of items before the page.
pub open spec fn spec_page_window(page: Option<usize>, per_page: Option<usize>) -> (int, int, int) {
    let p = match page {
        Some(v) => if v >= 1 { v as int } else { 1 },
        None => 1,
    };
    let n = match per_page {
        Some(v) => if v < 1 { 1 } else if v > 100 { 100 } else { v as int },
        None => 20,
    };
    (p, n, (p - 1) * n)
}

/// Computes the paging of a listing.
pub fn page_window(page: Option<usize>, per_page: Option<usize>) -> (r: (usize, usize, usize))
    requires
        spec_page_window(page, per_page).2 <= usize::MAX,
    ensures
        (r.0 as int, r.1 as int, r.2 as int) == spec_page_window(page, per_page),
{
    let p: usize = match page {
        Some(v) => if v >= 1 { v } else { 1 },
        None => 1,
    };
    let n: usize = match per_page {
        Some(v) => if v < 1 { 1 } else if v > 100 { 100 } else { v },
        None => 20,
    };
    (p, n, (p - 1) * n)
}

/// Whether `a` comes after `b` in lexicographic order of characters.
pub open spec fn lex_after(a: Seq<char>, b: Seq<char>) -> bool
    decreases a.len(),
{
    if a.len() == 0 {
        false
    } else if b.len() == 0 {
        true
    } else if a[0] != b[0] {
        (a[0] as u32) > (b[0] as u32)
    } else {
        lex_after(a.drop_first(), b.drop_first())
    }
}

/// A link has expired when the current time, written `YYYY-MM-DD HH:MM:SS`,
/// sorts after its expiry time.
pub fn is_expired(now: &str, expires_at: &str) -> (r: bool)
    ensures
        r == lex_after(now@, expires_at@),
{
    let a = str_chars(now);
    let b = str_chars(expires_at);
    let mut i: usize = 0;
    assert(a@.subrange(0, a@.len() as int) =~= now@);
    assert(b@.subrange(0, b@.len() as int) =~= expires_at@);
    while i < a.len() && i < b.len() && a[i] == b[i]
        invariant
            a@ == now@,
            b@ == expires_at@,
            i <= a@.len(),
            i <= b@.len(),
            lex_after(now@, expires_at@) == lex_after(a@.subrange(i as int, a@.len() as int), b@.subrange(i as int, b@.len() as int)),
        decreases a@.len() - i,
    {
        proof {
            let sa = a@.subrange(i as int, a@.len() as int);
            let sb = b@.subrange(i as int, b@.len() as int);
            assert(sa.drop_first() =~= a@.subrange(i + 1, a@.len() as int));
            assert(sb.drop_first() =~= b@.subrange(i + 1, b@.len() as int));
        }
        i += 1;
    }
    let ghost sa = a@.subrange(i as int, a@.len() as int);
    let ghost sb = b@.subrange(i as int, b@.len() as int);
    if i == a.len() {
        assert(sa.len() == 0);
        false
    } else if i == b.len() {
        assert(sb.len() == 0);
        true
    } else {
        assert(sa[0] == a@[i as int] && sb[0] == b@[i as int]);
        (a[i] as u32) > (b[i] as u32)
    }
}

/// Lower-case hex notation of bytes, two digits each.
pub open spec fn hex_string(b: Seq<u8>) -> Seq<char>
    decreases b.len(),
{
    if b.len() == 0 {
        Seq::empty()
    } else {
        hex_string(b.drop_last()) + hex2(b.last())
    }
}

/// The SHA-256 digest of the bytes.
pub uninterp spec fn sha256_of(bytes: Seq<u8>) -> Seq<u8>;

/// Relies on sha2's `Sha256::digest`, whose output is 32 bytes.
#[verifier::external_body]
fn sha256(bytes: &[u8]) -> (r: Vec<u8>)
    ensures
        r@ == sha256_of(bytes@),
        r@.len() == 32,
{
    <sha2::Sha256 as sha2::Digest>::digest(bytes).to_vec()
}

/// Stored form of an API key: the lower-case hex SHA-256 of its UTF-8 bytes.
pub fn hash_key(key: &str) -> (r: String)
    ensures
        r@ == hex_string(sha256_of(key.spec_bytes())),
        r@.len() == 64,
{
    let d = sha256(key.as_bytes());
    let mut out = String::new();
    let mut i: usize = 0;
    while i < d.len()
        invariant
            d@.len() == 32,
            i <= 32,
            out@ == hex_string(d@.subrange(0, i as int)),
            out@.len() == 2 * i,
        decreases 32 - i,
    {
        push_hex2(&mut out, d[i]);
        assert(d@.subrange(0, i + 1).drop_last() =~= d@.subrange(0, i as int));
        i += 1;
    }
    assert(d@.subrange(0, 32) =~= d@);
    out
}

/// Why a request is refused.
#[derive(Clone, Copy, Debug, PartialEq, Eq, Structural)]
pub enum RequestError {
    EmptyData,
    InvalidSize,
    InvalidFgColor,
    InvalidBgColor,
    InvalidFormat,
    EmptyBatch,
    BatchTooLarge,
    EmptyTargetUrl,
    InvalidUrl,
}

pub open spec fn spec_format_name(s: Seq<char>) -> Option<OutputFormat> {
    if s == seq!['p', 'n', 'g'] {
        Some(OutputFormat::Png)
    } else if s == seq!['s', 'v', 'g'] {
        Some(OutputFormat::Svg)
    } else if s == seq!['p', 'd', 'f'] {
        Some(OutputFormat::Pdf)
    } else {
        None
    }
}

fn eq_chars(cs: &Vec<char>, w: &[char]) -> (r: bool)
    ensures
        r == (cs@ == w@),
{
    if cs.len() != w.len() {
        return false;
    }
    let mut i: usize = 0;
    while i < cs.len()
        invariant
            cs@.len() == w@.len(),
            i <= cs@.len(),
            forall|j: int| 0 <= j < i ==> cs@[j] == w@[j],
        decreases cs@.len() - i,
    {
        if cs[i] != w[i] {
            return false;
        }
        i += 1;
    }
    assert(cs@ =~= w@);
    true
}

/// Reads an output format name: `png`, `svg` or `pdf`.
pub fn format_name(s: &str) -> (r: Option<OutputFormat>)
    ensures
        r == spec_format_name(s@),
{
    let cs = str_chars(s);
    let png: [char; 3] = ['p', 'n', 'g'];
    let svg: [char; 3] = ['s', 'v', 'g'];
    let pdf: [char; 3] = ['p', 'd', 'f'];
    assert(png@ =~= seq!['p', 'n', 'g']);
    assert(svg@ =~= seq!['s', 'v', 'g']);
    assert(pdf@ =~= seq!['p', 'd', 'f']);
    if eq_chars(&cs, png.as_slice()) {
        Some(OutputFormat::Png)
    } else if eq_chars(&cs, svg.as_slice()) {
        Some(OutputFormat::Svg)
    } else if eq_chars(&cs, pdf.as_slice()) {
        Some(OutputFormat::Pdf)
    } else {
        None
    }
}

/// The checks of a generate request, in order: data present, size between 64
/// and 4096, both colours valid, a known format; then the render options.
pub open spec fn spec_prepare_generate(req: GenerateRequest) -> Result<(QrOptions, OutputFormat), RequestError> {
    if req.data@.len() == 0 {
        Err(RequestError::EmptyData)
    } else if req.size < 64 || req.size > 4096 {
        Err(RequestError::InvalidSize)
    } else {
        match (spec_parse_hex_color(req.fg_color@), spec_parse_hex_color(req.bg_color@)) {
            (Err(_), _) => Err(RequestError::InvalidFgColor),
            (Ok(_), Err(_)) => Err(RequestError::InvalidBgColor),
            (Ok(fg), Ok(bg)) => match spec_format_name(req.format@) {
                None => Err(RequestError::InvalidFormat),
                Some(f) => Ok(
                    (
                        QrOptions {
                            size: req.size,
                            fg_color: [fg[0], fg[1], fg[2], fg[3]],
                            bg_color: [bg[0], bg[1], bg[2], bg[3]],
                            error_correction: spec_parse_ec_level(req.error_correction@),
                            style: spec_parse_style(req.style@),
                        },
                        f,
                    ),
                ),
            },
        }
    }
}

/// Validates a generate request and derives its render options and format.
pub fn prepare_generate(req: &GenerateRequest) -> (r: Result<(QrOptions, OutputFormat), RequestError>)
    ensures
        match r {
            Ok((o, f)) => {
                &&& spec_prepare_generate(*req) matches Ok((so, sf))
                &&& so.size == o.size && so.fg_color@ == o.fg_color@ && so.bg_color@ == o.bg_color@
                &&& so.error_correction == o.error_correction && so.style == o.style && sf == f
            },
            Err(e) => spec_prepare_generate(*req) == Err::<(QrOptions, OutputFormat), RequestError>(e),
        },
{
    if req.data.as_str().is_empty() {
        return Err(RequestError::EmptyData);
    }
    if req.size < 64 || req.size > 4096 {
        return Err(RequestError::InvalidSize);
    }
    let fg = match parse_hex_color(req.fg_color.as_str()) {
        Ok(c) => c,
        Err(_) => return Err(RequestError::InvalidFgColor),
    };
    let bg = match parse_hex_color(req.bg_color.as_str()) {
        Ok(c) => c,
        Err(_) => return Err(RequestError::InvalidBgColor),
    };
    let f = match format_name(req.format.as_str()) {
        Some(f) => f,
        None => return Err(RequestError::InvalidFormat),
    };
    let o = QrOptions {
        size: req.size,
        fg_color: fg,
        bg_color: bg,
        error_correction: parse_ec_level(req.error_correction.as_str()),
        style: QrStyle::parse(req.style.as_str()),
    };
    proof {
        let ghost sf = spec_parse_hex_color(req.fg_color@);
        let ghost sb = spec_parse_hex_color(req.bg_color@);
        assert(sf->Ok_0 =~= fg@);
        assert(sb->Ok_0 =~= bg@);
        assert([sf->Ok_0[0], sf->Ok_0[1], sf->Ok_0[2], sf->Ok_0[3]]@ =~= fg@);
        assert([sb->Ok_0[0], sb->Ok_0[1], sb->Ok_0[2], sb->Ok_0[3]]@ =~= bg@);
    }
    Ok((o, f))
}

/// A batch holds 1 to 50 items.
pub fn check_batch_size(n: usize) -> (r: Result<(), RequestError>)
    ensures
        n == 0 ==> r == Err::<(), RequestError>(RequestError::EmptyBatch),
        n > 50 ==> r == Err::<(), RequestError>(RequestError::BatchTooLarge),
        1 <= n <= 50 ==> r is Ok,
{
    if n == 0 {
        Err(RequestError::EmptyBatch)
    } else if n > 50 {
        Err(RequestError::BatchTooLarge)
    } else {
        Ok(())
    }
}

/// The size of a batch item, held to 64 to 4096.
pub open spec fn clamp_size(size: u32) -> u32 {
    if size < 64 {
        64
    } else if size > 4096 {
        4096
    } else {
        size
    }
}

/// Options of a batch item: invalid colours fall back to black on white, the
/// size is clamped, and any format but `svg` gives PNG.
pub open spec fn spec_batch_item(req: GenerateRequest) -> (QrOptions, OutputFormat) {
    let fg = match spec_parse_hex_color(req.fg_color@) {
        Ok(c) => [c[0], c[1], c[2], c[3]],
        Err(_) => [0u8, 0u8, 0u8, 255u8],
    };
    let bg = match spec_parse_hex_color(req.bg_color@) {
        Ok(c) => [c[0], c[1], c[2], c[3]],
        Err(_) => [255u8, 255u8, 255u8, 255u8],
    };
    (
        QrOptions {
            size: clamp_size(req.size),
            fg_color: fg,
            bg_color: bg,
            error_correction: spec_parse_ec_level(req.error_correction@),
            style: spec_parse_style(req.style@),
        },
        if spec_format_name(req.format@) == Some(OutputFormat::Svg) {
            OutputFormat::Svg
        } else {
            OutputFormat::Png
        },
    )
}

/// Derives the options and format of one batch item; a batch item is never refused.
pub fn prepare_batch_item(req: &GenerateRequest) -> (r: (QrOptions, OutputFormat))
    ensures
        r.0.size == spec_batch_item(*req).0.size,
        r.0.fg_color@ == spec_batch_item(*req).0.fg_color@,
        r.0.bg_color@ == spec_batch_item(*req).0.bg_color@,
        r.0.error_correction == spec_batch_item(*req).0.error_correction,
        r.0.style == spec_batch_item(*req).0.style,
        r.1 == spec_batch_item(*req).1,
{
    let fg = match parse_hex_color(req.fg_color.as_str()) {
        Ok(c) => c,
        Err(_) => [0, 0, 0, 255],
    };
    let bg = match parse_hex_color(req.bg_color.as_str()) {
        Ok(c) => c,
        Err(_) => [255, 255, 255, 255],
    };
    let size = if req.size < 64 {
        64
    } else if req.size > 4096 {
        4096
    } else {
        req.size
    };
    let f = match format_name(req.format.as_str()) {
        Some(OutputFormat::Svg) => OutputFormat::Svg,
        _ => OutputFormat::Png,
    };
    let o = QrOptions {
        size,
        fg_color: fg,
        bg_color: bg,
        error_correction: parse_ec_level(req.error_correction.as_str()),
        style: QrStyle::parse(req.style.as_str()),
    };
    proof {
        let ghost sf = spec_parse_hex_color(req.fg_color@);
        let ghost sb = spec_parse_hex_color(req.bg_color@);
        if sf is Ok {
            assert([sf->Ok_0[0], sf->Ok_0[1], sf->Ok_0[2], sf->Ok_0[3]]@ =~= fg@);
        } else {
            assert([0u8, 0u8, 0u8, 255u8]@ =~= fg@);
        }
        if sb is Ok {
            assert([sb->Ok_0[0], sb->Ok_0[1], sb->Ok_0[2], sb->Ok_0[3]]@ =~= bg@);
        } else {
            assert([255u8, 255u8, 255u8, 255u8]@ =~= bg@);
        }
    }
    (o, f)
}

pub open spec fn http_prefix() -> Seq<char> {
    seq!['h', 't', 't', 'p', ':', '/', '/']
}

pub open spec fn https_prefix() -> Seq<char> {
    seq!['h', 't', 't', 'p', 's', ':', '/', '/']
}

pub open spec fn has_prefix(s: Seq<char>, p: Seq<char>) -> bool {
    s.len() >= p.len() && s.subrange(0, p.len() as int) == p
}

fn has_prefix_exec(cs: &Vec<char>, p: &[char]) -> (r: bool)
    ensures
        r == has_prefix(cs@, p@),
{
    if cs.len() < p.len() {
        return false;
    }
    let mut i: usize = 0;
    while i < p.len()
        invariant
            cs@.len() >= p@.len(),
            i <= p@.len(),
            forall|j: int| 0 <= j < i ==> cs@[j] == p@[j],
        decreases p@.len() - i,
    {
        if cs[i] != p[i] {
            assert(cs@.subrange(0, p@.len() as int)[i as int] != p@[i as int]);
            return false;
        }
        i += 1;
    }
    assert(cs@.subrange(0, p@.len() as int) =~= p@);
    true
}

/// A tracked link's target must be present and start with `http://` or `https://`.
pub open spec fn spec_validate_target_url(url: Seq<char>) -> Result<(), RequestError> {
    if url.len() == 0 {
        Err(RequestError::EmptyTargetUrl)
    } else if has_prefix(url, http_prefix()) || has_prefix(url, https_prefix()) {
        Ok(())
    } else {
        Err(RequestError::InvalidUrl)
    }
}

/// Checks the target URL of a tracked QR code.
pub fn validate_target_url(url: &str) -> (r: Result<(), RequestError>)
    ensures
        r == spec_validate_target_url(url@),
{
    let cs = str_chars(url);
    if cs.len() == 0 {
        return Err(RequestError::EmptyTargetUrl);
    }
    let http: [char; 7] = ['h', 't', 't', 'p', ':', '/', '/'];
    let https: [char; 8] = ['h', 't', 't', 'p', 's', ':', '/', '/'];
    assert(http@ =~= http_prefix());
    assert(https@ =~= https_prefix());
    if has_prefix_exec(&cs, http.as_slice()) || has_prefix_exec(&cs, https.as_slice()) {
        Ok(())
    } else {
        Err(RequestError::InvalidUrl)
    }
}

/// Index one past the last character that is not `/`.
pub open spec fn trim_slashes(s: Seq<char>, j: int) -> int
    decreases j,
{
    if 0 < j <= s.len() && s[j - 1] == '/' {
        trim_slashes(s, j - 1)
    } else {
        j
    }
}

/// `<base>/r/<code>`, with trailing slashes of the base removed.
pub open spec fn spec_short_url(base: Seq<char>, code: Seq<char>) -> Seq<char> {
    base.subrange(0, trim_slashes(base, base.len() as int)) + "/r/"@ + code
}

/// The public URL of a short code.
pub fn short_url(base: &str, code: &str) -> (r: String)
    ensures
        r@ == spec_short_url(base@, code@),
{
    let cs = str_chars(base);
    let mut end = cs.len();
    while end > 0 && cs[end - 1] == '/'
        invariant
            cs@ == base@,
            end <= cs@.len(),
            trim_slashes(base@, base@.len() as int) == trim_slashes(base@, end as int),
        decreases end,
    {
        end -= 1;
    }
    let mut out = String::new();
    push_chars(&mut out, &cs, 0, end);
    push_str(&mut out, "/r/");
    push_str(&mut out, code);
    out
}

} // verus!
