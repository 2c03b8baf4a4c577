//! Generated identifiers and the clock: short codes and API keys cut from
//! random UUIDs, and link expiry against the current UTC time.

use vstd::prelude::*;

use crate::service::is_expired;
use crate::text::push_str;

verus! {

pub open spec fn is_lower_hex(c: char) -> bool {
    ('0' <= c && c <= '9') || ('a' <= c && c <= 'f')
}

/// Text of a UUID: 36 characters, hyphens at 8, 13, 18 and 23, lower-case hex digits elsewhere.
pub open spec fn uuid_text(s: Seq<char>) -> bool {
    &&& s.len() == 36
    &&& forall|i: int|
        0 <= i < 36 ==> if i == 8 || i == 13 || i == 18 || i == 23 {
            #[trigger] s[i] == '-'
        } else {
            is_lower_hex(s[i])
        }
}

/// Relies on uuid's `Uuid::new_v4` and its `Display` form (hyphenated, lower case).
#[verifier::external_body]
fn random_uuid() -> (r: String)
    ensures
        uuid_text(r@),
{
    uuid::Uuid::new_v4().to_string()
}

/// The text with every hyphen removed.
pub open spec fn without_hyphens(s: Seq<char>) -> Seq<char>
    decreases s.len(),
{
    if s.len() == 0 {
        Seq::empty()
    } else if s.last() == '-' {
        without_hyphens(s.drop_last())
    } else {
        without_hyphens(s.drop_last()).push(s.last())
    }
}

fn strip_hyphens(s: &str) -> (r: Vec<char>)
    ensures
        r@ == without_hyphens(s@),
{
    let cs = crate::text::str_chars(s);
    let mut out: Vec<char> = Vec::new();
    let mut i: usize = 0;
    while i < cs.len()
        invariant
            cs@ == s@,
            i <= cs@.len(),
            out@ == without_hyphens(cs@.subrange(0, i as int)),
        decreases cs@.len() - i,
    {
        assert(cs@.subrange(0, i + 1).drop_last() =~= cs@.subrange(0, i as int));
        if cs[i] != '-' {
            out.push(cs[i]);
        }
        i += 1;
    }
    assert(cs@.subrange(0, cs@.len() as int) =~= s@);
    out
}

proof fn lemma_uuid_digits(s: Seq<char>)
    requires
        uuid_text(s),
    ensures
        without_hyphens(s).len() == 32,
        forall|i: int| 0 <= i < 32 ==> is_lower_hex(#[trigger] without_hyphens(s)[i]),
{
    assert forall|n: int| 0 <= n <= 36 implies {
        let w = without_hyphens(#[trigger] s.subrange(0, n));
        &&& w.len() == n - (if n > 23 { 4int } else if n > 18 { 3int } else if n > 13 { 2int } else if n > 8 { 1int } else { 0int })
        &&& forall|i: int| 0 <= i < w.len() ==> is_lower_hex(#[trigger] w[i])
    } by {
        lemma_prefix_digits(s, n);
    }
    assert(s.subrange(0, 36) =~= s);
}

proof fn lemma_prefix_digits(s: Seq<char>, n: int)
    requires
        uuid_text(s),
        0 <= n <= 36,
    ensures
        ({
            let w = without_hyphens(s.subrange(0, n));
            &&& w.len() == n - (if n > 23 { 4int } else if n > 18 { 3int } else if n > 13 { 2int } else if n > 8 { 1int } else { 0int })
            &&& forall|i: int| 0 <= i < w.len() ==> is_lower_hex(#[trigger] w[i])
        }),
    decreases n,
{
    if n > 0 {
        lemma_prefix_digits(s, n - 1);
        assert(s.subrange(0, n).drop_last() =~= s.subrange(0, n - 1));
        assert(s.subrange(0, n).last() == s[n - 1]);
    }
}

/// A short code: the first eight hex digits of a UUID's text.
pub open spec fn short_code_of(uuid: Seq<char>) -> Seq<char> {
    without_hyphens(uuid).subrange(0, 8)
}

/// Cuts a short code from the text of a UUID.
pub fn short_code_from_uuid(uuid: &str) -> (r: String)
    requires
        uuid_text(uuid@),
    ensures
        r@ == short_code_of(uuid@),
{
    proof {
        lemma_uuid_digits(uuid@);
    }
    let digits = strip_hyphens(uuid);
    let mut out = String::new();
    crate::text::push_chars(&mut out, &digits, 0, 8);
    out
}

/// Generates a random short code of eight lower-case hex digits.
pub fn generate_short_code() -> (r: String)
    ensures
        r@.len() == 8,
        forall|i: int| 0 <= i < 8 ==> is_lower_hex(#[trigger] r@[i]),
        exists|u: Seq<char>| uuid_text(u) && r@ == short_code_of(u),
{
    let u = random_uuid();
    proof {
        lemma_uuid_digits(u@);
    }
    short_code_from_uuid(u.as_str())
}

/// An API key: `qrs_` and the 32 hex digits of a UUID.
pub open spec fn api_key_of(uuid: Seq<char>) -> Seq<char> {
    "qrs_"@ + without_hyphens(uuid)
}

/// Generates a random API key.
pub fn generate_api_key() -> (r: String)
    ensures
        exists|u: Seq<char>| uuid_text(u) && r@ == api_key_of(u),
{
    let u = random_uuid();
    let digits = strip_hyphens(u.as_str());
    let mut out = String::new();
    push_str(&mut out, "qrs_");
    crate::text::push_chars(&mut out, &digits, 0, digits.len());
    assert(digits@.subrange(0, digits@.len() as int) =~= digits@);
    out
}

/// The pattern of timestamps: `YYYY-MM-DD HH:MM:SS`.
pub open spec fn timestamp_pattern() -> Seq<char> {
    "%Y-%m-%d %H:%M:%S"@
}

/// Relies on chrono's `Utc::now`, written with `DateTime::format` in the
/// given pattern (one that chrono formats without error).
#[verifier::external_body]
fn utc_now_text(pattern: &str) -> String
    requires
        pattern@ == timestamp_pattern(),
{
    chrono::Utc::now().format(pattern).to_string()
}

/// Whether a link with this expiry time has expired at time `now`; a link
/// without one never expires.
pub open spec fn spec_link_expired(expires_at: Option<Seq<char>>, now: Seq<char>) -> bool {
    match expires_at {
        Some(e) => crate::service::lex_after(now, e),
        None => false,
    }
}

/// Whether a link with this expiry time has expired at `now`.
pub fn link_expired_at(expires_at: Option<&str>, now: &str) -> (r: bool)
    ensures
        r == spec_link_expired(crate::service::opt_view(expires_at), now@),
{
    match expires_at {
        Some(e) => is_expired(now, e),
        None => false,
    }
}

/// Whether a link with this expiry time has expired now; times are compared
/// as `YYYY-MM-DD HH:MM:SS` text in UTC.
pub fn link_expired(expires_at: Option<&str>) -> (r: bool)
    ensures
        expires_at is None ==> !r,
        exists|now: Seq<char>| r == spec_link_expired(crate::service::opt_view(expires_at), now),
{
    let now = utc_now_text("%Y-%m-%d %H:%M:%S");
    link_expired_at(expires_at, now.as_str())
}

} // verus!
