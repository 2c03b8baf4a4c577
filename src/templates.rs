//! Payload templates: the text that a WiFi or contact-card QR code encodes.

use vstd::prelude::*;

use crate::text::{push_char, push_str, str_chars};

verus! {

/// A WiFi field value with `;` and `,` escaped by a backslash.
pub open spec fn wifi_escape(s: Seq<char>) -> Seq<char>
    decreases s.len(),
{
    if s.len() == 0 {
        Seq::empty()
    } else {
        let c = s.last();
        wifi_escape(s.drop_last()) + if c == ';' || c == ',' {
            seq!['\\', c]
        } else {
            seq![c]
        }
    }
}

fn push_wifi_escaped(out: &mut String, s: &str)
    ensures
        final(out)@ == old(out)@ + wifi_escape(s@),
{
    let cs = str_chars(s);
    let ghost start = out@;
    let mut i: usize = 0;
    while i < cs.len()
        invariant
            cs@ == s@,
            i <= cs@.len(),
            out@ == start + wifi_escape(cs@.subrange(0, i as int)),
        decreases cs@.len() - i,
    {
        let c = cs[i];
        if c == ';' || c == ',' {
            push_char(out, '\\');
        }
        push_char(out, c);
        assert(cs@.subrange(0, i + 1).drop_last() =~= cs@.subrange(0, i as int));
        assert(out@ =~= start + wifi_escape(cs@.subrange(0, i + 1)));
        i += 1;
    }
    assert(cs@.subrange(0, cs@.len() as int) =~= s@);
}

/// `WIFI:T:<encryption>;S:<ssid>;P:<password>;H:<true|false>;;`, with the
/// network name and password escaped.
pub open spec fn spec_wifi_data(ssid: Seq<char>, password: Seq<char>, encryption: Seq<char>, hidden: bool) -> Seq<char> {
    "WIFI:T:"@ + encryption + ";S:"@ + wifi_escape(ssid) + ";P:"@ + wifi_escape(password) + ";H:"@ + (if hidden {
        "true"@
    } else {
        "false"@
    }) + ";;"@
}

/// Builds the payload of a WiFi network QR code.
pub fn wifi_data(ssid: &str, password: &str, encryption: &str, hidden: bool) -> (r: String)
    ensures
        r@ == spec_wifi_data(ssid@, password@, encryption@, hidden),
{
    let mut s = String::new();
    push_str(&mut s, "WIFI:T:");
    push_str(&mut s, encryption);
    push_str(&mut s, ";S:");
    push_wifi_escaped(&mut s, ssid);
    push_str(&mut s, ";P:");
    push_wifi_escaped(&mut s, password);
    push_str(&mut s, ";H:");
    if hidden {
        push_str(&mut s, "true");
    } else {
        push_str(&mut s, "false");
    }
    push_str(&mut s, ";;");
    assert(s@ =~= spec_wifi_data(ssid@, password@, encryption@, hidden));
    s
}

/// An optional contact-card line: `<key><value>` and a newline, or nothing.
pub open spec fn vcard_line(key: Seq<char>, value: Option<&str>) -> Seq<char> {
    match value {
        Some(v) => key + v@ + "\n"@,
        None => Seq::empty(),
    }
}

fn push_vcard_line(out: &mut String, key: &str, value: Option<&str>)
    ensures
        final(out)@ == old(out)@ + vcard_line(key@, value),
{
    match value {
        Some(v) => {
            push_str(out, key);
            push_str(out, v);
            push_str(out, "\n");
            assert(final(out)@ =~= old(out)@ + vcard_line(key@, value));
        },
        None => {
            assert(old(out)@ + vcard_line(key@, value) =~= old(out)@);
        },
    }
}

/// A version 3.0 contact card with the full name and each field that is given.
pub open spec fn spec_vcard_data(
    name: Seq<char>,
    email: Option<&str>,
    phone: Option<&str>,
    org: Option<&str>,
    title: Option<&str>,
    url: Option<&str>,
) -> Seq<char> {
    "BEGIN:VCARD\nVERSION:3.0\n"@ + "FN:"@ + name + "\n"@ + vcard_line("EMAIL:"@, email) + vcard_line(
        "TEL:"@,
        phone,
    ) + vcard_line("ORG:"@, org) + vcard_line("TITLE:"@, title) + vcard_line("URL:"@, url)
        + "END:VCARD"@
}

/// Builds the payload of a contact-card QR code.
pub fn vcard_data(
    name: &str,
    email: Option<&str>,
    phone: Option<&str>,
    org: Option<&str>,
    title: Option<&str>,
    url: Option<&str>,
) -> (r: String)
    ensures
        r@ == spec_vcard_data(name@, email, phone, org, title, url),
{
    let mut s = String::new();
    push_str(&mut s, "BEGIN:VCARD\nVERSION:3.0\n");
    push_str(&mut s, "FN:");
    push_str(&mut s, name);
    push_str(&mut s, "\n");
    push_vcard_line(&mut s, "EMAIL:", email);
    push_vcard_line(&mut s, "TEL:", phone);
    push_vcard_line(&mut s, "ORG:", org);
    push_vcard_line(&mut s, "TITLE:", title);
    push_vcard_line(&mut s, "URL:", url);
    push_str(&mut s, "END:VCARD");
    assert(s@ =~= spec_vcard_data(name@, email, phone, org, title, url));
    s
}

} // verus!
