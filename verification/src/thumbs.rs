//! Thumbnails as `data:` URLs (the web front-end's IPC form): the JPEG bytes
//! in standard Base64.

use vstd::prelude::*;
use base64::Engine;

verus! {

/// The Base64 character for a 6-bit value (standard alphabet).
pub open spec fn b64_char(v: int) -> char {
    if v < 26 {
        (65 + v) as char
    } else if v < 52 {
        (97 + v - 26) as char
    } else if v < 62 {
        (48 + v - 52) as char
    } else if v == 62 {
        '+'
    } else {
        '/'
    }
}

/// Standard Base64 (RFC 4648, section 4) with `=` padding.
pub open spec fn base64_text(s: Seq<u8>) -> Seq<char>
    decreases s.len(),
{
    if s.len() == 0 {
        Seq::empty()
    } else if s.len() == 1 {
        seq![b64_char((s[0] / 4) as int), b64_char((s[0] % 4) * 16), '=', '=']
    } else if s.len() == 2 {
        seq![
            b64_char((s[0] / 4) as int),
            b64_char((s[0] % 4) * 16 + s[1] / 16),
            b64_char((s[1] % 16) * 4),
            '=',
        ]
    } else {
        seq![
            b64_char((s[0] / 4) as int),
            b64_char((s[0] % 4) * 16 + s[1] / 16),
            b64_char((s[1] % 16) * 4 + s[2] / 64),
            b64_char((s[2] % 64) as int),
        ] + base64_text(s.skip(3))
    }
}

/// `base64::engine::general_purpose::STANDARD.encode(bytes)`: the standard
/// alphabet with padding, as RFC 4648 defines it.
#[verifier::external_body]
fn base64_standard(bytes: &[u8]) -> (res: String)
    ensures
        res@ == base64_text(bytes@),
{
    base64::engine::general_purpose::STANDARD.encode(bytes)
}

/// A JPEG as a `data:image/jpeg;base64,` URL.
pub fn jpeg_data_url(bytes: &[u8]) -> (url: String)
    ensures
        url@ == "data:image/jpeg;base64,"@ + base64_text(bytes@),
{
    let mut url = String::from_str("data:image/jpeg;base64,");
    let b = base64_standard(bytes);
    url.append(b.as_str());
    url
}

} // verus!
