//! Building the outbound search URL: the fixed engine prefix with the query
//! text percent-encoded from its UTF-8 bytes.

use vstd::prelude::*;
use vstd::string::StringSliceAdditionalSpecFns;

verus! {

/// Bytes that the form-urlencoding leaves unchanged: ASCII alphanumerics and
/// `*`, `-`, `.`, `_`.
pub open spec fn is_form_unchanged(b: u8) -> bool {
    b == 0x2A || b == 0x2D || b == 0x2E || b == 0x5F || (0x30 <= b && b <= 0x39) || (0x41 <= b
        && b <= 0x5A) || (0x61 <= b && b <= 0x7A)
}

/// The uppercase hex digit for a value below 16.
pub open spec fn hex_upper(n: u8) -> char
    recommends
        n < 16,
{
    if n < 10 {
        (0x30 + n) as char
    } else {
        (0x37 + n) as char
    }
}

/// The form-urlencoding of one byte: unchanged, `+` for a space, or a
/// percent escape with two uppercase hex digits.
pub open spec fn encode_byte(b: u8) -> Seq<char> {
    if is_form_unchanged(b) {
        seq![b as char]
    } else if b == 0x20 {
        seq!['+']
    } else {
        seq!['%', hex_upper(b / 16), hex_upper(b % 16)]
    }
}

/// The form-urlencoding of a byte sequence.
pub open spec fn form_urlencoded_spec(bs: Seq<u8>) -> Seq<char>
    decreases bs.len(),
{
    if bs.len() == 0 {
        Seq::empty()
    } else {
        encode_byte(bs[0]) + form_urlencoded_spec(bs.skip(1))
    }
}

/// Relies on `url::form_urlencoded::byte_serialize`: it emits each input
/// byte unchanged if the byte is ASCII alphanumeric or one of `*-._`, as
/// `+` if the byte is a space, and otherwise as `%` followed by the byte's
/// two uppercase hex digits.
#[verifier::external_body]
fn form_urlencode_bytes(bytes: &[u8]) -> (r: String)
    ensures
        r@ == form_urlencoded_spec(bytes@),
{
    url::form_urlencoded::byte_serialize(bytes).collect()
}

/// The fixed result-page address of the upstream search engine.
pub open spec fn search_url_prefix() -> Seq<char> {
    "https://fr.search.yahoo.com/search?p="@
}

/// The outbound search URL for `text`.
pub open spec fn search_url_spec(text: Seq<char>) -> Seq<char> {
    search_url_prefix() + form_urlencoded_spec(vstd::utf8::encode_utf8(text))
}

/// Builds the outbound search URL: the engine prefix followed by the search
/// text, percent-encoded byte by byte from its UTF-8 form.
pub fn build_search_url(text: &str) -> (r: String)
    ensures
        r@ == search_url_spec(text@),
{
    let bytes = text.as_bytes_vec();
    proof {
        assert(bytes@ == vstd::utf8::encode_utf8(text@));
    }
    let encoded = form_urlencode_bytes(bytes.as_slice());
    let mut u = String::from_str("https://fr.search.yahoo.com/search?p=");
    u.append(encoded.as_str());
    u
}

} // verus!
