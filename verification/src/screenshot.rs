//! Screenshots as the AI request carries them: PNG bytes, base64 encoded.
use vstd::prelude::*;

verus! {

/// The base64 digit of a six-bit value (standard alphabet).
pub open spec fn b64_digit(v: int) -> char {
    if v < 26 {
        (v + 65) as char
    } else if v < 52 {
        (v - 26 + 97) as char
    } else if v < 62 {
        (v - 52 + 48) as char
    } else if v == 62 {
        '+'
    } else {
        '/'
    }
}

/// Standard base64 with `=` padding (RFC 4648): every three bytes become four digits.
pub open spec fn base64_standard(b: Seq<u8>) -> Seq<char>
    decreases b.len(),
{
    if b.len() == 0 {
        Seq::empty()
    } else if b.len() == 1 {
        let x = b[0] as int;
        seq![b64_digit(x / 4), b64_digit((x % 4) * 16), '=', '=']
    } else if b.len() == 2 {
        let x = b[0] as int;
        let y = b[1] as int;
        seq![b64_digit(x / 4), b64_digit((x % 4) * 16 + y / 16), b64_digit((y % 16) * 4), '=']
    } else {
        let x = b[0] as int;
        let y = b[1] as int;
        let z = b[2] as int;
        seq![
            b64_digit(x / 4),
            b64_digit((x % 4) * 16 + y / 16),
            b64_digit((y % 16) * 4 + z / 64),
            b64_digit(z % 64),
        ] + base64_standard(b.skip(3))
    }
}

/// Encodes bytes with `base64::engine::general_purpose::STANDARD`, which the contract takes to
/// be standard base64 with padding. The crate panics when the encoded length does not fit in
/// `usize`; `requires` leaves that out.
#[verifier::external_body]
pub(crate) fn base64_encode(bytes: &[u8]) -> (r: String)
    requires
        (bytes@.len() + 2) / 3 * 4 <= usize::MAX,
    ensures
        r@ == base64_standard(bytes@),
{
    base64::Engine::encode(&base64::engine::general_purpose::STANDARD, bytes)
}

/// The MIME type of the screenshots.
pub open spec fn png_mime() -> Seq<char> {
    "image/png"@
}

/// A screenshot's PNG bytes as the request carries them: base64 text and MIME type.
pub fn capture_frontmost_window(png_bytes: &[u8]) -> (r: (String, String))
    requires
        (png_bytes@.len() + 2) / 3 * 4 <= usize::MAX,
    ensures
        r.0@ == base64_standard(png_bytes@),
        r.1@ == png_mime(),
{
    (base64_encode(png_bytes), String::from_str("image/png"))
}

} // verus!
