use base64::{engine::general_purpose::STANDARD, Engine};
use vstd::prelude::*;

verus! {

/// The character of the standard Base64 alphabet for the six bits `i`.
pub open spec fn b64_char(i: int) -> char {
    if i < 26 {
        (65 + i) as char
    } else if i < 52 {
        (97 + (i - 26)) as char
    } else if i < 62 {
        (48 + (i - 52)) as char
    } else if i == 62 {
        '+'
    } else {
        '/'
    }
}

/// Standard Base64 (RFC 4648, with `=` padding) of `b`.
pub open spec fn b64_encode(b: Seq<u8>) -> Seq<char>
    decreases b.len(),
{
    if b.len() == 0 {
        Seq::empty()
    } else if b.len() == 1 {
        seq![b64_char(b[0] as int / 4), b64_char((b[0] as int % 4) * 16), '=', '=']
    } else if b.len() == 2 {
        seq![b64_char(b[0] as int / 4), b64_char((b[0] % 4) * 16 + b[1] / 16), b64_char((b[1] % 16) * 4), '=']
    } else {
        seq![
            b64_char(b[0] as int / 4),
            b64_char((b[0] % 4) * 16 + b[1] / 16),
            b64_char((b[1] % 16) * 4 + b[2] / 64),
            b64_char(b[2] as int % 64),
        ] + b64_encode(b.skip(3))
    }
}

/// What decoding `s` as standard Base64 gives: the bytes, or the text of the
/// error.
pub uninterp spec fn base64_decoded(s: Seq<char>) -> Result<Seq<u8>, Seq<char>>;

/// A successful decoding into `b`.
pub open spec fn decoded_to(b: Seq<u8>) -> Result<Seq<u8>, Seq<char>> {
    Ok(b)
}

/// A failed decoding with the message `m`.
pub open spec fn decoding_failed(m: Seq<char>) -> Result<Seq<u8>, Seq<char>> {
    Err(m)
}

/// Calls `base64`'s `STANDARD.encode`: the padded standard Base64 of the
/// bytes; decoding it gives the bytes back.
#[verifier::external_body]
pub(crate) fn base64_encode(bytes: &[u8]) -> (r: String)
    ensures
        r@ == b64_encode(bytes@),
        base64_decoded(r@) == decoded_to(bytes@),
{
    STANDARD.encode(bytes)
}

/// Calls `base64`'s `STANDARD.decode`, turning its error into its message.
/// That engine accepts only canonical padded Base64, so decoded bytes encode
/// back to the input.
#[verifier::external_body]
pub(crate) fn base64_decode(s: &str) -> (r: Result<Vec<u8>, String>)
    ensures
        match r {
            Ok(d) => base64_decoded(s@) == decoded_to(d@) && b64_encode(d@) == s@,
            Err(m) => base64_decoded(s@) == decoding_failed(m@),
        },
{
    match STANDARD.decode(s) {
        Ok(v) => Ok(v),
        Err(e) => Err(e.to_string()),
    }
}

} // verus!
