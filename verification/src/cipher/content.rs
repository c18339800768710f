use vstd::prelude::*;
use vstd::utf8::encode_utf8;

use crate::error::Result;

verus! {

/// What a cipher stores: raw bytes, or JSON text for the cipher that does
/// not encrypt.
pub enum EncryptedContent {
    Bytes(Vec<u8>),
    Json(String),
}

/// The bytes of stored content: the bytes themselves, or the UTF-8 of the
/// JSON text.
pub open spec fn content_bytes(c: EncryptedContent) -> Seq<u8> {
    match c {
        EncryptedContent::Bytes(b) => b@,
        EncryptedContent::Json(t) => encode_utf8(t@),
    }
}

impl EncryptedContent {
    /// The bytes of the content.
    pub fn as_bytes(&self) -> (r: Result<Vec<u8>>)
        ensures
            r matches Ok(b) && b@ == content_bytes(*self),
    {
        match self {
            EncryptedContent::Bytes(b) => Ok(b.clone()),
            EncryptedContent::Json(t) => Ok(t.as_str().as_bytes_vec()),
        }
    }
}

} // verus!
