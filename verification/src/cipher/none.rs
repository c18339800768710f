use vstd::prelude::*;

use crate::cipher::content::EncryptedContent;
use crate::cipher::kind::CipherKind;
use crate::error::{Error, Result};

verus! {

/// The cipher that stores the variables as plain JSON.
#[allow(non_camel_case_types)]
#[derive(Clone, Copy, Debug)]
pub struct NONE;

impl NONE {
    /// The kind of the cipher.
    pub fn kind(&self) -> (r: CipherKind)
        ensures
            r == CipherKind::NONE,
    {
        CipherKind::NONE
    }

    /// Stores the JSON text of the variables as it is.
    pub fn encrypt(&mut self, envs_json: String) -> (r: Result<EncryptedContent>)
        ensures
            r matches Ok(c) && c matches EncryptedContent::Json(t) && t@ == envs_json@,
    {
        Ok(EncryptedContent::Json(envs_json))
    }

    /// The JSON text of the variables; content that is not JSON is refused.
    pub fn decrypt(&self, encrypted_data: &EncryptedContent) -> (r: Result<String>)
        ensures
            match encrypted_data {
                EncryptedContent::Json(t) => r matches Ok(s) && s@ == t@,
                EncryptedContent::Bytes(_) => r matches Err(e) && e matches Error::Cipher(m) && m@
                    == "Encrypted data is not a JSON object"@,
            },
    {
        match encrypted_data {
            EncryptedContent::Json(t) => Ok(t.clone()),
            EncryptedContent::Bytes(_) => Err(Error::Cipher("Encrypted data is not a JSON object".to_owned())),
        }
    }
}

} // verus!
