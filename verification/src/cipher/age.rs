use age::scrypt;
use age::secrecy::SecretString;
use vstd::prelude::*;

use crate::cipher::content::{content_bytes, EncryptedContent};
use crate::cipher::kind::CipherKind;
use crate::error::{Error, Result};

verus! {

/// The first line of every file of version 1 of the `age` format:
/// `age-encryption.org/v1` and a newline.
pub open spec fn age_header_line() -> Seq<u8> {
    seq![97, 103, 101, 45, 101, 110, 99, 114, 121, 112, 116, 105, 111, 110, 46, 111, 114, 103, 47, 118, 49, 10]
}

/// `data` begins with the bytes `prefix`.
pub open spec fn begins_with(data: Seq<u8>, prefix: Seq<u8>) -> bool {
    prefix.len() <= data.len() && data.take(prefix.len() as int) == prefix
}

/// The plaintext that `age` recovers from the file `data` with the
/// passphrase `passphrase`, when it recovers one: decryption is
/// authenticated, so a successful decryption of one file with one passphrase
/// always gives the same bytes.
pub uninterp spec fn age_opened(passphrase: Seq<char>, data: Seq<u8>) -> Seq<u8>;

/// Calls `age::encrypt` to the scrypt recipient of `passphrase`, turning its
/// error into its message. In the source of `age` brought here no step of
/// that call fails for one scrypt recipient written into a `Vec`: the
/// recipient always wraps the file key, a header with one scrypt stanza is
/// valid, and writing to a `Vec` does not fail. The output is the header,
/// whose first line is [`age_header_line`], a nonce of 16 bytes, and the
/// payload, which is `data` with a tag of 16 bytes for each chunk, at least
/// one. The file key, nonce, salt and work factor are random or measured on
/// this machine, so nothing more is stated of the ciphertext than what it
/// decrypts to with the same passphrase: `data`, as the round trip in
/// `age`'s documentation and tests shows.
#[verifier::external_body]
pub(crate) fn age_encrypt(passphrase: &str, data: &[u8]) -> (r: std::result::Result<Vec<u8>, String>)
    ensures
        r is Ok,
        r matches Ok(c) ==> begins_with(c@, age_header_line()),
        r matches Ok(c) ==> c@.len() >= age_header_line().len() + data@.len() + 32,
        r matches Ok(c) ==> age_opened(passphrase@, c@) == data@,
{
    let recipient = scrypt::Recipient::new(SecretString::from(passphrase.to_owned()));
    match age::encrypt(&recipient, data) {
        Ok(c) => Ok(c),
        Err(e) => Err(e.to_string()),
    }
}

/// Calls `age::decrypt` with the scrypt identity of `passphrase`, turning its
/// error into its message. The header parser of `age` accepts only input
/// that begins with [`age_header_line`], and the plaintext it gives is the
/// payload after the header and a nonce of 16 bytes, less a tag of 16 bytes
/// for each chunk. The identity bounds the scrypt work it accepts by a
/// measure of this machine's speed, so whether a well-formed file decrypts is
/// not a function of the arguments alone and is not stated.
#[verifier::external_body]
pub(crate) fn age_decrypt(passphrase: &str, data: &[u8]) -> (r: std::result::Result<Vec<u8>, String>)
    ensures
        r is Ok ==> begins_with(data@, age_header_line()),
        r matches Ok(p) ==> p@.len() + age_header_line().len() + 32 <= data@.len(),
        r matches Ok(p) ==> p@ == age_opened(passphrase@, data@),
{
    let identity = scrypt::Identity::new(SecretString::from(passphrase.to_owned()));
    match age::decrypt(&identity, data) {
        Ok(p) => Ok(p),
        Err(e) => Err(e.to_string()),
    }
}

/// The passphrase cipher of the `age` file format.
#[allow(non_camel_case_types)]
pub struct AGE {
    key: String,
}

impl AGE {
    /// The passphrase.
    pub closed spec fn spec_key(&self) -> Seq<char> {
        self.key@
    }

    /// A cipher with the passphrase `key`.
    pub fn new(key: String) -> (r: AGE)
        ensures
            r.spec_key() == key@,
    {
        AGE { key }
    }

    /// The passphrase.
    pub fn get_key(&self) -> (r: String)
        ensures
            r@ == self.spec_key(),
    {
        self.key.clone()
    }

    /// Replaces the passphrase.
    pub fn set_key(&mut self, key: String)
        ensures
            final(self).spec_key() == key@,
    {
        self.key = key;
    }

    /// The kind of the cipher.
    pub fn kind(&self) -> (r: CipherKind)
        ensures
            r == CipherKind::AGE,
    {
        CipherKind::AGE
    }

    /// Encrypts `data` to the passphrase; the result is an `age` file, stored
    /// as bytes.
    pub fn encrypt(&mut self, data: &[u8]) -> (r: Result<EncryptedContent>)
        ensures
            final(self).spec_key() == old(self).spec_key(),
            r matches Ok(c) && c matches EncryptedContent::Bytes(b) && begins_with(b@, age_header_line())
                && b@.len() >= age_header_line().len() + data@.len() + 32,
            r matches Ok(EncryptedContent::Bytes(b)) ==> age_opened(old(self).spec_key(), b@) == data@,
    {
        match age_encrypt(self.key.as_str(), data) {
            Ok(c) => Ok(EncryptedContent::Bytes(c)),
            Err(m) => Err(Error::Cipher(m)),
        }
    }

    /// Decrypts the bytes of the stored content with the passphrase; content
    /// that is not an `age` file is refused.
    pub fn decrypt(&self, encrypted_data: &EncryptedContent) -> (r: Result<Vec<u8>>)
        ensures
            !begins_with(content_bytes(*encrypted_data), age_header_line()) ==> r is Err,
            r matches Ok(p) ==> p@.len() + age_header_line().len() + 32 <= content_bytes(*encrypted_data).len(),
            r matches Ok(p) ==> p@ == age_opened(self.spec_key(), content_bytes(*encrypted_data)),
            r matches Err(e) ==> e is Cipher,
    {
        let bytes = match encrypted_data.as_bytes() {
            Ok(b) => b,
            Err(e) => {
                return Err(e);
            },
        };
        proof {
            assert(bytes@ == content_bytes(*encrypted_data));
        }
        match age_decrypt(self.key.as_str(), bytes.as_slice()) {
            Ok(p) => Ok(p),
            Err(m) => Err(Error::Cipher(m)),
        }
    }
}

} // verus!
