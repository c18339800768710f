//! The passphrase cipher: a key is derived from the passphrase with Argon2id
//! and a random salt, and the data is sealed in chunks by STREAM over
//! XChaCha20-Poly1305 with a random nonce.

use argon2::password_hash::rand_core::OsRng;
use argon2::password_hash::SaltString;
use argon2::Argon2;
use chacha20poly1305::aead::AeadCore;
use chacha20poly1305::XChaCha20Poly1305;
use vstd::prelude::*;
use vstd::slice::slice_subrange;
use vstd::utf8::{encode_utf8, is_ascii_chars};

use crate::cipher::b64::{base64_decode, base64_decoded, base64_encode, decoded_to};
use crate::cipher::kind::CipherKind;
use crate::cipher::stream::{
    law_open_inverts_seal, lemma_sealed_stream_some, open_stream, opened_stream, seal_stream,
    sealed_stream, stream_fits, stream_reopens, KEY_SIZE, NONCE_SIZE,
};
use crate::error::{Error, Result};

verus! {

/// The largest password and salt Argon2 takes.
pub const ARGON2_MAX_LEN: usize = 0xFFFF_FFFF;
/// The smallest salt Argon2 takes.
pub const ARGON2_MIN_SALT_LEN: usize = 8;

/// The 32-byte key Argon2id, with its default parameters, derives from
/// `password` and `salt`.
pub uninterp spec fn argon2_key(password: Seq<u8>, salt: Seq<u8>) -> Seq<u8>;

/// Argon2 accepts the lengths of the password and the salt.
pub open spec fn kdf_accepts(password: Seq<u8>, salt: Seq<u8>) -> bool {
    &&& password.len() <= ARGON2_MAX_LEN
    &&& ARGON2_MIN_SALT_LEN <= salt.len() <= ARGON2_MAX_LEN
}

/// The message of the error Argon2 reports for lengths it does not accept.
pub open spec fn kdf_error(password: Seq<u8>, salt: Seq<u8>) -> Seq<char> {
    if password.len() > ARGON2_MAX_LEN {
        "password is too long"@
    } else if salt.len() < ARGON2_MIN_SALT_LEN {
        "salt is too short"@
    } else {
        "salt is too long"@
    }
}

/// Calls `Argon2::hash_password_into` with the default parameters and a
/// 32-byte output, turning its error into its message. It fails exactly for
/// the lengths it checks: a password over `u32::MAX` bytes, a salt under 8 or
/// over `u32::MAX` bytes.
#[verifier::external_body]
fn derive_key(password: &[u8], salt: &[u8]) -> (r: std::result::Result<Vec<u8>, String>)
    ensures
        r is Ok <==> kdf_accepts(password@, salt@),
        r matches Ok(k) ==> k@ == argon2_key(password@, salt@) && k@.len() == KEY_SIZE,
        r matches Err(m) ==> m@ == kdf_error(password@, salt@),
{
    let mut out = [0u8; 32];
    match Argon2::default().hash_password_into(password, salt, &mut out) {
        Ok(()) => Ok(out.to_vec()),
        Err(e) => Err(e.to_string()),
    }
}

/// Calls `SaltString::generate` with the operating system's random source.
/// The salt is random; it is always 16 bytes in unpadded B64, 22 ASCII
/// characters.
#[verifier::external_body]
fn generate_salt() -> (r: String)
    ensures
        r@.len() == 22,
        is_ascii_chars(r@),
{
    SaltString::generate(&mut OsRng).as_str().to_string()
}

/// Calls `XChaCha20Poly1305::generate_nonce` with the operating system's
/// random source. The nonce is random; it is always 24 bytes.
#[verifier::external_body]
fn generate_nonce() -> (r: Vec<u8>)
    ensures
        r@.len() == 24,
{
    XChaCha20Poly1305::generate_nonce(&mut OsRng).to_vec()
}

/// What the passphrase cipher keeps beside the ciphertext: the salt, and the
/// nonce prefix in Base64.
pub struct PassphraseMetadata {
    pub salt: String,
    pub nonce: String,
}

/// The passphrase cipher.
#[allow(non_camel_case_types)]
pub struct PASSPHRASE {
    key: String,
    metadata: PassphraseMetadata,
}

/// The text of the error of a chunk that does not open or a counter that
/// runs out.
pub open spec fn aead_error() -> Seq<char> {
    "aead::Error"@
}

/// What decrypting `ct` with the password bytes, the salt bytes and the
/// Base64 nonce gives: the plaintext, or the text of the error.
pub open spec fn passphrase_decrypted(password: Seq<u8>, salt: Seq<u8>, nonce: Seq<char>, ct: Seq<u8>) -> std::result::Result<Seq<u8>, Seq<char>> {
    if !kdf_accepts(password, salt) {
        Err(kdf_error(password, salt))
    } else {
        match base64_decoded(nonce) {
            Err(m) => Err(m),
            Ok(n) => match opened_stream(argon2_key(password, salt), n, ct, 0) {
                Some(p) => Ok(p),
                None => Err(aead_error()),
            },
        }
    }
}

/// Decrypting does not stop on a nonce of the wrong length: the nonce decodes
/// to the 19 bytes of a stream's nonce prefix whenever the key derivation
/// succeeds.
pub open spec fn nonce_fits(password: Seq<u8>, salt: Seq<u8>, nonce: Seq<char>) -> bool {
    (kdf_accepts(password, salt) && base64_decoded(nonce) is Ok) ==> base64_decoded(nonce)->Ok_0.len()
        == NONCE_SIZE
}

fn clone_str(s: &String) -> (r: String)
    ensures
        r@ == s@,
{
    s.clone()
}

impl PASSPHRASE {
    /// The passphrase.
    pub closed spec fn spec_key(&self) -> Seq<char> {
        self.key@
    }

    /// The salt kept from the last encryption or set from stored metadata.
    pub closed spec fn spec_salt(&self) -> Seq<char> {
        self.metadata.salt@
    }

    /// The Base64 nonce kept from the last encryption or set from stored
    /// metadata.
    pub closed spec fn spec_nonce(&self) -> Seq<char> {
        self.metadata.nonce@
    }

    /// A cipher with the passphrase `key` and empty metadata.
    pub fn new(key: String) -> (r: PASSPHRASE)
        ensures
            r.spec_key() == key@,
            r.spec_salt() == Seq::<char>::empty(),
            r.spec_nonce() == Seq::<char>::empty(),
    {
        PASSPHRASE { key, metadata: PassphraseMetadata { salt: String::new(), nonce: String::new() } }
    }

    /// Replaces the passphrase.
    pub fn set_key(&mut self, key: String)
        ensures
            final(self).spec_key() == key@,
            final(self).spec_salt() == old(self).spec_salt(),
            final(self).spec_nonce() == old(self).spec_nonce(),
    {
        self.key = key;
    }

    /// The passphrase.
    pub fn get_key(&self) -> (r: String)
        ensures
            r@ == self.spec_key(),
    {
        clone_str(&self.key)
    }

    /// The metadata, to be stored beside the ciphertext.
    pub fn export_metadata(&self) -> (r: PassphraseMetadata)
        ensures
            r.salt@ == self.spec_salt(),
            r.nonce@ == self.spec_nonce(),
    {
        PassphraseMetadata { salt: clone_str(&self.metadata.salt), nonce: clone_str(&self.metadata.nonce) }
    }

    /// Takes metadata stored beside a ciphertext.
    pub fn import_metadata(&mut self, metadata: PassphraseMetadata)
        ensures
            final(self).spec_key() == old(self).spec_key(),
            final(self).spec_salt() == metadata.salt@,
            final(self).spec_nonce() == metadata.nonce@,
    {
        self.metadata = metadata;
    }

    /// The kind of the cipher.
    pub fn kind(&self) -> (r: CipherKind)
        ensures
            r == CipherKind::PASSPHRASE,
    {
        CipherKind::PASSPHRASE
    }

    /// Encrypts `data` under a fresh random salt and nonce, which it keeps as
    /// its metadata. On success the ciphertext is the sealed stream of the
    /// data under the key derived from the passphrase and the new salt, with
    /// the 19-byte nonce that the new metadata holds in Base64. On failure
    /// nothing changes; it fails exactly when the passphrase is too long for
    /// Argon2 or the data too long for the stream's counter.
    pub fn encrypt(&mut self, data: &[u8]) -> (r: Result<Vec<u8>>)
        ensures
            final(self).spec_key() == old(self).spec_key(),
            r is Err <==> (encode_utf8(old(self).spec_key()).len() > ARGON2_MAX_LEN || !stream_fits(
                data@.len(),
                0,
            )),
            r is Err ==> final(self).spec_salt() == old(self).spec_salt() && final(self).spec_nonce()
                == old(self).spec_nonce(),
            r matches Err(e) ==> (e matches Error::Cipher(m) && (m@ == aead_error() || m@ == "password is too long"@)),
            r matches Ok(c) ==> final(self).spec_salt().len() == 22 && is_ascii_chars(final(self).spec_salt()),
            r matches Ok(c) ==> kdf_accepts(encode_utf8(old(self).spec_key()), encode_utf8(final(self).spec_salt())),
            r matches Ok(c) ==> exists|n: Seq<u8>|
                {
                    &&& n.len() == NONCE_SIZE
                    &&& #[trigger] base64_decoded(final(self).spec_nonce()) == decoded_to(n)
                    &&& sealed_stream(
                        argon2_key(encode_utf8(old(self).spec_key()), encode_utf8(final(self).spec_salt())),
                        n,
                        data@,
                        0,
                    ) == Some(c@)
                    &&& stream_reopens(
                        argon2_key(encode_utf8(old(self).spec_key()), encode_utf8(final(self).spec_salt())),
                        n,
                        data@,
                        0,
                    )
                },
    {
        let salt = generate_salt();
        let salt_bytes = salt.as_str().as_bytes();
        proof {
            vstd::utf8::is_ascii_chars_encode_utf8(salt@);
        }
        let key_material = match derive_key(self.key.as_str().as_bytes(), salt_bytes) {
            Ok(k) => k,
            Err(m) => {
                proof {
                    reveal_strlit("password is too long");
                    lemma_sealed_stream_some(Seq::empty(), Seq::empty(), data@, 0);
                }
                return Err(Error::Cipher(m));
            },
        };
        let nonce_full = generate_nonce();
        let nonce = slice_subrange(nonce_full.as_slice(), 0, NONCE_SIZE);
        let ghost n = nonce@;
        let ghost k = key_material@;
        proof {
            lemma_sealed_stream_some(k, n, data@, 0);
        }
        let sealed = match seal_stream(key_material.as_slice(), nonce, data) {
            Some(c) => c,
            None => {
                return Err(Error::Cipher("aead::Error".to_owned()));
            },
        };
        let encoded = base64_encode(nonce);
        self.metadata.salt = salt;
        self.metadata.nonce = encoded;
        Ok(sealed)
    }

    /// Decrypts `ct` with the key derived from the passphrase and the kept
    /// salt, and the kept nonce.
    pub fn decrypt(&self, ct: &[u8]) -> (r: Result<Vec<u8>>)
        requires
            nonce_fits(encode_utf8(self.spec_key()), encode_utf8(self.spec_salt()), self.spec_nonce()),
        ensures
            match passphrase_decrypted(encode_utf8(self.spec_key()), encode_utf8(self.spec_salt()), self.spec_nonce(), ct@) {
                Ok(p) => r matches Ok(q) && q@ == p,
                Err(m) => r matches Err(e) && e matches Error::Cipher(q) && q@ == m,
            },
    {
        let key_material = match derive_key(self.key.as_str().as_bytes(), self.metadata.salt.as_str().as_bytes()) {
            Ok(k) => k,
            Err(m) => {
                return Err(Error::Cipher(m));
            },
        };
        let nonce = match base64_decode(self.metadata.nonce.as_str()) {
            Ok(n) => n,
            Err(m) => {
                return Err(Error::Cipher(m));
            },
        };
        match open_stream(key_material.as_slice(), nonce.as_slice(), ct) {
            Some(p) => Ok(p),
            None => Err(Error::Cipher("aead::Error".to_owned())),
        }
    }

    /// Decrypts like [`PASSPHRASE::decrypt`], and fails instead of stopping
    /// when the kept nonce does not decode to 19 bytes.
    pub fn decrypt_checked(&self, ct: &[u8]) -> (r: Result<Vec<u8>>)
        ensures
            nonce_fits(encode_utf8(self.spec_key()), encode_utf8(self.spec_salt()), self.spec_nonce()) ==> match passphrase_decrypted(
                encode_utf8(self.spec_key()),
                encode_utf8(self.spec_salt()),
                self.spec_nonce(),
                ct@,
            ) {
                Ok(p) => r matches Ok(q) && q@ == p,
                Err(m) => r matches Err(e) && e matches Error::Cipher(q) && q@ == m,
            },
            !nonce_fits(encode_utf8(self.spec_key()), encode_utf8(self.spec_salt()), self.spec_nonce()) ==> (r matches Err(e)
                && e matches Error::Cipher(q) && q@ == "invalid nonce length"@),
    {
        let fits = match base64_decode(self.metadata.nonce.as_str()) {
            Ok(n) => n.len() == NONCE_SIZE || !kdf_accepts_exec(self.key.as_str().as_bytes(), self.metadata.salt.as_str().as_bytes()),
            Err(_) => true,
        };
        if fits {
            self.decrypt(ct)
        } else {
            Err(Error::Cipher("invalid nonce length".to_owned()))
        }
    }
}

fn kdf_accepts_exec(password: &[u8], salt: &[u8]) -> (r: bool)
    ensures
        r == kdf_accepts(password@, salt@),
{
    password.len() <= ARGON2_MAX_LEN && ARGON2_MIN_SALT_LEN <= salt.len() && salt.len() <= ARGON2_MAX_LEN
}

/// Decrypting what the passphrase cipher encrypted, with the same passphrase
/// and the metadata it kept, gives back the data.
pub proof fn law_passphrase_round_trip(
    password: Seq<u8>,
    salt: Seq<u8>,
    nonce_text: Seq<char>,
    nonce: Seq<u8>,
    data: Seq<u8>,
    ct: Seq<u8>,
)
    requires
        kdf_accepts(password, salt),
        base64_decoded(nonce_text) == decoded_to(nonce),
        sealed_stream(argon2_key(password, salt), nonce, data, 0) == Some(ct),
        stream_reopens(argon2_key(password, salt), nonce, data, 0),
    ensures
        passphrase_decrypted(password, salt, nonce_text, ct) == decoded_to(data),
{
    law_open_inverts_seal(argon2_key(password, salt), nonce, data, 0);
}

} // verus!
