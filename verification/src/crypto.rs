//! The earlier cipher interface, whose files are told apart by a marker at
//! their end: plain text files, `age` files and GPG files.

use vstd::prelude::*;
use vstd::utf8::encode_utf8;

use crate::cipher::age::{age_header_line, age_opened, begins_with};
use crate::error::{Error, Result};
use crate::text::str_eq_ignore_ascii_case;

verus! {

/// The kinds of cipher of the earlier interface.
#[allow(non_camel_case_types)]
#[derive(Clone, Copy, Debug, PartialEq, Eq, Structural)]
pub enum CipherKind {
    NONE,
    PASSPHRASE,
    GPG,
}

/// The name of a kind of the earlier interface.
pub open spec fn legacy_kind_name(k: CipherKind) -> Seq<char> {
    match k {
        CipherKind::NONE => "none"@,
        CipherKind::PASSPHRASE => "passphrase"@,
        CipherKind::GPG => "gpg"@,
    }
}

impl CipherKind {
    /// The name of the kind.
    pub fn as_str(&self) -> (r: &'static str)
        ensures
            r@ == legacy_kind_name(*self),
    {
        match self {
            CipherKind::NONE => "none",
            CipherKind::PASSPHRASE => "passphrase",
            CipherKind::GPG => "gpg",
        }
    }

    /// Reads a kind from its name, ignoring the case of ASCII letters.
    pub fn parse(s: &str) -> (r: Result<CipherKind>)
        ensures
            r matches Ok(k) ==> crate::text::eq_ignore_ascii_case(s@, legacy_kind_name(k)),
            r is Err ==> !crate::text::eq_ignore_ascii_case(s@, "none"@)
                && !crate::text::eq_ignore_ascii_case(s@, "passphrase"@)
                && !crate::text::eq_ignore_ascii_case(s@, "gpg"@),
            r matches Err(e) ==> (e matches Error::Msg(m) && m@ == "Matching variant not found"@),
    {
        if str_eq_ignore_ascii_case(s, "none") {
            Ok(CipherKind::NONE)
        } else if str_eq_ignore_ascii_case(s, "passphrase") {
            Ok(CipherKind::PASSPHRASE)
        } else if str_eq_ignore_ascii_case(s, "gpg") {
            Ok(CipherKind::GPG)
        } else {
            Err(Error::Msg("Matching variant not found".to_owned()))
        }
    }
}

/// `data` ends with `marker`.
pub open spec fn ends_with_marker(data: Seq<u8>, marker: Seq<u8>) -> bool {
    marker.len() <= data.len() && data.skip(data.len() - marker.len()) == marker
}

/// Whether `data` ends with `marker`.
fn bytes_end_with(data: &[u8], marker: &[u8]) -> (r: bool)
    ensures
        r == ends_with_marker(data@, marker@),
{
    let n = data.len();
    let m = marker.len();
    if m > n {
        return false;
    }
    let mut i: usize = 0;
    while i < m
        invariant
            n == data@.len(),
            m == marker@.len(),
            m <= n,
            i <= m,
            forall|k: int| 0 <= k < i ==> #[trigger] data@[n - m + k] == marker@[k],
        decreases m - i,
    {
        if data[n - m + i] != marker[i] {
            assert(data@.skip(n - m)[i as int] != marker@[i as int]);
            return false;
        }
        i = i + 1;
    }
    assert forall|k: int| 0 <= k < m implies #[trigger] data@.skip(n - m)[k] == marker@[k] by {
        assert(data@.skip(n - m)[k] == data@[n - m + k]);
    }
    assert(data@.skip(n - m) =~= marker@);
    true
}

/// The bytes that mark a file stored without encryption:
/// `-----PLAIN TEXT FILE-----`.
pub open spec fn plain_marker() -> Seq<u8> {
    seq![45, 45, 45, 45, 45, 80, 76, 65, 73, 78, 32, 84, 69, 88, 84, 32, 70, 73, 76, 69, 45, 45, 45, 45, 45]
}

/// The bytes that mark a file stored without encryption.
pub fn plain_identity_bytes() -> (r: Vec<u8>)
    ensures
        r@ == plain_marker(),
{
    let r: Vec<u8> = vec![45, 45, 45, 45, 45, 80, 76, 65, 73, 78, 32, 84, 69, 88, 84, 32, 70, 73, 76, 69, 45, 45, 45, 45, 45];
    assert(r@ =~= plain_marker());
    r
}

/// The bytes that mark a file encrypted with GPG:
/// `-----GPG ENCRYPTED FILE-----`.
pub open spec fn gpg_marker() -> Seq<u8> {
    seq![45, 45, 45, 45, 45, 71, 80, 71, 32, 69, 78, 67, 82, 89, 80, 84, 69, 68, 32, 70, 73, 76, 69, 45, 45, 45, 45, 45]
}

/// The bytes that mark a file encrypted with GPG.
pub fn gpg_identity_bytes() -> (r: Vec<u8>)
    ensures
        r@ == gpg_marker(),
{
    let r: Vec<u8> = vec![45, 45, 45, 45, 45, 71, 80, 71, 32, 69, 78, 67, 82, 89, 80, 84, 69, 68, 32, 70, 73, 76, 69, 45, 45, 45, 45, 45];
    assert(r@ =~= gpg_marker());
    r
}

/// Storing without encryption: the data followed by the plain text marker.
pub struct NoEncryption {
    key: String,
}

/// What reading a file stored without encryption gives: the data without
/// the marker when it ends with it, else the data as it is.
pub open spec fn plain_decrypted(data: Seq<u8>) -> Seq<u8> {
    if ends_with_marker(data, plain_marker()) {
        data.take(data.len() - plain_marker().len())
    } else {
        data
    }
}

impl NoEncryption {
    /// The key, which storing without encryption does not use.
    pub closed spec fn spec_key(&self) -> Seq<char> {
        self.key@
    }

    /// Storing without encryption, with the key `key`.
    pub fn new(key: String) -> (r: NoEncryption)
        ensures
            r.spec_key() == key@,
    {
        NoEncryption { key }
    }

    /// Replaces the key.
    pub fn set_key(&mut self, key: String)
        ensures
            final(self).spec_key() == key@,
    {
        self.key = key;
    }

    /// The key.
    pub fn get_key(&self) -> (r: String)
        ensures
            r@ == self.spec_key(),
    {
        self.key.clone()
    }

    /// The name of the method.
    pub fn as_string(&self) -> (r: &'static str)
        ensures
            r@ == "none"@,
    {
        "none"
    }

    /// The data followed by the plain text marker.
    pub fn encrypt(&self, data: &[u8]) -> (r: Result<Vec<u8>>)
        ensures
            r matches Ok(c) && c@ == data@ + plain_marker(),
    {
        let mut result: Vec<u8> = Vec::new();
        let mut i: usize = 0;
        while i < data.len()
            invariant
                i <= data@.len(),
                result@ == data@.take(i as int),
            decreases data@.len() - i,
        {
            result.push(data[i]);
            proof {
                assert(data@.take(i + 1) =~= data@.take(i as int).push(data@[i as int]));
            }
            i = i + 1;
        }
        proof {
            assert(data@.take(i as int) =~= data@);
        }
        let mut marker = plain_identity_bytes();
        result.append(&mut marker);
        Ok(result)
    }

    /// The data without the plain text marker at its end, if it has one.
    pub fn decrypt(&self, encrypted_data: &[u8]) -> (r: Result<Vec<u8>>)
        ensures
            r matches Ok(p) && p@ == plain_decrypted(encrypted_data@),
    {
        let marker = plain_identity_bytes();
        let n = encrypted_data.len();
        let end = if bytes_end_with(encrypted_data, marker.as_slice()) { n - marker.len() } else { n };
        let mut out: Vec<u8> = Vec::new();
        let mut i: usize = 0;
        while i < end
            invariant
                end <= encrypted_data@.len(),
                i <= end,
                out@ == encrypted_data@.take(i as int),
            decreases end - i,
        {
            out.push(encrypted_data[i]);
            proof {
                assert(encrypted_data@.take(i + 1) =~= encrypted_data@.take(i as int).push(encrypted_data@[i as int]));
            }
            i = i + 1;
        }
        proof {
            if end == n {
                assert(encrypted_data@.take(n as int) =~= encrypted_data@);
            }
        }
        Ok(out)
    }

    /// Whether `encrypted_data` was stored without encryption: it ends with
    /// the plain text marker.
    pub fn is_this_type(encrypted_data: &[u8]) -> (r: bool)
        ensures
            r == ends_with_marker(encrypted_data@, plain_marker()),
    {
        let marker = plain_identity_bytes();
        bytes_end_with(encrypted_data, marker.as_slice())
    }
}

/// Reading back what was stored without encryption gives the data, and the
/// stored bytes are recognised as such.
pub proof fn law_plain_round_trip(data: Seq<u8>)
    ensures
        plain_decrypted(data + plain_marker()) == data,
        ends_with_marker(data + plain_marker(), plain_marker()),
{
    let s = data + plain_marker();
    assert(s.skip(s.len() - plain_marker().len()) =~= plain_marker());
    assert(s.take(s.len() - plain_marker().len()) =~= data);
}

/// Encryption to a GPG key of the earlier interface.
pub struct GPG {
    key_fingerprint: String,
}

impl GPG {
    /// The fingerprint of the key.
    pub closed spec fn spec_fingerprint(&self) -> Seq<char> {
        self.key_fingerprint@
    }

    /// Encryption to the key with fingerprint `key_fingerprint`.
    pub fn new(key_fingerprint: String) -> (r: GPG)
        ensures
            r.spec_fingerprint() == key_fingerprint@,
    {
        GPG { key_fingerprint }
    }

    /// Replaces the fingerprint.
    pub fn set_key(&mut self, key: String)
        ensures
            final(self).spec_fingerprint() == key@,
    {
        self.key_fingerprint = key;
    }

    /// The fingerprint.
    pub fn get_key(&self) -> (r: String)
        ensures
            r@ == self.spec_fingerprint(),
    {
        self.key_fingerprint.clone()
    }

    /// The name of the method.
    pub fn as_string(&self) -> (r: &'static str)
        ensures
            r@ == "gpg"@,
    {
        "gpg"
    }

    /// Whether `encrypted_data` is marked as encrypted with GPG.
    pub fn is_this_type(encrypted_data: &[u8]) -> (r: bool)
        ensures
            r == ends_with_marker(encrypted_data@, gpg_marker()),
    {
        let marker = gpg_identity_bytes();
        bytes_end_with(encrypted_data, marker.as_slice())
    }
}


/// The bytes that mark a file encrypted with `age`.
pub open spec fn age_marker() -> Seq<u8> {
    seq![45, 45, 45, 45, 45, 65, 71, 69, 32, 69, 78, 67, 82, 89, 80, 84, 69, 68, 32, 70, 73, 76, 69, 45, 45, 45, 45, 45]
}

/// The bytes that mark a file encrypted with `age`.
pub fn age_identity_bytes() -> (r: Vec<u8>)
    ensures
        r@ == age_marker(),
{
    let r: Vec<u8> = vec![45, 45, 45, 45, 45, 65, 71, 69, 32, 69, 78, 67, 82, 89, 80, 84, 69, 68, 32, 70, 73, 76, 69, 45, 45, 45, 45, 45];
    assert(r@ =~= age_marker());
    r
}

/// `String::from_utf8`: the text of `bytes`, when they are valid UTF-8.
#[verifier::external_body]
fn utf8_text(bytes: Vec<u8>) -> (r: Option<String>)
    ensures
        r is Some <==> vstd::utf8::valid_utf8(bytes@),
        r matches Some(s) ==> s@ == vstd::utf8::decode_utf8(bytes@),
{
    String::from_utf8(bytes).ok()
}

/// The text of decrypted bytes `p`: their UTF-8 text when they are valid
/// UTF-8, else the UTF-8 error.
pub fn age_text(p: Vec<u8>) -> (r: Result<String>)
    ensures
        r is Ok <==> vstd::utf8::valid_utf8(p@),
        r matches Ok(t) ==> t@ == vstd::utf8::decode_utf8(p@) && encode_utf8(t@) == p@,
        r matches Err(e) ==> e is Utf8Error,
{
    let ghost bytes = p@;
    match utf8_text(p) {
        Some(t) => {
            proof {
                vstd::utf8::decode_utf8_encode_utf8(bytes);
            }
            Ok(t)
        },
        None => Err(Error::Utf8Error),
    }
}

/// Encryption with a passphrase in the `age` format, of the earlier
/// interface.
#[allow(non_camel_case_types)]
pub struct AGE {
    key: String,
}

impl AGE {
    /// The passphrase.
    pub closed spec fn spec_key(&self) -> Seq<char> {
        self.key@
    }

    /// Encryption with the passphrase `key`.
    pub fn new(key: String) -> (r: AGE)
        ensures
            r.spec_key() == key@,
    {
        AGE { key }
    }

    /// Replaces the passphrase.
    pub fn set_key(&mut self, key: String)
        ensures
            final(self).spec_key() == key@,
    {
        self.key = key;
    }

    /// The passphrase.
    pub fn get_key(&self) -> (r: String)
        ensures
            r@ == self.spec_key(),
    {
        self.key.clone()
    }

    /// The name of the kind.
    pub fn as_string(&self) -> (r: &'static str)
        ensures
            r@ == "age"@,
    {
        "age"
    }

    /// Encrypts the text `data` to the passphrase and marks the result as an
    /// `age` file: the `age` file, which decrypts with the passphrase to the
    /// UTF-8 of `data`, followed by the marker.
    pub fn encrypt(&self, data: &str) -> (r: Result<Vec<u8>>)
        ensures
            r is Ok,
            r matches Ok(c) ==> ends_with_marker(c@, age_marker()),
            r matches Ok(c) ==> begins_with(c@, age_header_line()),
            r matches Ok(c) ==> age_opened(self.spec_key(), c@.take(c@.len() - age_marker().len())) == encode_utf8(data@),
    {
        match crate::cipher::age::age_encrypt(self.key.as_str(), data.as_bytes()) {
            Ok(c) => {
                let mut out = c;
                let marker = age_identity_bytes();
                let ghost before = out@;
                let mut i: usize = 0;
                while i < marker.len()
                    invariant
                        marker@ == age_marker(),
                        i <= marker@.len(),
                        out@ == before + marker@.take(i as int),
                    decreases marker@.len() - i,
                {
                    out.push(marker[i]);
                    proof {
                        assert(marker@.take(i + 1) =~= marker@.take(i as int).push(marker@[i as int]));
                    }
                    i = i + 1;
                }
                proof {
                    assert(marker@.take(marker@.len() as int) =~= marker@);
                    assert(out@.skip(out@.len() - age_marker().len()) =~= age_marker());
                    assert(out@.take(out@.len() - age_marker().len()) =~= before);
                    assert(out@.take(age_header_line().len() as int) =~= before.take(age_header_line().len() as int));
                }
                Ok(out)
            },
            Err(m) => Err(Error::Cipher(m)),
        }
    }

    /// Decrypts `encrypted_data` with the passphrase; the decrypted bytes
    /// must be UTF-8 text, and data that is not an `age` file is refused.
    pub fn decrypt(&self, encrypted_data: &[u8]) -> (r: Result<String>)
        ensures
            !begins_with(encrypted_data@, age_header_line()) ==> (r matches Err(e) && e is Cipher),
            r matches Ok(t) ==> encode_utf8(t@).len() + age_header_line().len() + 32 <= encrypted_data@.len(),
            r matches Ok(t) ==> encode_utf8(t@) == age_opened(self.spec_key(), encrypted_data@),
            r matches Err(e) ==> (e is Cipher || e is Utf8Error),
            r matches Err(Error::Utf8Error) ==> begins_with(encrypted_data@, age_header_line())
                && !vstd::utf8::valid_utf8(age_opened(self.spec_key(), encrypted_data@)),
    {
        match crate::cipher::age::age_decrypt(self.key.as_str(), encrypted_data) {
            Ok(p) => age_text(p),
            Err(m) => Err(Error::Cipher(m)),
        }
    }

    /// Whether `encrypted_data` ends with the `age` marker.
    pub fn is_this_type(encrypted_data: &[u8]) -> (r: bool)
        ensures
            r == ends_with_marker(encrypted_data@, age_marker()),
    {
        let marker = age_identity_bytes();
        bytes_end_with(encrypted_data, marker.as_slice())
    }
}

} // verus!
