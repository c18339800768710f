//! Profiles: named sets of variables with the cipher that protects them.

use vstd::prelude::*;

use crate::cipher::b64::{base64_decoded, decoded_to};
use crate::cipher::content::{content_bytes, EncryptedContent};
use crate::cipher::passphrase::{
    argon2_key, law_passphrase_round_trip, nonce_fits, passphrase_decrypted,
};
use crate::cipher::age::{age_header_line, age_opened, begins_with};
use crate::cipher::passphrase::ARGON2_MAX_LEN;
use crate::cipher::stream::{sealed_stream, stream_fits, stream_reopens, NONCE_SIZE};
use vstd::utf8::encode_utf8;
use crate::cipher::passphrase::PassphraseMetadata;
use crate::cipher::{CipherKind, AGE, GPG, NONE, PASSPHRASE};
use crate::env::EnvMap;
use crate::error::{Error, Result};

verus! {

/// A moment in time: seconds and nanoseconds since the Unix epoch, and the
/// offset from UTC, in seconds, of the clock that read it.
#[derive(Clone, Copy, Debug, PartialEq, Eq, Structural)]
pub struct Timestamp {
    pub secs: i64,
    pub nanos: u32,
    pub offset: i32,
}

/// `a` is a later moment than `b` (the offsets play no part).
pub open spec fn is_later(a: Timestamp, b: Timestamp) -> bool {
    a.secs > b.secs || (a.secs == b.secs && a.nanos > b.nanos)
}

impl Timestamp {
    /// Whether `self` is a later moment than `other`.
    pub fn is_later_than(&self, other: &Timestamp) -> (r: bool)
        ensures
            r == is_later(*self, *other),
    {
        self.secs > other.secs || (self.secs == other.secs && self.nanos > other.nanos)
    }
}

/// What a profile file says of the profile, besides its variables.
pub struct ProfileMetadata {
    pub name: String,
    pub version: String,
    pub description: Option<String>,
    pub file_path: String,
    pub cipher_kind: CipherKind,
    /// The cipher's own settings.
    pub cipher_metadata: Option<CipherMetadata>,
    pub created_at: Timestamp,
    pub updated_at: Timestamp,
}

/// The version of the library that writes profiles.
pub const VERSION: &'static str = "0.1.0";

/// What a cipher keeps beside a profile: the passphrase cipher's salt and
/// nonce, or the fingerprint of the GPG key.
pub enum CipherMetadata {
    Passphrase(PassphraseMetadata),
    Gpg { key_fingerprint: String },
}

/// Decrypting `c` with `cipher` gives back `data`: for the passphrase
/// cipher, the kept nonce fits and the key, salt and nonce open `c` to
/// `data`; for the `age` cipher, `c` is bytes that `age` opens to `data` with
/// the passphrase.
pub open spec fn reads_back(cipher: ProfileCipher, c: EncryptedContent, data: Seq<u8>) -> bool {
    match cipher {
        ProfileCipher::Passphrase(p) => nonce_fits(
            encode_utf8(p.spec_key()),
            encode_utf8(p.spec_salt()),
            p.spec_nonce(),
        ) && passphrase_decrypted(encode_utf8(p.spec_key()), encode_utf8(p.spec_salt()), p.spec_nonce(), content_bytes(c))
            == decoded_to(data),
        ProfileCipher::Age(a) => c matches EncryptedContent::Bytes(b) && age_opened(a.spec_key(), b@) == data,
        _ => false,
    }
}

/// The cipher of a profile.
pub enum ProfileCipher {
    Plain(NONE),
    Passphrase(PASSPHRASE),
    Age(AGE),
    Gpg(GPG),
}

/// The kind of a cipher.
pub open spec fn cipher_kind_of(c: ProfileCipher) -> CipherKind {
    match c {
        ProfileCipher::Plain(_) => CipherKind::NONE,
        ProfileCipher::Passphrase(_) => CipherKind::PASSPHRASE,
        ProfileCipher::Age(_) => CipherKind::AGE,
        ProfileCipher::Gpg(_) => CipherKind::GPG,
    }
}

/// The key a cipher is made with: the one given, or the empty one.
pub open spec fn key_or_empty(key: Option<String>) -> Seq<char> {
    match key {
        Some(k) => k@,
        None => Seq::empty(),
    }
}

/// The cipher of `kind` holds the key `key`: the passphrase of the
/// passphrase and `age` ciphers, the fingerprint of the GPG cipher.
pub open spec fn cipher_holds(c: ProfileCipher, kind: CipherKind, key: Seq<char>) -> bool {
    &&& cipher_kind_of(c) == kind
    &&& match c {
        ProfileCipher::Plain(_) => true,
        ProfileCipher::Passphrase(p) => p.spec_key() == key && p.spec_salt() == Seq::<char>::empty()
            && p.spec_nonce() == Seq::<char>::empty(),
        ProfileCipher::Age(a) => a.spec_key() == key,
        ProfileCipher::Gpg(g) => g.spec_fingerprint() == key,
    }
}

/// A cipher of `kind` with `key`, or the empty key when none is given.
pub fn create_cipher(kind: CipherKind, key: Option<String>) -> (r: Result<ProfileCipher>)
    ensures
        r matches Ok(c) && cipher_holds(c, kind, key_or_empty(key)),
{
    let k = match key {
        Some(k) => k,
        None => String::new(),
    };
    match kind {
        CipherKind::NONE => Ok(ProfileCipher::Plain(NONE)),
        CipherKind::PASSPHRASE => Ok(ProfileCipher::Passphrase(PASSPHRASE::new(k))),
        CipherKind::AGE => Ok(ProfileCipher::Age(AGE::new(k))),
        CipherKind::GPG => Ok(ProfileCipher::Gpg(GPG::new(k))),
    }
}

/// The cipher to read a profile protected by `kind`: a passphrase cipher
/// takes its key from `key_provider`, and cannot be made without one; the
/// other kinds are made with the empty key.
pub fn profile_cipher<F: FnOnce() -> String>(kind: CipherKind, key_provider: Option<F>) -> (r: Result<ProfileCipher>)
    requires
        key_provider matches Some(f) ==> f.requires(()),
    ensures
        kind != CipherKind::PASSPHRASE ==> (r matches Ok(c) && cipher_holds(c, kind, Seq::empty())),
        kind == CipherKind::PASSPHRASE && key_provider is None ==> (r matches Err(Error::Msg(m))
            && m@ == "Key provider is required for passphrase-encrypted profiles"@),
        kind == CipherKind::PASSPHRASE && key_provider is Some ==> (r matches Ok(c) && exists|k: String|
            #[trigger] key_provider->0.ensures((), k) && cipher_holds(c, kind, k@)),
{
    let cipher = create_cipher(kind, None);
    match cipher {
        Ok(ProfileCipher::Passphrase(mut p)) => match key_provider {
            Some(f) => {
                let k = f();
                p.set_key(k);
                Ok(ProfileCipher::Passphrase(p))
            },
            None => Err(Error::Msg("Key provider is required for passphrase-encrypted profiles".to_owned())),
        },
        other => other,
    }
}

/// What a cipher decrypted: the bytes of the variables, or, for the cipher
/// that does not encrypt, their JSON text.
pub enum Decrypted {
    Bytes(Vec<u8>),
    Json(String),
}

/// The time now, by the local clock. Nothing is stated of it.
#[verifier::external_body]
fn local_now() -> (r: Timestamp) {
    let n = chrono::Local::now();
    Timestamp { secs: n.timestamp(), nanos: n.timestamp_subsec_nanos(), offset: n.offset().local_minus_utc() }
}

/// `m` is what the cipher `c` keeps beside a profile.
pub open spec fn metadata_of(c: ProfileCipher, m: Option<CipherMetadata>) -> bool {
    match c {
        ProfileCipher::Passphrase(p) => m matches Some(CipherMetadata::Passphrase(pm)) && pm.salt@ == p.spec_salt()
            && pm.nonce@ == p.spec_nonce(),
        ProfileCipher::Gpg(g) => m matches Some(CipherMetadata::Gpg { key_fingerprint }) && key_fingerprint@
            == g.spec_fingerprint(),
        _ => m is None,
    }
}

impl ProfileCipher {
    /// The kind of the cipher.
    pub fn kind(&self) -> (r: CipherKind)
        ensures
            r == cipher_kind_of(*self),
    {
        match self {
            ProfileCipher::Plain(c) => c.kind(),
            ProfileCipher::Passphrase(c) => c.kind(),
            ProfileCipher::Age(c) => c.kind(),
            ProfileCipher::Gpg(c) => c.kind(),
        }
    }

    /// The settings the cipher keeps beside a profile: the passphrase
    /// cipher's salt and nonce, or the GPG key's fingerprint.
    pub fn export_metadata(&self) -> (r: Option<CipherMetadata>)
        ensures
            metadata_of(*self, r),
    {
        match self {
            ProfileCipher::Passphrase(p) => Some(CipherMetadata::Passphrase(p.export_metadata())),
            ProfileCipher::Gpg(g) => Some(CipherMetadata::Gpg { key_fingerprint: g.get_key_fingerprint() }),
            _ => None,
        }
    }

    /// Takes the settings `m` kept beside a profile into the cipher: the
    /// passphrase cipher takes a salt and nonce, the GPG cipher a key's
    /// fingerprint; settings of another kind, or none, change nothing.
    pub fn import_metadata(&mut self, m: &Option<CipherMetadata>)
        ensures
            cipher_kind_of(*final(self)) == cipher_kind_of(*old(self)),
            *old(self) matches ProfileCipher::Passphrase(p) ==> (*m matches Some(CipherMetadata::Passphrase(pm))
                ==> (*final(self) matches ProfileCipher::Passphrase(q) && q.spec_key() == p.spec_key()
                && q.spec_salt() == pm.salt@ && q.spec_nonce() == pm.nonce@)),
            *old(self) is Gpg ==> (*m matches Some(CipherMetadata::Gpg { key_fingerprint }) ==> (*final(self)
                matches ProfileCipher::Gpg(g) && g.spec_fingerprint() == key_fingerprint@)),
            !((*old(self) is Passphrase && *m matches Some(CipherMetadata::Passphrase(_))) || (*old(self) is Gpg
                && *m matches Some(CipherMetadata::Gpg { .. }))) ==> *final(self) == *old(self),
    {
        match (self, m) {
            (ProfileCipher::Passphrase(p), Some(CipherMetadata::Passphrase(pm))) => {
                p.import_metadata(PassphraseMetadata { salt: pm.salt.clone(), nonce: pm.nonce.clone() });
            },
            (ProfileCipher::Gpg(g), Some(CipherMetadata::Gpg { key_fingerprint })) => {
                g.set_key_fingerprint(key_fingerprint.clone());
            },
            _ => {},
        }
    }

    /// Encrypts the variables: their JSON text `envs_json` is stored as it is
    /// by the cipher that does not encrypt, their bytes `data` are encrypted
    /// by the passphrase and `age` ciphers. Nothing is done for GPG, whose
    /// work is left to GnuPG outside the library.
    pub fn encrypt(&mut self, data: &[u8], envs_json: String) -> (r: Option<Result<EncryptedContent>>)
        ensures
            cipher_kind_of(*final(self)) == cipher_kind_of(*old(self)),
            (r is None) == (cipher_kind_of(*old(self)) == CipherKind::GPG),
            *old(self) is Plain ==> (r matches Some(Ok(EncryptedContent::Json(t))) && t@ == envs_json@),
            *old(self) is Gpg ==> *final(self) == *old(self),
            *old(self) is Passphrase ==> (r matches Some(Ok(c)) ==> (c is Bytes && reads_back(*final(self), c, data@))),
            *old(self) matches ProfileCipher::Passphrase(p) ==> (*final(self) matches ProfileCipher::Passphrase(q)
                && q.spec_key() == p.spec_key()),
            *old(self) matches ProfileCipher::Passphrase(p) ==> (r matches Some(Err(_)) <==> (encode_utf8(
                p.spec_key(),
            ).len() > ARGON2_MAX_LEN || !stream_fits(data@.len(), 0))),
            *old(self) matches ProfileCipher::Age(a) ==> (*final(self) matches ProfileCipher::Age(b) && b.spec_key()
                == a.spec_key()),
            *old(self) is Age ==> (r matches Some(Ok(c)) && reads_back(*final(self), c, data@)),
            *old(self) is Age ==> (r matches Some(Ok(EncryptedContent::Bytes(b))) && begins_with(b@, age_header_line())),
    {
        match self {
            ProfileCipher::Plain(c) => Some(c.encrypt(envs_json)),
            ProfileCipher::Passphrase(c) => match c.encrypt(data) {
                Ok(b) => {
                    proof {
                        let key = encode_utf8(c.spec_key());
                        let salt = encode_utf8(c.spec_salt());
                        let n = choose|n: Seq<u8>|
                            {
                                &&& n.len() == NONCE_SIZE
                                &&& #[trigger] base64_decoded(c.spec_nonce()) == decoded_to(n)
                                &&& sealed_stream(argon2_key(key, salt), n, data@, 0) == Some(b@)
                                &&& stream_reopens(argon2_key(key, salt), n, data@, 0)
                            };
                        law_passphrase_round_trip(key, salt, c.spec_nonce(), n, data@, b@);
                    }
                    Some(Ok(EncryptedContent::Bytes(b)))
                },
                Err(e) => Some(Err(e)),
            },
            ProfileCipher::Age(c) => Some(c.encrypt(data)),
            ProfileCipher::Gpg(_) => None,
        }
    }

    /// Decrypts stored content: the cipher that does not encrypt gives the
    /// JSON text back, the passphrase and `age` ciphers the decrypted bytes.
    /// Nothing is done for GPG, whose work is left to GnuPG.
    pub fn decrypt(&self, content: &EncryptedContent) -> (r: Option<Result<Decrypted>>)
        ensures
            (r is None) == (cipher_kind_of(*self) == CipherKind::GPG),
            *self is Plain ==> match content {
                EncryptedContent::Json(t) => r matches Some(Ok(Decrypted::Json(s))) && s@ == t@,
                EncryptedContent::Bytes(_) => r matches Some(Err(Error::Cipher(m)))
                    && m@ == "Encrypted data is not a JSON object"@,
            },
            *self matches ProfileCipher::Passphrase(p) ==> (nonce_fits(
                encode_utf8(p.spec_key()),
                encode_utf8(p.spec_salt()),
                p.spec_nonce(),
            ) ==> match passphrase_decrypted(
                encode_utf8(p.spec_key()),
                encode_utf8(p.spec_salt()),
                p.spec_nonce(),
                content_bytes(*content),
            ) {
                Ok(d) => r matches Some(Ok(Decrypted::Bytes(q))) && q@ == d,
                Err(m) => r matches Some(Err(Error::Cipher(q))) && q@ == m,
            }),
            *self matches ProfileCipher::Passphrase(p) ==> (!nonce_fits(
                encode_utf8(p.spec_key()),
                encode_utf8(p.spec_salt()),
                p.spec_nonce(),
            ) ==> (r matches Some(Err(Error::Cipher(q))) && q@ == "invalid nonce length"@)),
            *self is Age ==> (!begins_with(content_bytes(*content), age_header_line()) ==> r matches Some(Err(_))),
            *self matches ProfileCipher::Age(a) ==> (r matches Some(Ok(d)) ==> (d matches Decrypted::Bytes(q)
                && q@ == age_opened(a.spec_key(), content_bytes(*content)))),
    {
        match self {
            ProfileCipher::Plain(c) => match c.decrypt(content) {
                Ok(t) => Some(Ok(Decrypted::Json(t))),
                Err(e) => Some(Err(e)),
            },
            ProfileCipher::Passphrase(c) => {
                let bytes = match content.as_bytes() {
                    Ok(b) => b,
                    Err(e) => {
                        return Some(Err(e));
                    },
                };
                match c.decrypt_checked(bytes.as_slice()) {
                    Ok(p) => Some(Ok(Decrypted::Bytes(p))),
                    Err(e) => Some(Err(e)),
                }
            },
            ProfileCipher::Age(c) => match c.decrypt(content) {
                Ok(p) => Some(Ok(Decrypted::Bytes(p))),
                Err(e) => Some(Err(e)),
            },
            ProfileCipher::Gpg(_) => None,
        }
    }
}

/// Two ciphers of the same kind, with the same key and settings.
pub open spec fn same_cipher(a: ProfileCipher, b: ProfileCipher) -> bool {
    match (a, b) {
        (ProfileCipher::Plain(_), ProfileCipher::Plain(_)) => true,
        (ProfileCipher::Passphrase(p), ProfileCipher::Passphrase(q)) => p.spec_key() == q.spec_key()
            && p.spec_salt() == q.spec_salt() && p.spec_nonce() == q.spec_nonce(),
        (ProfileCipher::Age(p), ProfileCipher::Age(q)) => p.spec_key() == q.spec_key(),
        (ProfileCipher::Gpg(p), ProfileCipher::Gpg(q)) => p.spec_fingerprint() == q.spec_fingerprint(),
        _ => false,
    }
}

/// The same settings of a cipher.
pub open spec fn same_metadata(a: Option<CipherMetadata>, b: Option<CipherMetadata>) -> bool {
    match (a, b) {
        (None, None) => true,
        (Some(CipherMetadata::Passphrase(p)), Some(CipherMetadata::Passphrase(q))) => p.salt@ == q.salt@
            && p.nonce@ == q.nonce@,
        (Some(CipherMetadata::Gpg { key_fingerprint: f }), Some(CipherMetadata::Gpg { key_fingerprint: g })) => f@
            == g@,
        _ => false,
    }
}

/// The same metadata of a profile.
pub open spec fn same_profile_metadata(a: ProfileMetadata, b: ProfileMetadata) -> bool {
    &&& a.name@ == b.name@
    &&& a.version@ == b.version@
    &&& crate::env::opt_str_view(a.description) == crate::env::opt_str_view(b.description)
    &&& a.file_path@ == b.file_path@
    &&& a.cipher_kind == b.cipher_kind
    &&& same_metadata(a.cipher_metadata, b.cipher_metadata)
    &&& a.created_at == b.created_at
    &&& a.updated_at == b.updated_at
}

fn copy_opt_string(s: &Option<String>) -> (r: Option<String>)
    ensures
        crate::env::opt_str_view(r) == crate::env::opt_str_view(*s),
{
    match s {
        Some(t) => Some(t.clone()),
        None => None,
    }
}

impl CipherMetadata {
    /// A copy of the settings.
    pub fn duplicate(&self) -> (r: CipherMetadata)
        ensures
            same_metadata(Some(*self), Some(r)),
    {
        match self {
            CipherMetadata::Passphrase(p) => CipherMetadata::Passphrase(
                PassphraseMetadata { salt: p.salt.clone(), nonce: p.nonce.clone() },
            ),
            CipherMetadata::Gpg { key_fingerprint } => CipherMetadata::Gpg { key_fingerprint: key_fingerprint.clone() },
        }
    }
}

impl ProfileMetadata {
    /// A copy of the metadata.
    pub fn duplicate(&self) -> (r: ProfileMetadata)
        ensures
            same_profile_metadata(*self, r),
    {
        let cipher_metadata = match &self.cipher_metadata {
            Some(m) => Some(m.duplicate()),
            None => None,
        };
        ProfileMetadata {
            name: self.name.clone(),
            version: self.version.clone(),
            description: copy_opt_string(&self.description),
            file_path: self.file_path.clone(),
            cipher_kind: self.cipher_kind,
            cipher_metadata,
            created_at: self.created_at,
            updated_at: self.updated_at,
        }
    }
}

impl ProfileCipher {
    /// A cipher of the same kind, with the same key and settings.
    pub fn duplicate(&self) -> (r: ProfileCipher)
        ensures
            same_cipher(*self, r),
    {
        match self {
            ProfileCipher::Plain(_) => ProfileCipher::Plain(NONE),
            ProfileCipher::Passphrase(p) => {
                let mut q = PASSPHRASE::new(p.get_key());
                q.import_metadata(p.export_metadata());
                ProfileCipher::Passphrase(q)
            },
            ProfileCipher::Age(a) => ProfileCipher::Age(AGE::new(a.get_key())),
            ProfileCipher::Gpg(g) => ProfileCipher::Gpg(GPG::new(g.get_key_fingerprint())),
        }
    }
}

/// A profile: its metadata, its variables and the cipher that protects them.
pub struct Profile {
    pub metadata: ProfileMetadata,
    pub envs: EnvMap,
    pub cipher: ProfileCipher,
}

impl Profile {
    /// A copy of the profile: the same metadata, variables and cipher.
    pub fn duplicate(&self) -> (r: Profile)
        ensures
            same_profile_metadata(self.metadata, r.metadata),
            r.envs.wf(),
            r.envs@ == self.envs@,
            same_cipher(self.cipher, r.cipher),
    {
        proof {
            use_type_invariant(&self.envs);
        }
        Profile { metadata: self.metadata.duplicate(), envs: self.envs.duplicate(), cipher: self.cipher.duplicate() }
    }

    /// A new profile, stamped now, written by this version of the library.
    pub fn new(name: String, description: Option<String>, file_path: String, envs: EnvMap, cipher: ProfileCipher) -> (r: Profile)
        ensures
            r.metadata.name@ == name@,
            r.metadata.version@ == VERSION@,
            r.metadata.description == description,
            r.metadata.file_path@ == file_path@,
            r.metadata.cipher_kind == cipher_kind_of(cipher),
            metadata_of(cipher, r.metadata.cipher_metadata),
            r.envs == envs,
            r.cipher == cipher,
    {
        let cipher_kind = cipher.kind();
        let cipher_metadata = cipher.export_metadata();
        let created_at = local_now();
        let updated_at = local_now();
        Profile {
            metadata: ProfileMetadata {
                name,
                version: VERSION.to_owned(),
                description,
                file_path,
                cipher_kind,
                cipher_metadata,
                created_at,
                updated_at,
            },
            envs,
            cipher,
        }
    }

    /// Encrypts the variables for saving (see [`ProfileCipher::encrypt`]);
    /// once they are encrypted, the profile is stamped now and takes the
    /// cipher's new settings into its metadata.
    pub fn encrypt_for_save(&mut self, data: &[u8], envs_json: String) -> (r: Option<Result<EncryptedContent>>)
        ensures
            (r is None) == (cipher_kind_of(old(self).cipher) == CipherKind::GPG),
            final(self).metadata.name == old(self).metadata.name,
            final(self).metadata.version == old(self).metadata.version,
            final(self).metadata.description == old(self).metadata.description,
            final(self).metadata.file_path == old(self).metadata.file_path,
            final(self).metadata.cipher_kind == old(self).metadata.cipher_kind,
            final(self).metadata.created_at == old(self).metadata.created_at,
            final(self).envs == old(self).envs,
            cipher_kind_of(final(self).cipher) == cipher_kind_of(old(self).cipher),
            r matches Some(Ok(_)) ==> metadata_of(final(self).cipher, final(self).metadata.cipher_metadata),
            !(r matches Some(Ok(_))) ==> final(self).metadata.cipher_metadata == old(self).metadata.cipher_metadata
                && final(self).metadata.updated_at == old(self).metadata.updated_at,
            old(self).cipher is Plain ==> (r matches Some(Ok(EncryptedContent::Json(t))) && t@ == envs_json@),
            old(self).cipher is Passphrase ==> (r matches Some(Ok(c)) ==> reads_back(final(self).cipher, c, data@)),
            old(self).cipher matches ProfileCipher::Passphrase(p) ==> (r matches Some(Err(_)) <==> (encode_utf8(
                p.spec_key(),
            ).len() > ARGON2_MAX_LEN || !stream_fits(data@.len(), 0))),
            old(self).cipher is Age ==> (r matches Some(Ok(c)) && reads_back(final(self).cipher, c, data@)),
            old(self).cipher is Age ==> (r matches Some(Ok(EncryptedContent::Bytes(b))) && begins_with(
                b@,
                age_header_line(),
            )),
    {
        let r = self.cipher.encrypt(data, envs_json);
        match &r {
            Some(Ok(_)) => {
                self.metadata.updated_at = local_now();
                self.metadata.cipher_metadata = self.cipher.export_metadata();
            },
            _ => {},
        }
        r
    }
}

} // verus!
