//! The ciphers that protect the variables of a profile.

pub mod kind;

pub use kind::CipherKind;
pub mod b64;
pub mod stream;
pub mod passphrase;
pub mod age;
pub mod content;
pub mod none;

pub use age::AGE;
pub use content::EncryptedContent;
pub use none::NONE;
pub use passphrase::PASSPHRASE;
pub mod gpg;

pub use gpg::GPG;
