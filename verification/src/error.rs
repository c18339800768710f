use vstd::prelude::*;

verus! {

/// Errors raised by the library.
///
/// Errors of the outside world (files, serialisation formats) are added by the
/// application around the library; the library's own logic raises these.
#[derive(Debug)]
pub enum Error {
    /// A variable that was asked for is not in the profile.
    EnvDoesNotExist(String),
    /// A cipher failed to encrypt or decrypt.
    Cipher(String),
    /// Bytes that should have been UTF-8 were not.
    Utf8Error,
    /// No profile of that name exists.
    ProfileDoesNotExist(String),
    /// A profile was given an empty name.
    ProfileNameEmpty,
    /// A profile of that name already exists.
    ProfileExists(String),
    /// The profile holds no variables.
    EmptyProfile(String),
    /// No completion script is written for the shell of that name.
    UnsupportedShell(String),
    /// Any other failure, described in words.
    Msg(String),
}

/// The result type of the library.
pub type Result<T> = std::result::Result<T, Error>;

} // verus!
