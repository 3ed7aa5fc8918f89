//! The encrypted store: authenticated encryption of a byte payload under a
//! passphrase-derived key.
//!
//! Encryption and decryption are done by the `cocoon` crate; this module
//! wraps its two calls behind trusted contracts and maps its error type to
//! the library's own.  Reading and writing the container file is the
//! application layer's task: this module works on bytes alone.

use vstd::prelude::*;

verus! {

/// The rough kind of an underlying input/output failure.
#[derive(Clone, Copy, Debug, PartialEq, Eq, Structural)]
pub enum IoKind {
    /// The data read is not what was written (for instance not valid text).
    InvalidData,
    /// The file could not be accessed.
    PermissionDenied,
    /// Any other input/output failure.
    Other,
}

/// Why the encrypted store failed.
#[derive(Clone, Copy, Debug, PartialEq, Eq, Structural)]
pub enum StoreError {
    /// The container's authentication failed: wrong passphrase, or the file
    /// was tampered with.  No plaintext is ever returned in this case.
    WrongPassphraseOrTampered,
    /// The file does not look like this system's container format.
    UnrecognizedFormat,
    /// The container is shorter than its own length field claims.
    TooShort,
    /// The container is too large to process on this architecture.
    TooLarge,
    /// The underlying read or write failed.
    Io(IoKind),
}

/// The message shown for each store error.
pub open spec fn spec_store_error_message(e: StoreError) -> Seq<char> {
    match e {
        StoreError::WrongPassphraseOrTampered =>
            "Invalid password for file. This file is not accessible with this program"@,
        StoreError::UnrecognizedFormat => "Unrecognized file type or format"@,
        StoreError::TooLarge =>
            "File too large to decrypt. This most likely means it was not encrypted properly"@,
        StoreError::TooShort =>
            "File too short to decrypt. This most likely means it was not encrypted properly"@,
        StoreError::Io(IoKind::InvalidData) =>
            "Invalid data. This most likely means it was not encrypted properly"@,
        StoreError::Io(IoKind::PermissionDenied) => "Permission denied"@,
        StoreError::Io(IoKind::Other) => "Unknown file error! Please try again"@,
    }
}

impl StoreError {
    /// A human-readable description of the error.
    pub fn message(&self) -> (r: &'static str)
        ensures
            r@ == spec_store_error_message(*self),
    {
        match self {
            StoreError::WrongPassphraseOrTampered =>
                "Invalid password for file. This file is not accessible with this program",
            StoreError::UnrecognizedFormat => "Unrecognized file type or format",
            StoreError::TooLarge =>
                "File too large to decrypt. This most likely means it was not encrypted properly",
            StoreError::TooShort =>
                "File too short to decrypt. This most likely means it was not encrypted properly",
            StoreError::Io(IoKind::InvalidData) =>
                "Invalid data. This most likely means it was not encrypted properly",
            StoreError::Io(IoKind::PermissionDenied) => "Permission denied",
            StoreError::Io(IoKind::Other) => "Unknown file error! Please try again",
        }
    }
}

/// The error type of the `cocoon` crate, opaque to verification.
#[verifier::external_type_specification]
#[verifier::external_body]
pub struct ExCocoonError(cocoon::Error);

/// What `cocoon`'s unwrap yields for given container bytes and passphrase:
/// `Some` of the plaintext exactly when the container parses and its
/// authentication tag verifies under that passphrase.  Unwrapping reads
/// nothing but its two inputs, so the result is a function of them.
pub uninterp spec fn unwrap_of(container: Seq<u8>, key: Seq<u8>) -> Option<Seq<u8>>;

/// Bytes of header and authentication tag that every container carries: no
/// container is shorter.
pub const CONTAINER_OVERHEAD: usize = 60;

/// Relies on `cocoon::Cocoon::wrap` (ChaCha20-Poly1305 over a PBKDF2 key,
/// fresh random salt and nonce per call): the returned container is the
/// 44-byte header, the 16-byte tag, and the payload, and unwrapping it
/// under the same passphrase yields the payload back.
#[verifier::external_body]
fn cocoon_wrap(plain: &[u8], key: &[u8]) -> (r: Result<Vec<u8>, cocoon::Error>)
    ensures
        match r {
            Ok(c) => unwrap_of(c@, key@) == Some(plain@) && c@.len() == plain@.len()
                + CONTAINER_OVERHEAD,
            Err(_) => true,
        },
{
    cocoon::Cocoon::new(key).wrap(plain)
}

/// Relies on `cocoon::Cocoon::unwrap`: deterministic parsing and decryption
/// of the container under the passphrase; anything shorter than one header
/// and tag is rejected.
#[verifier::external_body]
fn cocoon_unwrap(container: &[u8], key: &[u8]) -> (r: Result<Vec<u8>, cocoon::Error>)
    ensures
        match r {
            Ok(p) => unwrap_of(container@, key@) == Some(p@),
            Err(_) => unwrap_of(container@, key@) is None,
        },
        container@.len() < CONTAINER_OVERHEAD ==> r is Err,
{
    cocoon::Cocoon::parse_only(key).unwrap(container)
}

/// Relies on the variants of `cocoon::Error` and `std::io::ErrorKind`: each
/// variant is carried over to the library's own taxonomy, nothing else.
#[verifier::external_body]
fn store_error_of(e: cocoon::Error) -> StoreError {
    match e {
        cocoon::Error::Cryptography => StoreError::WrongPassphraseOrTampered,
        cocoon::Error::UnrecognizedFormat => StoreError::UnrecognizedFormat,
        cocoon::Error::TooLarge => StoreError::TooLarge,
        cocoon::Error::TooShort => StoreError::TooShort,
        cocoon::Error::Io(err) => match err.kind() {
            std::io::ErrorKind::InvalidData => StoreError::Io(IoKind::InvalidData),
            std::io::ErrorKind::PermissionDenied => StoreError::Io(IoKind::PermissionDenied),
            _ => StoreError::Io(IoKind::Other),
        },
    }
}

/// Encrypts `plain` under `key` into an authenticated container.  Whatever
/// container comes back (salt and nonce are fresh random bytes each call),
/// decrypting it under the same key yields `plain` again.
pub fn encrypt_bytes(plain: &[u8], key: &[u8]) -> (r: Result<Vec<u8>, StoreError>)
    ensures
        match r {
            Ok(c) => unwrap_of(c@, key@) == Some(plain@) && c@.len() == plain@.len()
                + CONTAINER_OVERHEAD,
            Err(_) => true,
        },
{
    match cocoon_wrap(plain, key) {
        Ok(c) => Ok(c),
        Err(e) => Err(store_error_of(e)),
    }
}

/// Decrypts a container under `key`: returns the plaintext exactly when the
/// container authenticates under `key`, and an error otherwise — never a
/// tampered or mis-keyed plaintext.
pub fn decrypt_bytes(container: &[u8], key: &[u8]) -> (r: Result<Vec<u8>, StoreError>)
    ensures
        match r {
            Ok(p) => unwrap_of(container@, key@) == Some(p@),
            Err(_) => unwrap_of(container@, key@) is None,
        },
        container@.len() < CONTAINER_OVERHEAD ==> r is Err,
{
    match cocoon_unwrap(container, key) {
        Ok(p) => Ok(p),
        Err(e) => Err(store_error_of(e)),
    }
}

} // verus!
