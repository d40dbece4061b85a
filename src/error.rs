//! The recoverable failures of the library's operations.
use vstd::prelude::*;

verus! {

/// Why an operation on caller-supplied data did not succeed. No variant
/// carries key, plaintext or password material.
#[derive(Clone, Copy, Debug, PartialEq, Eq, Structural)]
pub enum CryptoError {
    /// The key is not exactly 32 bytes long.
    InvalidKeyLength,
    /// The nonce text is not standard base64.
    InvalidNonceBase64,
    /// The decoded nonce is not exactly 12 bytes long.
    InvalidNonceLength,
    /// The ciphertext text is not standard base64.
    InvalidCipherBase64,
    /// The cipher refused to encrypt (the plaintext is too long).
    Encryption,
    /// Authentication failed: wrong key, wrong nonce or altered ciphertext.
    Decryption,
    /// The decrypted bytes are not well-formed UTF-8.
    InvalidUtf8,
    /// The salt text is not standard base64.
    InvalidSaltBase64,
    /// The key derivation function refused its inputs.
    KeyDerivation,
    /// The stored password hash is not a well-formed encoded hash.
    MalformedHash,
    /// The password hashing function refused its inputs.
    Hashing,
}

impl CryptoError {
    /// A short description that names the check that failed.
    pub fn message(&self) -> (r: &'static str)
        ensures
            *self == CryptoError::InvalidKeyLength ==> r@ == "Key must be 32 bytes"@,
            *self == CryptoError::InvalidNonceBase64 ==> r@ == "Invalid nonce base64"@,
            *self == CryptoError::InvalidNonceLength ==> r@ == "Nonce must be 12 bytes"@,
            *self == CryptoError::InvalidCipherBase64 ==> r@ == "Invalid cipher base64"@,
            *self == CryptoError::Encryption ==> r@ == "Encryption error"@,
            *self == CryptoError::Decryption ==> r@ == "Decryption error"@,
            *self == CryptoError::InvalidUtf8 ==> r@ == "UTF-8 decode error"@,
            *self == CryptoError::InvalidSaltBase64 ==> r@ == "Invalid salt base64"@,
            *self == CryptoError::KeyDerivation ==> r@ == "Key derivation error"@,
            *self == CryptoError::MalformedHash ==> r@ == "Failed to parse password hash"@,
            *self == CryptoError::Hashing ==> r@ == "Failed to hash password"@,
    {
        match self {
            CryptoError::InvalidKeyLength => "Key must be 32 bytes",
            CryptoError::InvalidNonceBase64 => "Invalid nonce base64",
            CryptoError::InvalidNonceLength => "Nonce must be 12 bytes",
            CryptoError::InvalidCipherBase64 => "Invalid cipher base64",
            CryptoError::Encryption => "Encryption error",
            CryptoError::Decryption => "Decryption error",
            CryptoError::InvalidUtf8 => "UTF-8 decode error",
            CryptoError::InvalidSaltBase64 => "Invalid salt base64",
            CryptoError::KeyDerivation => "Key derivation error",
            CryptoError::MalformedHash => "Failed to parse password hash",
            CryptoError::Hashing => "Failed to hash password",
        }
    }
}

} // verus!
