//! Password hashing, password-based key derivation and AES-256-GCM
//! encryption of text, with each operation's behaviour stated as a contract.
pub mod encoding;
pub mod error;
pub mod random;
pub mod cipher;
pub mod password;
