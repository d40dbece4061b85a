//! AES-256-GCM encryption of UTF-8 text, with nonce and ciphertext carried
//! as standard base64.
use vstd::prelude::*;
use vstd::utf8::*;
use vstd::string::StringSliceAdditionalSpecFns;
use aes_gcm::aead::{Aead, KeyInit};
use crate::encoding::{
    base64_of, is_base64, base64_decoded, encode_base64, decode_base64, lemma_decode_encode,
};
use crate::error::CryptoError;
use crate::random::{os_random_bytes, KEY_LEN};

verus! {

/// Length of a nonce, in bytes.
pub const NONCE_LEN: usize = 12;

/// Length of the authentication tag that follows the encrypted bytes.
pub const TAG_LEN: usize = 16;

/// The longest plaintext, in bytes, that the cipher accepts.
pub const MAX_PLAINTEXT_LEN: u64 = 0x10_0000_0000;

/// The ciphertext (encrypted bytes, then the tag) that AES-256-GCM makes of
/// `plaintext` under `key` and `nonce`, with no associated data.
pub uninterp spec fn gcm_sealed(key: Seq<u8>, nonce: Seq<u8>, plaintext: Seq<u8>) -> Seq<u8>;

/// What AES-256-GCM decryption gives for `ciphertext` under `key` and
/// `nonce`: the plaintext, or `None` when authentication fails.
pub uninterp spec fn gcm_opened(key: Seq<u8>, nonce: Seq<u8>, ciphertext: Seq<u8>) -> Option<Seq<u8>>;

#[verifier::external_type_specification]
#[verifier::external_body]
pub struct ExAeadError(aes_gcm::Error);

/// Relies on aes-gcm's `Aes256Gcm::encrypt`: it refuses a plaintext longer
/// than 2^36 bytes and otherwise returns the encrypted bytes followed by a
/// 16-byte tag, which decryption under the same key and nonce opens again.
#[verifier::external_body]
fn gcm_encrypt(key: &[u8], nonce: &[u8], plaintext: &[u8]) -> (r: Result<Vec<u8>, aes_gcm::Error>)
    requires
        key@.len() == KEY_LEN,
        nonce@.len() == NONCE_LEN,
    ensures
        r is Ok <==> plaintext@.len() <= MAX_PLAINTEXT_LEN,
        r matches Ok(c) ==> c@ == gcm_sealed(key@, nonce@, plaintext@),
        r matches Ok(c) ==> c@.len() == plaintext@.len() + TAG_LEN,
        r matches Ok(c) ==> gcm_opened(key@, nonce@, c@) == Some(plaintext@),
{
    let cipher = aes_gcm::Aes256Gcm::new(aes_gcm::Key::<aes_gcm::Aes256Gcm>::from_slice(key));
    cipher.encrypt(aes_gcm::Nonce::<aes_gcm::aead::consts::U12>::from_slice(nonce), plaintext)
}

/// Relies on aes-gcm's `Aes256Gcm::decrypt`: the plaintext when the tag
/// authenticates the ciphertext under the key and nonce, an error otherwise;
/// a ciphertext shorter than the tag is refused.
#[verifier::external_body]
fn gcm_decrypt(key: &[u8], nonce: &[u8], ciphertext: &[u8]) -> (r: Result<Vec<u8>, aes_gcm::Error>)
    requires
        key@.len() == KEY_LEN,
        nonce@.len() == NONCE_LEN,
    ensures
        r matches Ok(p) ==> gcm_opened(key@, nonce@, ciphertext@) == Some(p@),
        r is Err ==> gcm_opened(key@, nonce@, ciphertext@) is None,
        ciphertext@.len() < TAG_LEN ==> r is Err,
{
    let cipher = aes_gcm::Aes256Gcm::new(aes_gcm::Key::<aes_gcm::Aes256Gcm>::from_slice(key));
    cipher.decrypt(aes_gcm::Nonce::<aes_gcm::aead::consts::U12>::from_slice(nonce), ciphertext)
}

/// Relies on std's `String::from_utf8`: it succeeds exactly on well-formed
/// UTF-8 and then holds the characters those bytes encode.
#[verifier::external_body]
fn utf8_text(bytes: Vec<u8>) -> (r: Option<String>)
    ensures
        r is Some <==> valid_utf8(bytes@),
        r matches Some(s) ==> s@ == decode_utf8(bytes@),
{
    String::from_utf8(bytes).ok()
}

/// A nonce and the ciphertext made with it, both as standard base64.
#[derive(Clone, Debug, PartialEq, Eq)]
pub struct EncryptedText {
    pub nonce: String,
    pub cipher: String,
}

/// The base64 texts that encrypting `text` under `key` with the nonce bytes
/// `nonce` yields.
pub open spec fn encrypted_with(
    key: Seq<u8>,
    nonce: Seq<u8>,
    text: Seq<char>,
    nonce_b64: Seq<char>,
    cipher_b64: Seq<char>,
) -> bool {
    let ct = gcm_sealed(key, nonce, encode_utf8(text));
    &&& nonce.len() == NONCE_LEN
    &&& nonce_b64 == base64_of(nonce)
    &&& cipher_b64 == base64_of(ct)
    &&& ct.len() == encode_utf8(text).len() + TAG_LEN
    &&& gcm_opened(key, nonce, ct) == Some(encode_utf8(text))
}

/// The text fits the cipher's plaintext bound once encoded as UTF-8.
pub open spec fn fits_cipher(text: Seq<char>) -> bool {
    encode_utf8(text).len() <= MAX_PLAINTEXT_LEN
}

/// Encrypts `text` under `key_bytes` with the given nonce.
pub fn encrypt_with_nonce(text: &str, key_bytes: &[u8], nonce: &[u8]) -> (r: Result<EncryptedText, CryptoError>)
    requires
        nonce@.len() == NONCE_LEN,
    ensures
        key_bytes@.len() != KEY_LEN ==> r == Err::<EncryptedText, CryptoError>(CryptoError::InvalidKeyLength),
        key_bytes@.len() == KEY_LEN && !fits_cipher(text@) ==> r == Err::<EncryptedText, CryptoError>(CryptoError::Encryption),
        key_bytes@.len() == KEY_LEN && fits_cipher(text@) ==> r is Ok,
        r matches Ok(e) ==> encrypted_with(key_bytes@, nonce@, text@, e.nonce@, e.cipher@),
{
    if key_bytes.len() != KEY_LEN {
        return Err(CryptoError::InvalidKeyLength);
    }
    match gcm_encrypt(key_bytes, nonce, text.as_bytes()) {
        Ok(ct) => Ok(EncryptedText { nonce: encode_base64(nonce), cipher: encode_base64(ct.as_slice()) }),
        Err(_) => Err(CryptoError::Encryption),
    }
}

/// Encrypts `text` under `key_bytes` with a fresh random nonce.
pub fn encrypt_aes_256_gcm(text: &str, key_bytes: Vec<u8>) -> (r: Result<EncryptedText, CryptoError>)
    ensures
        key_bytes@.len() != KEY_LEN ==> r == Err::<EncryptedText, CryptoError>(CryptoError::InvalidKeyLength),
        key_bytes@.len() == KEY_LEN && !fits_cipher(text@) ==> r == Err::<EncryptedText, CryptoError>(CryptoError::Encryption),
        key_bytes@.len() == KEY_LEN && fits_cipher(text@) ==> r is Ok,
        r matches Ok(e) ==> exists|n: Seq<u8>| encrypted_with(key_bytes@, n, text@, e.nonce@, e.cipher@),
{
    if key_bytes.len() != KEY_LEN {
        return Err(CryptoError::InvalidKeyLength);
    }
    let nonce = os_random_bytes(NONCE_LEN);
    encrypt_with_nonce(text, key_bytes.as_slice(), nonce.as_slice())
}

/// What decryption yields for the given base64 nonce and ciphertext under
/// `key`: each check in turn, then authentication, then UTF-8 decoding.
pub open spec fn decrypt_outcome(nonce_b64: Seq<char>, cipher_b64: Seq<char>, key: Seq<u8>) -> Result<Seq<char>, CryptoError> {
    if key.len() != KEY_LEN {
        Err(CryptoError::InvalidKeyLength)
    } else if !is_base64(nonce_b64) {
        Err(CryptoError::InvalidNonceBase64)
    } else if base64_decoded(nonce_b64).len() != NONCE_LEN {
        Err(CryptoError::InvalidNonceLength)
    } else if !is_base64(cipher_b64) {
        Err(CryptoError::InvalidCipherBase64)
    } else {
        match gcm_opened(key, base64_decoded(nonce_b64), base64_decoded(cipher_b64)) {
            None => Err(CryptoError::Decryption),
            Some(p) => if valid_utf8(p) {
                Ok(decode_utf8(p))
            } else {
                Err(CryptoError::InvalidUtf8)
            },
        }
    }
}

/// Decrypts a base64 ciphertext made by AES-256-GCM under `key_bytes` with
/// the base64 nonce.
pub fn decrypt_aes_256_gcm(nonce_b64: &str, cipher_text_b64: &str, key_bytes: Vec<u8>) -> (r: Result<String, CryptoError>)
    ensures
        r matches Ok(s) ==> decrypt_outcome(nonce_b64@, cipher_text_b64@, key_bytes@) == Ok::<Seq<char>, CryptoError>(s@),
        r matches Err(e) ==> decrypt_outcome(nonce_b64@, cipher_text_b64@, key_bytes@) == Err::<Seq<char>, CryptoError>(e),
        key_bytes@.len() == KEY_LEN && is_base64(nonce_b64@) && base64_decoded(nonce_b64@).len() == NONCE_LEN
            && is_base64(cipher_text_b64@) && base64_decoded(cipher_text_b64@).len() < TAG_LEN
            ==> r == Err::<String, CryptoError>(CryptoError::Decryption),
{
    if key_bytes.len() != KEY_LEN {
        return Err(CryptoError::InvalidKeyLength);
    }
    let nonce = match decode_base64(nonce_b64) {
        Some(n) => n,
        None => return Err(CryptoError::InvalidNonceBase64),
    };
    if nonce.len() != NONCE_LEN {
        return Err(CryptoError::InvalidNonceLength);
    }
    let ct = match decode_base64(cipher_text_b64) {
        Some(c) => c,
        None => return Err(CryptoError::InvalidCipherBase64),
    };
    let plain = match gcm_decrypt(key_bytes.as_slice(), nonce.as_slice(), ct.as_slice()) {
        Ok(p) => p,
        Err(_) => return Err(CryptoError::Decryption),
    };
    match utf8_text(plain) {
        Some(s) => Ok(s),
        None => Err(CryptoError::InvalidUtf8),
    }
}

/// Decrypting what encryption produced, under the same key, gives back the
/// original text.
pub proof fn lemma_decrypt_inverts_encrypt(
    text: Seq<char>,
    key: Seq<u8>,
    nonce: Seq<u8>,
    nonce_b64: Seq<char>,
    cipher_b64: Seq<char>,
)
    requires
        key.len() == KEY_LEN,
        encrypted_with(key, nonce, text, nonce_b64, cipher_b64),
    ensures
        decrypt_outcome(nonce_b64, cipher_b64, key) == Ok::<Seq<char>, CryptoError>(text),
{
    let ct = gcm_sealed(key, nonce, encode_utf8(text));
    lemma_decode_encode(nonce);
    lemma_decode_encode(ct);
    encode_utf8_valid_utf8(text);
    encode_utf8_decode_utf8(text);
}

} // verus!
