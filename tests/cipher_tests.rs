use aes_gcm::aead::{Aead, KeyInit};
use rust_crypto_lib::cipher::{decrypt_aes_256_gcm, encrypt_aes_256_gcm, encrypt_with_nonce};
use rust_crypto_lib::encoding::{decode_base64, encode_base64};
use rust_crypto_lib::error::CryptoError;
use rust_crypto_lib::random::generate_aes_256_gcm_key;

fn key() -> Vec<u8> {
    (0u8..32).collect()
}

#[test]
fn encrypt_decrypt_round_trip() {
    for text in ["", "hello", "pässwörd ✓ 🦀", "a longer message that spans several blocks of the cipher"] {
        let e = encrypt_aes_256_gcm(text, key()).unwrap();
        assert_eq!(decode_base64(&e.nonce).unwrap().len(), 12);
        assert_eq!(decode_base64(&e.cipher).unwrap().len(), text.len() + 16);
        assert_eq!(decrypt_aes_256_gcm(&e.nonce, &e.cipher, key()), Ok(text.to_string()));
    }
}

#[test]
fn fresh_nonce_each_encryption() {
    let a = encrypt_aes_256_gcm("same", key()).unwrap();
    let b = encrypt_aes_256_gcm("same", key()).unwrap();
    assert_ne!(a.nonce, b.nonce);
    assert_ne!(a.cipher, b.cipher);
}

#[test]
fn decrypt_with_flipped_key_bit_fails() {
    let e = encrypt_aes_256_gcm("attack at dawn", key()).unwrap();
    for byte in [0usize, 15, 31] {
        for bit in [0u8, 7] {
            let mut k = key();
            k[byte] ^= 1 << bit;
            assert_eq!(decrypt_aes_256_gcm(&e.nonce, &e.cipher, k), Err(CryptoError::Decryption));
        }
    }
}

#[test]
fn decrypt_with_flipped_cipher_bit_fails() {
    let e = encrypt_aes_256_gcm("attack at dawn", key()).unwrap();
    let ct = decode_base64(&e.cipher).unwrap();
    for i in 0..ct.len() {
        for bit in 0..8 {
            let mut bad = ct.clone();
            bad[i] ^= 1 << bit;
            let r = decrypt_aes_256_gcm(&e.nonce, &encode_base64(&bad), key());
            assert_eq!(r, Err(CryptoError::Decryption));
        }
    }
}

#[test]
fn decrypt_with_other_nonce_fails() {
    let e = encrypt_aes_256_gcm("attack at dawn", key()).unwrap();
    let mut n = decode_base64(&e.nonce).unwrap();
    n[0] ^= 1;
    assert_eq!(decrypt_aes_256_gcm(&encode_base64(&n), &e.cipher, key()), Err(CryptoError::Decryption));
}

#[test]
fn generate_key_twice_differs() {
    let a = generate_aes_256_gcm_key();
    let b = generate_aes_256_gcm_key();
    assert_eq!(a.len(), 32);
    assert_eq!(b.len(), 32);
    assert_ne!(a, b);
}

#[test]
fn encrypt_rejects_bad_key_lengths() {
    for n in [0usize, 16, 31, 33] {
        assert_eq!(encrypt_aes_256_gcm("text", vec![1u8; n]), Err(CryptoError::InvalidKeyLength));
    }
}

#[test]
fn decrypt_rejects_bad_nonce_lengths() {
    let e = encrypt_aes_256_gcm("text", key()).unwrap();
    for n in [11usize, 13] {
        let nonce = encode_base64(&vec![0u8; n]);
        assert_eq!(decrypt_aes_256_gcm(&nonce, &e.cipher, key()), Err(CryptoError::InvalidNonceLength));
    }
}

#[test]
fn decrypt_reports_each_input_error() {
    let e = encrypt_aes_256_gcm("text", key()).unwrap();
    assert_eq!(decrypt_aes_256_gcm(&e.nonce, &e.cipher, vec![0u8; 31]), Err(CryptoError::InvalidKeyLength));
    assert_eq!(decrypt_aes_256_gcm("***", &e.cipher, key()), Err(CryptoError::InvalidNonceBase64));
    assert_eq!(decrypt_aes_256_gcm(&e.nonce, "***", key()), Err(CryptoError::InvalidCipherBase64));
    assert_eq!(decrypt_aes_256_gcm(&e.nonce, "", key()), Err(CryptoError::Decryption));
}

#[test]
fn decrypt_reports_invalid_utf8() {
    let k = key();
    let nonce = [9u8; 12];
    let cipher = aes_gcm::Aes256Gcm::new(aes_gcm::Key::<aes_gcm::Aes256Gcm>::from_slice(&k));
    let ct = cipher.encrypt(aes_gcm::Nonce::from_slice(&nonce), &[0xffu8, 0xfe][..]).unwrap();
    let r = decrypt_aes_256_gcm(&encode_base64(&nonce), &encode_base64(&ct), k);
    assert_eq!(r, Err(CryptoError::InvalidUtf8));
}

#[test]
fn encrypt_with_nonce_matches_known_answers() {
    // AES-256-GCM with an all-zero key and nonce.
    let zero_key = vec![0u8; 32];
    let zero_nonce = [0u8; 12];
    let e = encrypt_with_nonce("", &zero_key, &zero_nonce).unwrap();
    assert_eq!(e.nonce, "AAAAAAAAAAAAAAAA");
    assert_eq!(decode_base64(&e.cipher).unwrap(), hex(b"530f8afbc74536b9a963b4f1c4cb738b"));
    let e = encrypt_with_nonce("\0\0\0\0\0\0\0\0\0\0\0\0\0\0\0\0", &zero_key, &zero_nonce).unwrap();
    assert_eq!(
        decode_base64(&e.cipher).unwrap(),
        hex(b"cea7403d4d606b6e074ec5d3baf39d18d0d1c8a799996bf0265b98b5d48ab919")
    );
    assert_eq!(encrypt_with_nonce("x", &[0u8; 16], &zero_nonce), Err(CryptoError::InvalidKeyLength));
}

fn hex(s: &[u8]) -> Vec<u8> {
    s.chunks(2)
        .map(|p| u8::from_str_radix(std::str::from_utf8(p).unwrap(), 16).unwrap())
        .collect()
}

#[test]
fn empty_text_encrypts_to_tag_only() {
    let e = encrypt_aes_256_gcm("", vec![7u8; 32]).unwrap();
    assert_eq!(e.nonce.len(), 16);
    assert_eq!(e.cipher.len(), 24);
    assert_eq!(decode_base64(&e.cipher).unwrap().len(), 16);
}
