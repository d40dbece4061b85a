use rust_crypto_lib::error::CryptoError;
use rust_crypto_lib::password::{
    derive_key_with_cost, derive_key_with_salt, hash_password_with_cost, hash_password_with_salt,
    try_verify_password, verify_password, Argon2Cost,
};
use rust_crypto_lib::encoding::decode_base64;

fn cheap() -> Argon2Cost {
    Argon2Cost { m_cost: 64, t_cost: 1, p_cost: 1 }
}

#[test]
fn hash_then_verify_same_password() {
    for pw in ["", "a", "hunter2", "pässwörd ✓", "a much longer password with spaces in it"] {
        let h = hash_password_with_cost(pw, &cheap());
        assert!(verify_password(&h, pw));
    }
}

#[test]
fn verify_rejects_other_password() {
    let h = hash_password_with_cost("secret", &cheap());
    assert!(!verify_password(&h, "Secret"));
    assert!(!verify_password(&h, "secret "));
    assert!(!verify_password(&h, ""));
}

#[test]
fn hashing_twice_gives_distinct_hashes_that_both_verify() {
    let a = hash_password_with_cost("same password", &cheap());
    let b = hash_password_with_cost("same password", &cheap());
    assert_ne!(a, b);
    assert!(verify_password(&a, "same password"));
    assert!(verify_password(&b, "same password"));
}

#[test]
fn correct_horse_example() {
    let h = hash_password_with_cost("correct horse battery staple", &cheap());
    assert!(verify_password(&h, "correct horse battery staple"));
    assert!(!verify_password(&h, "Correct horse battery staple"));
}

#[test]
fn encoded_hash_names_algorithm_and_parameters() {
    let h = hash_password_with_cost("pw", &cheap());
    assert!(h.starts_with("$argon2id$v=19$m=64,t=1,p=1$"));
    let fixed = hash_password_with_salt("pw", &[7u8; 16], &cheap()).unwrap();
    assert_eq!(fixed, hash_password_with_salt("pw", &[7u8; 16], &cheap()).unwrap());
    assert!(fixed.starts_with("$argon2id$v=19$m=64,t=1,p=1$BwcHBwcHBwcHBwcHBwcHBw$"));
    assert!(verify_password(&fixed, "pw"));
}

#[test]
fn hashing_refuses_short_or_long_salt() {
    assert_eq!(hash_password_with_salt("pw", &[], &cheap()), Err(CryptoError::Hashing));
    assert_eq!(hash_password_with_salt("pw", &[1u8; 1], &cheap()), Err(CryptoError::Hashing));
    assert_eq!(hash_password_with_salt("pw", &[1u8; 2], &cheap()), Err(CryptoError::Hashing));
    assert_eq!(hash_password_with_salt("pw", &[1u8; 7], &cheap()), Err(CryptoError::Hashing));
    assert_eq!(hash_password_with_salt("pw", &[1u8; 49], &cheap()), Err(CryptoError::Hashing));
    assert!(hash_password_with_salt("pw", &[1u8; 8], &cheap()).is_ok());
    assert!(hash_password_with_salt("pw", &[1u8; 48], &cheap()).is_ok());
}

#[test]
fn malformed_hash_is_reported() {
    assert_eq!(try_verify_password("not a hash", "pw"), Err(CryptoError::MalformedHash));
    assert_eq!(try_verify_password("", "pw"), Err(CryptoError::MalformedHash));
    let h = hash_password_with_cost("pw", &cheap());
    assert_eq!(try_verify_password(&h, "pw"), Ok(true));
    assert_eq!(try_verify_password(&h, "px"), Ok(false));
}

#[test]
fn derive_again_with_returned_salt_gives_same_key() {
    let first = derive_key_with_cost("login password", None, &cheap()).unwrap();
    let second = derive_key_with_cost("login password", Some(first.salt.clone()), &cheap()).unwrap();
    assert_eq!(first.key, second.key);
    assert_eq!(first.salt, second.salt);
    assert_eq!(decode_base64(&first.key).unwrap().len(), 32);
    assert_eq!(decode_base64(&first.salt).unwrap().len(), 16);
}

#[test]
fn derived_key_depends_on_password_and_salt() {
    let salt = [3u8; 16];
    let a = derive_key_with_salt("one", &salt, &cheap()).unwrap();
    let b = derive_key_with_salt("two", &salt, &cheap()).unwrap();
    let c = derive_key_with_salt("one", &[4u8; 16], &cheap()).unwrap();
    assert_ne!(a.key, b.key);
    assert_ne!(a.key, c.key);
    assert_eq!(a.salt, "AwMDAwMDAwMDAwMDAwMDAw==");
    assert_ne!(a.key, a.salt);
    assert_eq!(a, derive_key_with_salt("one", &salt, &cheap()).unwrap());
}

#[test]
fn derive_reports_bad_salt() {
    assert_eq!(
        derive_key_with_cost("pw", Some("not base64!".to_string()), &cheap()),
        Err(CryptoError::InvalidSaltBase64)
    );
    // "AAAAAA==" holds four bytes: shorter than Argon2 accepts.
    assert_eq!(
        derive_key_with_cost("pw", Some("AAAAAA==".to_string()), &cheap()),
        Err(CryptoError::KeyDerivation)
    );
    assert!(derive_key_with_cost("pw", Some("AAAAAAAAAAA=".to_string()), &cheap()).is_ok());
}

#[test]
fn standard_cost_is_the_library_parameters() {
    assert_eq!(Argon2Cost::standard(), Argon2Cost { m_cost: 262144, t_cost: 6, p_cost: 2 });
}

#[test]
fn hash_naming_too_many_lanes_is_refused() {
    let huge = "$argon2id$v=19$m=65536,t=3,p=536870912$c29tZXNhbHQ$AAAAAAAAAAAAAAAAAAAAAA";
    assert_eq!(try_verify_password(huge, "pw"), Err(CryptoError::MalformedHash));
    let over = "$argon2id$v=19$m=65536,t=3,p=16777216$c29tZXNhbHQ$AAAAAAAAAAAAAAAAAAAAAA";
    assert_eq!(try_verify_password(over, "pw"), Err(CryptoError::MalformedHash));
    let at_bound = "$argon2id$v=19$m=65536,t=3,p=16777215$c29tZXNhbHQ$AAAAAAAAAAAAAAAAAAAAAA";
    assert_eq!(try_verify_password(at_bound, "pw"), Ok(false));
}
