//! Argon2id password hashing, verification against an encoded hash, and
//! derivation of a 256-bit key from a password and a salt.
use vstd::prelude::*;
use vstd::utf8::*;
use vstd::string::StringSliceAdditionalSpecFns;
use argon2::{PasswordHasher, PasswordVerifier};
use crate::encoding::{base64_of, is_base64, base64_decoded, encode_base64, decode_base64, lemma_decode_encode};
use crate::error::CryptoError;
use crate::random::{os_random_bytes, KEY_LEN};

verus! {

/// Memory cost of the library's Argon2id parameters, in KiB.
pub const M_COST: u32 = 262144;

/// Number of passes of the library's Argon2id parameters.
pub const T_COST: u32 = 6;

/// Degree of parallelism of the library's Argon2id parameters.
pub const P_COST: u32 = 2;

/// Length of the digest held in an encoded password hash, in bytes.
pub const HASH_LEN: usize = 64;

/// Length of a freshly drawn salt, in bytes.
pub const SALT_LEN: usize = 16;

/// The shortest salt that Argon2 accepts, in bytes.
pub const MIN_SALT_LEN: usize = 8;

/// The longest salt that an encoded password hash can hold, in bytes.
pub const MAX_PHC_SALT_LEN: usize = 48;

/// The longest password or salt that Argon2 accepts, in bytes.
pub const MAX_INPUT_LEN: u64 = 0xFFFF_FFFF;

/// Whether the text is a well-formed encoded password hash (the PHC string
/// format: algorithm, version, parameters, salt and digest).
pub uninterp spec fn phc_well_formed(encoded: Seq<char>) -> bool;

/// The lane count (`p`) that a well-formed encoded hash names, when it names
/// one as a decimal.
pub uninterp spec fn phc_lanes(encoded: Seq<char>) -> Option<u32>;

/// Whether the password, hashed again with the algorithm, parameters and
/// salt that the encoded hash names, gives the digest that it holds.
pub uninterp spec fn phc_accepts(encoded: Seq<char>, password: Seq<u8>) -> bool;

/// The encoded hash (PHC string format: `$argon2id$v=19$m=..,t=..,p=..$`,
/// then the salt and the `out_len`-byte digest in unpadded base64) that
/// Argon2id (version 0x13) makes of `password` and `salt` with the given
/// memory cost, passes and parallelism.
pub uninterp spec fn phc_string(
    m_cost: u32,
    t_cost: u32,
    p_cost: u32,
    password: Seq<u8>,
    salt: Seq<u8>,
    out_len: usize,
) -> Seq<char>;

/// The key that Argon2id (version 0x13) derives from `password` and `salt`
/// with the given memory cost, passes, parallelism and output length.
pub uninterp spec fn argon2id_output(
    m_cost: u32,
    t_cost: u32,
    p_cost: u32,
    password: Seq<u8>,
    salt: Seq<u8>,
    out_len: usize,
) -> Seq<u8>;

#[verifier::external_type_specification]
#[verifier::external_body]
pub struct ExArgon2Error(argon2::Error);

#[verifier::external_type_specification]
#[verifier::external_body]
pub struct ExPasswordHashError(argon2::password_hash::Error);

/// The cost parameters of an Argon2id run.
#[derive(Clone, Copy, Debug, PartialEq, Eq, Structural)]
pub struct Argon2Cost {
    /// Memory, in KiB.
    pub m_cost: u32,
    /// Number of passes.
    pub t_cost: u32,
    /// Degree of parallelism.
    pub p_cost: u32,
}

impl Argon2Cost {
    /// Parameters that Argon2 accepts: at least one pass, one to 2^24 - 1
    /// lanes, and at least 8 KiB of memory per lane.
    pub open spec fn valid(&self) -> bool {
        &&& 1 <= self.t_cost
        &&& 1 <= self.p_cost <= 0xFF_FFFF
        &&& 8 * self.p_cost <= self.m_cost
    }

    /// The library's parameters: 256 MiB, six passes, two lanes.
    pub open spec fn standard_spec() -> Argon2Cost {
        Argon2Cost { m_cost: M_COST, t_cost: T_COST, p_cost: P_COST }
    }

    /// The library's parameters: 256 MiB, six passes, two lanes.
    pub fn standard() -> (r: Argon2Cost)
        ensures
            r.valid(),
            r == Argon2Cost::standard_spec(),
    {
        Argon2Cost { m_cost: M_COST, t_cost: T_COST, p_cost: P_COST }
    }
}

/// Relies on argon2's `PasswordHash::new`: whether it parses the text.
#[verifier::external_body]
fn parses_as_phc(encoded: &str) -> (r: bool)
    ensures
        r == phc_well_formed(encoded@),
{
    argon2::PasswordHash::new(encoded).is_ok()
}

/// Relies on argon2's `PasswordHasher::hash_password` for Argon2id v0x13
/// (with `SaltString::encode_b64` and `Params::new` to build its inputs):
/// given a salt of at least 8 bytes, it succeeds when the salt is at most
/// 48 bytes and the password at most 2^32 - 1 bytes, and the encoded hash it
/// returns parses, names the lane count it was made with, and verifies
/// against the same password. (A salt under
/// 3 bytes would make `SaltString::as_salt` panic, so none is passed.)
#[verifier::external_body]
fn argon2id_phc(password: &[u8], salt: &[u8], cost: &Argon2Cost, out_len: usize) -> (r: Result<String, argon2::password_hash::Error>)
    requires
        cost.valid(),
        10 <= out_len <= 64,
        MIN_SALT_LEN <= salt@.len(),
    ensures
        r is Ok <==> (salt@.len() <= MAX_PHC_SALT_LEN && password@.len() <= MAX_INPUT_LEN),
        r matches Ok(s) ==> s@ == phc_string(cost.m_cost, cost.t_cost, cost.p_cost, password@, salt@, out_len),
        r matches Ok(s) ==> phc_well_formed(s@) && phc_accepts(s@, password@),
        r matches Ok(s) ==> phc_lanes(s@) == Some(cost.p_cost),
{
    let salt = argon2::password_hash::SaltString::encode_b64(salt)?;
    let params = argon2::Params::new(cost.m_cost, cost.t_cost, cost.p_cost, Some(out_len))?;
    let hasher = argon2::Argon2::new(argon2::Algorithm::Argon2id, argon2::Version::V0x13, params);
    Ok(hasher.hash_password(password, &salt)?.to_string())
}

/// Relies on password-hash's `ParamsString::get_decimal`: the `p` parameter
/// of the parsed encoded hash, when present and decimal.
#[verifier::external_body]
fn phc_lane_count(encoded: &str) -> (r: Option<u32>)
    requires
        phc_well_formed(encoded@),
    ensures
        r == phc_lanes(encoded@),
{
    match argon2::PasswordHash::new(encoded) {
        Ok(h) => h.params.get_decimal("p"),
        Err(_) => None,
    }
}

/// A well-formed encoded hash whose lane count, if it names one, is within
/// Argon2's bound. (Argon2 computes `8 * p` before checking `p`, so a larger
/// count could overflow.)
pub open spec fn phc_usable(encoded: Seq<char>) -> bool {
    &&& phc_well_formed(encoded)
    &&& match phc_lanes(encoded) {
        Some(p) => p <= 0xFF_FFFF,
        None => true,
    }
}

/// Relies on argon2's `PasswordVerifier::verify_password`, which takes the
/// algorithm, parameters and salt from the parsed encoded hash.
#[verifier::external_body]
fn argon2_verify(encoded: &str, password: &[u8]) -> (r: bool)
    requires
        phc_usable(encoded@),
    ensures
        r == phc_accepts(encoded@, password@),
{
    match argon2::PasswordHash::new(encoded) {
        Ok(h) => argon2::Argon2::default().verify_password(password, &h).is_ok(),
        Err(_) => false,
    }
}

/// Relies on argon2's `Argon2::hash_password_into` for Argon2id v0x13 (with
/// `Params::new` to build its parameters): it succeeds when the salt is
/// 8 to 2^32 - 1 bytes and the password at most 2^32 - 1 bytes.
#[verifier::external_body]
fn argon2id_raw(password: &[u8], salt: &[u8], cost: &Argon2Cost, out_len: usize) -> (r: Result<Vec<u8>, argon2::Error>)
    requires
        cost.valid(),
        4 <= out_len <= MAX_INPUT_LEN,
    ensures
        r is Ok <==> (MIN_SALT_LEN <= salt@.len() <= MAX_INPUT_LEN && password@.len() <= MAX_INPUT_LEN),
        r matches Ok(k) ==> k@ == argon2id_output(cost.m_cost, cost.t_cost, cost.p_cost, password@, salt@, out_len),
        r matches Ok(k) ==> k@.len() == out_len,
{
    let params = argon2::Params::new(cost.m_cost, cost.t_cost, cost.p_cost, Some(out_len))?;
    let hasher = argon2::Argon2::new(argon2::Algorithm::Argon2id, argon2::Version::V0x13, params);
    let mut out = vec![0u8; out_len];
    hasher.hash_password_into(password, salt, &mut out)?;
    Ok(out)
}

/// The password's bytes fit Argon2's input bound.
pub open spec fn password_fits(password: Seq<char>) -> bool {
    encode_utf8(password).len() <= MAX_INPUT_LEN
}

/// An encoded hash that verifies against `password`.
pub open spec fn is_hash_of(encoded: Seq<char>, password: Seq<char>) -> bool {
    phc_usable(encoded) && phc_accepts(encoded, encode_utf8(password))
}

/// The encoded hash of `password` with `salt` under `cost`, with a 64-byte
/// digest.
pub open spec fn hash_with(password: Seq<char>, salt: Seq<u8>, cost: Argon2Cost) -> Seq<char> {
    phc_string(cost.m_cost, cost.t_cost, cost.p_cost, encode_utf8(password), salt, HASH_LEN)
}

/// Hashes `password` with Argon2id under `cost`, with the given salt, into
/// an encoded hash with a 64-byte digest.
pub fn hash_password_with_salt(password: &str, salt: &[u8], cost: &Argon2Cost) -> (r: Result<String, CryptoError>)
    requires
        cost.valid(),
    ensures
        r is Ok <==> (MIN_SALT_LEN <= salt@.len() <= MAX_PHC_SALT_LEN && password_fits(password@)),
        r is Err ==> r == Err::<String, CryptoError>(CryptoError::Hashing),
        r matches Ok(s) ==> s@ == hash_with(password@, salt@, *cost),
        r matches Ok(s) ==> is_hash_of(s@, password@),
{
    if salt.len() < MIN_SALT_LEN {
        return Err(CryptoError::Hashing);
    }
    match argon2id_phc(password.as_bytes(), salt, cost, HASH_LEN) {
        Ok(s) => Ok(s),
        Err(_) => Err(CryptoError::Hashing),
    }
}

/// Hashes `password` with Argon2id under `cost` and a fresh random salt.
pub fn hash_password_with_cost(password: &str, cost: &Argon2Cost) -> (r: String)
    requires
        cost.valid(),
        password_fits(password@),
    ensures
        exists|salt: Seq<u8>| salt.len() == SALT_LEN && r@ == hash_with(password@, salt, *cost),
        is_hash_of(r@, password@),
{
    let salt = os_random_bytes(SALT_LEN);
    match hash_password_with_salt(password, salt.as_slice(), cost) {
        Ok(s) => s,
        Err(_) => {
            proof {
                assert(false);
            }
            String::new()
        },
    }
}

/// Hashes `password` with the library's Argon2id parameters and a fresh
/// random salt, into an encoded hash that carries everything needed to
/// verify it.
pub fn hash_password(password: &str) -> (r: String)
    requires
        password_fits(password@),
    ensures
        exists|salt: Seq<u8>| salt.len() == SALT_LEN && r@ == hash_with(password@, salt, Argon2Cost::standard_spec()),
        is_hash_of(r@, password@),
{
    hash_password_with_cost(password, &Argon2Cost::standard())
}

/// Checks `password` against a well-formed encoded hash.
pub fn verify_password(stored_hash: &str, password: &str) -> (r: bool)
    requires
        phc_usable(stored_hash@),
    ensures
        r == phc_accepts(stored_hash@, encode_utf8(password@)),
{
    argon2_verify(stored_hash, password.as_bytes())
}

/// Checks `password` against an encoded hash, or reports that the hash is
/// malformed or names more lanes than Argon2 allows.
pub fn try_verify_password(stored_hash: &str, password: &str) -> (r: Result<bool, CryptoError>)
    ensures
        !phc_usable(stored_hash@) ==> r == Err::<bool, CryptoError>(CryptoError::MalformedHash),
        phc_usable(stored_hash@) ==> r == Ok::<bool, CryptoError>(phc_accepts(stored_hash@, encode_utf8(password@))),
{
    if !parses_as_phc(stored_hash) {
        return Err(CryptoError::MalformedHash);
    }
    match phc_lane_count(stored_hash) {
        Some(p) => if p > 0xFF_FFFF {
            return Err(CryptoError::MalformedHash);
        },
        None => {},
    }
    Ok(verify_password(stored_hash, password))
}

/// An encoded hash that meets what `hash_password` (or
/// `hash_password_with_cost`) ensures for a password meets what
/// `verify_password` requires, and `verify_password` returns true for that
/// password against it.
pub proof fn lemma_hash_then_verify(password: Seq<char>, encoded: Seq<char>, cost: Argon2Cost)
    requires
        exists|salt: Seq<u8>| salt.len() == SALT_LEN && encoded == hash_with(password, salt, cost),
        is_hash_of(encoded, password),
    ensures
        phc_usable(encoded),
        phc_accepts(encoded, encode_utf8(password)),
{
}

/// A derived key and the salt it was derived with, both as standard base64.
#[derive(Clone, Debug, PartialEq, Eq)]
pub struct DerivedKey {
    pub key: String,
    pub salt: String,
}

/// The key and salt texts of a derivation result, or its error.
pub open spec fn derived_view(r: Result<DerivedKey, CryptoError>) -> Result<(Seq<char>, Seq<char>), CryptoError> {
    match r {
        Ok(d) => Ok((d.key@, d.salt@)),
        Err(e) => Err(e),
    }
}

/// The characters of an optional text.
pub open spec fn text_view(t: Option<String>) -> Option<Seq<char>> {
    match t {
        Some(s) => Some(s@),
        None => None,
    }
}

/// The salt fits Argon2's bounds.
pub open spec fn salt_fits(salt: Seq<u8>) -> bool {
    MIN_SALT_LEN <= salt.len() <= MAX_INPUT_LEN
}

/// What deriving a key from `password` with the salt bytes `salt` yields.
pub open spec fn derived_from(password: Seq<char>, salt: Seq<u8>, cost: Argon2Cost) -> Result<(Seq<char>, Seq<char>), CryptoError> {
    if salt_fits(salt) && password_fits(password) {
        Ok((
            base64_of(argon2id_output(cost.m_cost, cost.t_cost, cost.p_cost, encode_utf8(password), salt, KEY_LEN)),
            base64_of(salt),
        ))
    } else {
        Err(CryptoError::KeyDerivation)
    }
}

/// What deriving a key from `password` and an optional base64 salt may
/// yield: with a salt, the derivation from its bytes, or an error when it
/// is not base64; without one, the derivation from some fresh 16-byte salt.
pub open spec fn derive_outcome(
    password: Seq<char>,
    salt_b64: Option<Seq<char>>,
    cost: Argon2Cost,
    r: Result<(Seq<char>, Seq<char>), CryptoError>,
) -> bool {
    match salt_b64 {
        Some(s) => if is_base64(s) {
            r == derived_from(password, base64_decoded(s), cost)
        } else {
            r == Err::<(Seq<char>, Seq<char>), CryptoError>(CryptoError::InvalidSaltBase64)
        },
        None => exists|salt: Seq<u8>| salt.len() == SALT_LEN && r == derived_from(password, salt, cost),
    }
}

/// Derives a 32-byte key from `password` and the salt bytes with Argon2id
/// under `cost`.
pub fn derive_key_with_salt(password: &str, salt: &[u8], cost: &Argon2Cost) -> (r: Result<DerivedKey, CryptoError>)
    requires
        cost.valid(),
    ensures
        derived_view(r) == derived_from(password@, salt@, *cost),
        r matches Ok(d) ==> is_base64(d.key@) && base64_decoded(d.key@).len() == KEY_LEN,
{
    match argon2id_raw(password.as_bytes(), salt, cost, KEY_LEN) {
        Ok(key) => {
            proof {
                lemma_decode_encode(key@);
            }
            Ok(DerivedKey { key: encode_base64(key.as_slice()), salt: encode_base64(salt) })
        },
        Err(_) => Err(CryptoError::KeyDerivation),
    }
}

/// Derives a 32-byte key from `password` with Argon2id under `cost`, using
/// the given base64 salt or, without one, a fresh random 16-byte salt.
pub fn derive_key_with_cost(password: &str, salt_b64: Option<String>, cost: &Argon2Cost) -> (r: Result<DerivedKey, CryptoError>)
    requires
        cost.valid(),
    ensures
        derive_outcome(password@, text_view(salt_b64), *cost, derived_view(r)),
        r matches Ok(d) ==> is_base64(d.key@) && base64_decoded(d.key@).len() == KEY_LEN,
{
    match salt_b64 {
        Some(s) => match decode_base64(s.as_str()) {
            Some(salt) => derive_key_with_salt(password, salt.as_slice(), cost),
            None => Err(CryptoError::InvalidSaltBase64),
        },
        None => {
            let salt = os_random_bytes(SALT_LEN);
            derive_key_with_salt(password, salt.as_slice(), cost)
        },
    }
}

/// Derives a 32-byte key from `password` with the library's Argon2id
/// parameters, using the given base64 salt or a fresh random one; the salt
/// is returned so that the same key can be derived again.
pub fn derive_key_from_password(password: &str, salt_b64: Option<String>) -> (r: Result<DerivedKey, CryptoError>)
    ensures
        derive_outcome(password@, text_view(salt_b64), Argon2Cost::standard_spec(), derived_view(r)),
        r matches Ok(d) ==> is_base64(d.key@) && base64_decoded(d.key@).len() == KEY_LEN,
{
    derive_key_with_cost(password, salt_b64, &Argon2Cost::standard())
}

/// Deriving again from the same password with the salt that a first
/// derivation returned gives the same key and salt.
pub proof fn lemma_rederive_same_key(
    password: Seq<char>,
    cost: Argon2Cost,
    first: (Seq<char>, Seq<char>),
    second: Result<(Seq<char>, Seq<char>), CryptoError>,
)
    requires
        derive_outcome(password, None, cost, Ok(first)),
        derive_outcome(password, Some(first.1), cost, second),
    ensures
        second == Ok::<(Seq<char>, Seq<char>), CryptoError>(first),
{
    let salt = choose|salt: Seq<u8>| salt.len() == SALT_LEN && Ok::<(Seq<char>, Seq<char>), CryptoError>(first) == derived_from(password, salt, cost);
    lemma_decode_encode(salt);
}

} // verus!
