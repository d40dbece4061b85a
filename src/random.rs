//! Bytes from the operating system's secure random source.
use vstd::prelude::*;
use rand::RngCore;

verus! {

/// Length of a symmetric key, in bytes.
pub const KEY_LEN: usize = 32;

/// Relies on rand's `OsRng::fill_bytes`: it overwrites every byte of the
/// buffer; which values come out is left to chance.
#[verifier::external_body]
pub(crate) fn os_random_bytes(n: usize) -> (r: Vec<u8>)
    ensures
        r@.len() == n,
{
    let mut buf = vec![0u8; n];
    rand::rngs::OsRng.fill_bytes(&mut buf);
    buf
}

/// A fresh random AES-256 key.
pub fn generate_aes_256_gcm_key() -> (r: Vec<u8>)
    ensures
        r@.len() == KEY_LEN,
{
    os_random_bytes(KEY_LEN)
}

} // verus!
