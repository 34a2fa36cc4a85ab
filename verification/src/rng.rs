//! Fresh random key material from the system entropy source. Nothing is
//! promised about the bytes themselves — only lengths and, for the fallible
//! form, when a buffer is handed back at all.

use vstd::prelude::*;

verus! {

/// Generate `len` fresh random bytes for key generation.
///
/// Relies on getrandom::getrandom to fill the buffer from the system entropy
/// source; on failure the error is discarded and the still-zeroed buffer is
/// returned, so only the length is promised.
#[verifier::external_body]
pub fn random_bytes(len: usize) -> (result: Vec<u8>)
    ensures
        result@.len() == len,
{
    let mut buffer = vec![0u8; len];
    getrandom::getrandom(&mut buffer).unwrap_or_default();
    buffer
}

/// Generate `len` fresh random bytes, reporting entropy failure.
///
/// Relies on getrandom::getrandom: on success the whole buffer was filled
/// from the system entropy source; on failure no bytes are handed out and the
/// error's description is returned instead.
#[verifier::external_body]
pub(crate) fn try_random_bytes(len: usize) -> (result: Result<Vec<u8>, String>)
    ensures
        result matches Ok(bytes) ==> bytes@.len() == len,
{
    let mut buffer = vec![0u8; len];
    match getrandom::getrandom(&mut buffer) {
        Ok(()) => Ok(buffer),
        Err(e) => Err(format!("{}", e)),
    }
}

} // verus!
