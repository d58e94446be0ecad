//! The host-facing entropy utility: 32 bytes from a secure system source.
//!
//! This source is distinct from the general-purpose generator that seeds a
//! grid; the two are never conflated.

use vstd::prelude::*;

verus! {

/// The system entropy source failed to supply bytes. The failure is
/// reported, not retried.
#[derive(Debug)]
pub struct EntropyError;

#[verifier::external_type_specification]
#[verifier::external_body]
pub struct ExGetrandomError(getrandom::Error);

/// Relies on getrandom::getrandom: fills the destination slice with
/// cryptographically secure random bytes, or reports the source's error.
/// Writing through a slice cannot resize the buffer, so its length is kept
/// whatever comes back; nothing is promised of the bytes themselves.
#[verifier::external_body]
fn fill_entropy(buf: &mut Vec<u8>) -> (r: Result<(), getrandom::Error>)
    ensures
        final(buf)@.len() == old(buf)@.len(),
{
    getrandom::getrandom(buf.as_mut_slice())
}

/// 32 random bytes from the system entropy source, or an explicit failure
/// when the source cannot supply them.
pub fn generate_random() -> (r: Result<Vec<u8>, EntropyError>)
    ensures
        r matches Ok(bytes) ==> bytes@.len() == 32,
{
    let mut buffer: Vec<u8> = vec![0u8; 32];
    match fill_entropy(&mut buffer) {
        Ok(()) => Ok(buffer),
        Err(_) => Err(EntropyError),
    }
}

} // verus!
