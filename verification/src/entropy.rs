//! Bytes from the operating system's random number generator.
use vstd::prelude::*;

use rand::rngs::OsRng;
use rand::RngCore;

verus! {

/// `OsRng::fill_bytes` of the `rand` crate: every byte of `dest` is overwritten
/// with one from the operating system. Which bytes come is left to chance; that
/// there are as many as before is all that holds of every outcome. Where the
/// operating system has no random numbers to give, the call panics.
#[verifier::external_body]
pub(crate) fn os_fill_bytes(dest: &mut [u8])
    ensures
        final(dest)@.len() == old(dest)@.len(),
{
    OsRng.fill_bytes(dest)
}

/// `size` random bytes.
pub fn random(size: usize) -> (bytes: Vec<u8>)
    ensures
        bytes@.len() == size,
{
    let mut bytes: Vec<u8> = vec![0; size];
    os_fill_bytes(&mut bytes);
    bytes
}

} // verus!
