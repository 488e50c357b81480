//! Access to the system's secure random source, through `ring`.

use vstd::prelude::*;

use ring::rand::SecureRandom;
use ring::rand::SystemRandom;

verus! {

/// Handle to the operating system's cryptographically secure random source.
#[verifier::external_type_specification]
#[verifier::external_body]
pub struct ExSystemRandom(SystemRandom);

/// Relies on `ring::rand::SystemRandom::new`: constructs a handle to the
/// system random source.
#[verifier::external_body]
pub(crate) fn new_system_random() -> SystemRandom {
    SystemRandom::new()
}

/// Relies on `ring::rand::SecureRandom::fill`: fills a buffer of the given
/// length with bytes from the system random source, failing only if that
/// source does. Nothing is assumed of the bytes themselves.
#[verifier::external_body]
pub(crate) fn fill_random(rng: &SystemRandom, len: usize) -> (r: Result<Vec<u8>, ()>)
    ensures
        r matches Ok(v) ==> v@.len() == len,
{
    let mut bytes = vec![0u8; len];
    match rng.fill(&mut bytes) {
        Ok(()) => Ok(bytes),
        Err(_) => Err(()),
    }
}

} // verus!
