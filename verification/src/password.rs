//! Master-password hashing, verification, and key derivation.
//!
//! One memory-hard primitive serves both duties: `hash_password` /
//! `verify_password` guard the vault, and `derive_key` turns the master
//! password and the vault salt into the 32-byte working key. Derivation is
//! deterministic, so the key can be re-derived on every unlock and never
//! needs to be stored.

use vstd::prelude::*;
use vstd::string::StringExecFns;
use vstd::utf8::encode_utf8;

use argon2::password_hash;
use argon2::Argon2;
use argon2::PasswordHasher;
use argon2::PasswordVerifier;
use ring::rand::SystemRandom;

use crate::error::Error;
use crate::sysrand::fill_random;
use crate::sysrand::new_system_random;

verus! {

/// Length in bytes of the vault salt and of the derived working key.
pub const KEY_LEN: usize = 32;

/// What password verification decides for a given password and encoded hash:
/// `Some(true)` on a match, `Some(false)` on a mismatch, `None` when the
/// encoding cannot be checked at all.
pub uninterp spec fn verify_of(password: Seq<char>, encoded: Seq<char>) -> Option<bool>;

/// What the memory-hard hash yields for a given password and raw salt, with
/// the hasher's default parameters.
pub uninterp spec fn raw_hash_of(password: Seq<char>, salt: Seq<u8>) -> Seq<u8>;

/// The derived working key: the raw hash, truncated or zero-padded to
/// exactly 32 bytes.
pub open spec fn derived_key_of(password: Seq<char>, salt: Seq<u8>) -> Seq<u8> {
    Seq::new(
        32,
        |i: int|
            if i < raw_hash_of(password, salt).len() {
                raw_hash_of(password, salt)[i]
            } else {
                0u8
            },
    )
}

/// Round trip of hashing and verification: `hash_password` ensures of its
/// encoded output that verification with the same password decides
/// `Some(true)`, and `verify_password` returns exactly that decision — so
/// verifying a password against its own fresh hash yields `Ok(true)`.
pub proof fn lemma_hash_then_verify(password: Seq<char>, encoded: Seq<char>, outcome: Option<bool>)
    requires
        verify_of(password, encoded) == Some(true),
        outcome == verify_of(password, encoded),
    ensures
        outcome == Some(true),
{
}

/// Determinism of key derivation: the derived key is a function of
/// (password, salt) alone, so two derivations from the same inputs always
/// agree — which is why the working key never needs to be stored.
pub proof fn lemma_derive_key_deterministic(
    password: Seq<char>,
    salt: Seq<u8>,
    k1: Seq<u8>,
    k2: Seq<u8>,
)
    requires
        k1 == derived_key_of(password, salt),
        k2 == derived_key_of(password, salt),
    ensures
        k1 == k2,
{
}

/// The Argon2 hasher type, opaque to the verifier.
#[verifier::external_type_specification]
#[verifier::external_body]
pub struct ExArgon2<'key>(Argon2<'key>);

/// Relies on `argon2::Argon2::default`: Argon2id v19 with the crate's
/// default cost parameters and 32-byte output length.
#[verifier::external_body]
fn argon2_default() -> Argon2<'static> {
    Argon2::default()
}

/// Relies on `PasswordHasher::hash_password` (argon2 with the `phc` string
/// format): hashes the password over a freshly generated random salt and
/// returns the PHC-encoded hash string and that salt's raw bytes. Verifying
/// the same password against the returned encoding recomputes the same hash,
/// so it decides `Some(true)`.
#[verifier::external_body]
fn argon2_hash(a2: &Argon2<'static>, password: &str) -> (r: Result<(String, Vec<u8>), ()>)
    ensures
        r matches Ok(p) ==> verify_of(password@, p.0@) == Some(true),
{
    let h = match a2.hash_password(password.as_bytes()) {
        Ok(h) => h,
        Err(_) => return Err(()),
    };
    let salt = match &h.salt {
        Some(s) => s.as_ref().to_vec(),
        None => return Err(()),
    };
    Ok((h.to_string(), salt))
}

/// Relies on `PasswordVerifier::verify_password` (argon2): deterministically
/// recomputes the hash described by the PHC-encoded string and compares;
/// a mismatched password reports `PasswordInvalid`, every other failure is
/// an error.
#[verifier::external_body]
fn argon2_verify(a2: &Argon2<'static>, password: &str, encoded: &str) -> (r: Result<bool, ()>)
    ensures
        r matches Ok(b) ==> verify_of(password@, encoded@) == Some(b),
        r is Err ==> verify_of(password@, encoded@) is None,
{
    match a2.verify_password(password.as_bytes(), encoded) {
        Ok(()) => Ok(true),
        Err(password_hash::Error::PasswordInvalid) => Ok(false),
        Err(_) => Err(()),
    }
}

/// Relies on `PasswordHasher::hash_password_with_salt` (argon2): hashes the
/// password over the given raw salt, deterministically in (password, salt),
/// producing the default output length of 32 bytes. The call succeeds
/// whenever the salt is 8 to 48 bytes and the password's encoding is at
/// most 2^32 - 1 bytes — the only other failure in the source is the
/// hasher's working-memory allocation, assumed to succeed as every
/// allocation is under this verification.
#[verifier::external_body]
fn argon2_raw_hash(a2: &Argon2<'static>, password: &str, salt: &[u8]) -> (r: Result<Vec<u8>, ()>)
    ensures
        r matches Ok(v) ==> v@ == raw_hash_of(password@, salt@) && v@.len() == 32,
        (8 <= salt@.len() <= 48 && encode_utf8(password@).len() <= 0xffffffff) ==> r is Ok,
{
    let h = match a2.hash_password_with_salt(password.as_bytes(), salt) {
        Ok(h) => h,
        Err(_) => return Err(()),
    };
    match &h.hash {
        Some(out) => Ok(out.as_bytes().to_vec()),
        None => Err(()),
    }
}

/// Password hashing and verification manager.
pub struct PasswordManager {
    argon2: Argon2<'static>,
    rng: SystemRandom,
}

impl PasswordManager {
    /// Creates a manager with the hasher's default parameters.
    pub fn new() -> Self {
        PasswordManager { argon2: argon2_default(), rng: new_system_random() }
    }

    /// Hashes a master password over a fresh random salt; returns the
    /// encoded hash and the salt. Verifying the same password against the
    /// returned encoding succeeds.
    pub fn hash_password(&self, password: &str) -> (r: Result<(String, Vec<u8>), Error>)
        ensures
            r matches Ok(p) ==> verify_of(password@, p.0@) == Some(true),
            r matches Err(e) ==> e is Crypto,
    {
        match argon2_hash(&self.argon2, password) {
            Ok(p) => Ok(p),
            Err(_) => Err(Error::Crypto(String::from_str("password hashing failed"))),
        }
    }

    /// Verifies a password against an encoded hash. Returns `Ok(false)` on a
    /// password mismatch, and an error only when the encoding cannot be
    /// checked at all.
    pub fn verify_password(&self, password: &str, hash: &str) -> (r: Result<bool, Error>)
        ensures
            r matches Ok(b) ==> verify_of(password@, hash@) == Some(b),
            r is Err <==> verify_of(password@, hash@) is None,
            r matches Err(e) ==> e is Crypto,
    {
        match argon2_verify(&self.argon2, password, hash) {
            Ok(b) => Ok(b),
            Err(_) => Err(Error::Crypto(String::from_str("invalid hash format"))),
        }
    }

    /// Generates a random 32-byte salt.
    pub fn generate_salt(&self) -> (r: Result<Vec<u8>, Error>)
        ensures
            r matches Ok(v) ==> v@.len() == 32,
            r matches Err(e) ==> e is Crypto,
    {
        match fill_random(&self.rng, KEY_LEN) {
            Ok(s) => Ok(s),
            Err(_) => Err(Error::Crypto(String::from_str("failed to generate salt"))),
        }
    }

    /// Derives the 32-byte working key from (password, salt),
    /// deterministically: the same inputs always yield the same key. The
    /// derivation succeeds whenever the salt is 8 to 48 bytes — in
    /// particular on every salt `generate_salt` yields — and the password's
    /// encoding is at most 2^32 - 1 bytes.
    pub fn derive_key(&self, password: &str, salt: &[u8]) -> (r: Result<Vec<u8>, Error>)
        ensures
            r matches Ok(k) ==> k@ == derived_key_of(password@, salt@) && k@.len() == 32,
            r matches Err(e) ==> e is Crypto,
            (8 <= salt@.len() <= 48 && encode_utf8(password@).len() <= 0xffffffff) ==> r is Ok,
    {
        let raw = match argon2_raw_hash(&self.argon2, password, salt) {
            Ok(v) => v,
            Err(_) => return Err(Error::Crypto(String::from_str("key derivation failed"))),
        };
        let mut key: Vec<u8> = Vec::new();
        let mut i: usize = 0;
        while i < KEY_LEN
            invariant
                i <= 32,
                raw@ == raw_hash_of(password@, salt@),
                key@.len() == i,
                forall|j: int|
                    0 <= j < i ==> key@[j] == (if j < raw@.len() {
                        raw@[j]
                    } else {
                        0u8
                    }),
            decreases 32 - i,
        {
            if i < raw.len() {
                let b = raw[i];
                key.push(b);
            } else {
                key.push(0u8);
            }
            i += 1;
        }
        proof {
            assert(key@ =~= derived_key_of(password@, salt@));
        }
        Ok(key)
    }
}

impl Default for PasswordManager {
    /// Same as `PasswordManager::new`.
    fn default() -> Self {
        PasswordManager::new()
    }
}

} // verus!
