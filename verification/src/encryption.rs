//! Authenticated encryption of opaque byte payloads.
//!
//! A sealed payload is laid out as `nonce (12 bytes) || ciphertext-with-tag`,
//! with a fresh random nonce drawn for every encryption call.

use vstd::prelude::*;
use vstd::slice::slice_subrange;
use vstd::string::StringExecFns;

use chacha20poly1305::aead::Aead;
use chacha20poly1305::aead::Generate;
use chacha20poly1305::aead::KeyInit;
use chacha20poly1305::ChaCha20Poly1305;
use ring::rand::SystemRandom;

use crate::error::Error;
use crate::sysrand::fill_random;
use crate::sysrand::new_system_random;

verus! {

/// Length of the nonce prepended to every sealed payload.
pub const NONCE_LEN: usize = 12;

/// Length of the authentication tag appended by the cipher.
pub const TAG_LEN: usize = 16;

/// What the cipher produces for a given key, nonce and plaintext: the
/// ciphertext with its authentication tag appended.
pub uninterp spec fn seal_of(key: Seq<u8>, nonce: Seq<u8>, plaintext: Seq<u8>) -> Seq<u8>;

/// What authenticated decryption yields for a given key, nonce and
/// ciphertext-with-tag: the plaintext when the ciphertext is authentic under
/// (key, nonce), and nothing otherwise.
pub uninterp spec fn open_of(key: Seq<u8>, nonce: Seq<u8>, ciphertext: Seq<u8>) -> Option<Seq<u8>>;

/// What `decrypt` yields on a whole sealed payload: the payload is split
/// into its nonce prefix and ciphertext, and opened.
pub open spec fn unseal_of(key: Seq<u8>, sealed: Seq<u8>) -> Option<Seq<u8>> {
    if key.len() == 32 && sealed.len() >= 12 {
        open_of(key, sealed.take(12), sealed.skip(12))
    } else {
        None
    }
}

/// Relies on `chacha20poly1305::Nonce::try_generate` (`aead::Generate`):
/// draws 12 fresh bytes from the system random source, failing only if that
/// source does. Nothing is assumed of the bytes themselves.
#[verifier::external_body]
fn generate_nonce_bytes() -> (r: Result<Vec<u8>, ()>)
    ensures
        r matches Ok(v) ==> v@.len() == 12,
{
    match chacha20poly1305::Nonce::try_generate() {
        Ok(n) => Ok(n.to_vec()),
        Err(_) => Err(()),
    }
}

/// Relies on `ChaCha20Poly1305::encrypt` (RFC 8439 AEAD, postfix tag): the
/// result is a deterministic function of (key, nonce, plaintext), is 16 bytes
/// longer than the plaintext, fails only when the plaintext reaches the
/// cipher's block-count limit, and authenticated decryption under the same
/// key and nonce inverts it.
#[verifier::external_body]
fn aead_seal(key: &[u8], nonce: &[u8], plaintext: &[u8]) -> (r: Result<Vec<u8>, ()>)
    requires
        key@.len() == 32,
        nonce@.len() == 12,
    ensures
        plaintext@.len() < 0x3fffffffc0 ==> r is Ok,
        r matches Ok(v) ==> v@ == seal_of(key@, nonce@, plaintext@) && v@.len() == plaintext@.len()
            + TAG_LEN && open_of(key@, nonce@, v@) == Some(plaintext@),
{
    let cipher = match ChaCha20Poly1305::new_from_slice(key) {
        Ok(c) => c,
        Err(_) => return Err(()),
    };
    let n = match chacha20poly1305::Nonce::try_from(nonce) {
        Ok(n) => n,
        Err(_) => return Err(()),
    };
    cipher.encrypt(&n, plaintext).map_err(|_| ())
}

/// Relies on `ChaCha20Poly1305::decrypt`: deterministic authenticated
/// decryption, succeeding exactly when the ciphertext-with-tag is authentic
/// under (key, nonce).
#[verifier::external_body]
fn aead_open(key: &[u8], nonce: &[u8], ciphertext: &[u8]) -> (r: Result<Vec<u8>, ()>)
    requires
        key@.len() == 32,
        nonce@.len() == 12,
    ensures
        r matches Ok(v) ==> open_of(key@, nonce@, ciphertext@) == Some(v@),
        r is Err ==> open_of(key@, nonce@, ciphertext@) is None,
{
    let cipher = match ChaCha20Poly1305::new_from_slice(key) {
        Ok(c) => c,
        Err(_) => return Err(()),
    };
    let n = match chacha20poly1305::Nonce::try_from(nonce) {
        Ok(n) => n,
        Err(_) => return Err(()),
    };
    cipher.decrypt(&n, ciphertext).map_err(|_| ())
}

/// Round trip: decrypting with the key that sealed a payload yields the
/// original plaintext. `encrypt` ensures of its output `sealed` that
/// `unseal_of(key, sealed) == Some(plaintext)`, and `decrypt` returns `Ok`
/// of exactly what `unseal_of` yields, so composing the two recovers the
/// plaintext.
pub proof fn lemma_encrypt_decrypt_round_trip(
    key: Seq<u8>,
    plaintext: Seq<u8>,
    sealed: Seq<u8>,
    result: Option<Seq<u8>>,
)
    requires
        unseal_of(key, sealed) == Some(plaintext),
        result == unseal_of(key, sealed),
    ensures
        result == Some(plaintext),
{
}

/// Appends the contents of `src` to `dst`.
fn append_bytes(dst: &mut Vec<u8>, src: &Vec<u8>)
    ensures
        final(dst)@ == old(dst)@ + src@,
{
    let n = src.len();
    let mut i: usize = 0;
    while i < n
        invariant
            i <= n,
            n == src@.len(),
            dst@ == old(dst)@ + src@.take(i as int),
        decreases n - i,
    {
        dst.push(src[i]);
        assert(old(dst)@ + src@.take(i as int) + seq![src@[i as int]] =~= old(dst)@ + src@.take(
            i as int + 1,
        ));
        i += 1;
    }
    assert(src@.take(n as int) =~= src@);
}

/// Symmetric encryption manager holding a handle to the system random source.
pub struct EncryptionManager {
    rng: SystemRandom,
}

impl EncryptionManager {
    /// Creates a new encryption manager.
    pub fn new() -> Self {
        EncryptionManager { rng: new_system_random() }
    }

    /// Encrypts `plaintext` under a 32-byte key, prepending a fresh random
    /// 12-byte nonce, so that `decrypt` with the same key recovers exactly
    /// `plaintext`. Fails with a `Crypto` error on any other key length, and
    /// otherwise only if the random source or the cipher itself fails.
    pub fn encrypt(&self, key: &[u8], plaintext: &[u8]) -> (r: Result<Vec<u8>, Error>)
        ensures
            key@.len() != 32 ==> r is Err,
            r matches Err(e) ==> e is Crypto,
            r matches Ok(v) ==> key@.len() == 32 && v@.len() == plaintext@.len() + 28 && unseal_of(
                key@,
                v@,
            ) == Some(plaintext@),
    {
        if key.len() != 32 {
            return Err(Error::Crypto(String::from_str("key must be 32 bytes")));
        }
        let nonce = match generate_nonce_bytes() {
            Ok(n) => n,
            Err(_) => return Err(Error::Crypto(String::from_str("random source failure"))),
        };
        let sealed = match aead_seal(key, nonce.as_slice(), plaintext) {
            Ok(s) => s,
            Err(_) => return Err(Error::Crypto(String::from_str("encryption failed"))),
        };
        let mut result = nonce;
        append_bytes(&mut result, &sealed);
        proof {
            assert(result@.take(12) =~= nonce@);
            assert(result@.skip(12) =~= sealed@);
        }
        Ok(result)
    }

    /// Decrypts a sealed payload under a 32-byte key. Succeeds exactly when
    /// the key is 32 bytes, the payload is at least as long as a nonce, and
    /// the ciphertext is authentic under the key and the prepended nonce; in
    /// every other case it fails with a `Crypto` error.
    pub fn decrypt(&self, key: &[u8], ciphertext: &[u8]) -> (r: Result<Vec<u8>, Error>)
        ensures
            r matches Ok(v) ==> unseal_of(key@, ciphertext@) == Some(v@),
            r is Err ==> unseal_of(key@, ciphertext@) is None,
            r matches Err(e) ==> e is Crypto,
    {
        if key.len() != 32 {
            return Err(Error::Crypto(String::from_str("key must be 32 bytes")));
        }
        if ciphertext.len() < NONCE_LEN {
            return Err(Error::Crypto(String::from_str("ciphertext too short")));
        }
        let nonce = slice_subrange(ciphertext, 0, NONCE_LEN);
        let body = slice_subrange(ciphertext, NONCE_LEN, ciphertext.len());
        proof {
            assert(nonce@ =~= ciphertext@.take(12));
            assert(body@ =~= ciphertext@.skip(12));
        }
        match aead_open(key, nonce, body) {
            Ok(v) => Ok(v),
            Err(_) => Err(Error::Crypto(String::from_str("decryption failed"))),
        }
    }

    /// Generates a random 32-byte encryption key.
    pub fn generate_key(&self) -> (r: Result<Vec<u8>, Error>)
        ensures
            r matches Ok(v) ==> v@.len() == 32,
            r matches Err(e) ==> e is Crypto,
    {
        match fill_random(&self.rng, 32) {
            Ok(k) => Ok(k),
            Err(_) => Err(Error::Crypto(String::from_str("failed to generate key"))),
        }
    }

    /// Generates `length` random bytes.
    pub fn generate_random(&self, length: usize) -> (r: Result<Vec<u8>, Error>)
        ensures
            r matches Ok(v) ==> v@.len() == length,
            r matches Err(e) ==> e is Crypto,
    {
        match fill_random(&self.rng, length) {
            Ok(b) => Ok(b),
            Err(_) => Err(Error::Crypto(String::from_str("failed to generate random bytes"))),
        }
    }
}

impl Default for EncryptionManager {
    /// Same as `EncryptionManager::new`.
    fn default() -> Self {
        EncryptionManager::new()
    }
}

/// A byte payload kept only in sealed form, together with the manager that
/// sealed it.
pub struct SecureData {
    encrypted_data: Vec<u8>,
    manager: EncryptionManager,
}

impl View for SecureData {
    type V = Seq<u8>;

    closed spec fn view(&self) -> Seq<u8> {
        self.encrypted_data@
    }
}

impl SecureData {
    /// Seals `plaintext` under `key` at construction; the plaintext itself is
    /// not retained.
    pub fn new(plaintext: &[u8], key: &[u8]) -> (r: Result<Self, Error>)
        ensures
            key@.len() != 32 ==> r is Err,
            r matches Err(e) ==> e is Crypto,
            r matches Ok(sd) ==> key@.len() == 32 && sd@.len() == plaintext@.len() + 28
                && unseal_of(key@, sd@) == Some(plaintext@),
    {
        let manager = EncryptionManager::new();
        let encrypted_data = match manager.encrypt(key, plaintext) {
            Ok(c) => c,
            Err(e) => return Err(e),
        };
        Ok(SecureData { encrypted_data, manager })
    }

    /// Decrypts the held payload under `key`; succeeds exactly when the
    /// payload is authentic under `key`.
    pub fn decrypt(&self, key: &[u8]) -> (r: Result<Vec<u8>, Error>)
        ensures
            r matches Ok(v) ==> unseal_of(key@, self@) == Some(v@),
            r is Err ==> unseal_of(key@, self@) is None,
            r matches Err(e) ==> e is Crypto,
    {
        self.manager.decrypt(key, self.encrypted_data.as_slice())
    }

    /// The sealed payload.
    pub fn encrypted_bytes(&self) -> (r: &[u8])
        ensures
            r@ == self@,
    {
        self.encrypted_data.as_slice()
    }
}

} // verus!
