use passman_cli::encryption::EncryptionManager;
use passman_cli::encryption::SecureData;
use passman_cli::error::Error;

#[test]
fn test_encryption_decryption() {
    let manager = EncryptionManager::new();
    let key = manager.generate_key().unwrap();
    let plaintext = b"Hello, World!";

    let ciphertext = manager.encrypt(&key, plaintext).unwrap();
    let decrypted = manager.decrypt(&key, &ciphertext).unwrap();

    assert_eq!(plaintext, &decrypted[..]);
}

#[test]
fn test_secure_data() {
    let key = EncryptionManager::new().generate_key().unwrap();
    let plaintext = b"Secret data";

    let secure_data = SecureData::new(plaintext, &key).unwrap();
    let decrypted = secure_data.decrypt(&key).unwrap();

    assert_eq!(plaintext, &decrypted[..]);
}

#[test]
fn sealed_layout_has_nonce_and_tag_overhead() {
    let manager = EncryptionManager::new();
    let key = manager.generate_key().unwrap();
    let plaintext = b"abc";
    let sealed = manager.encrypt(&key, plaintext).unwrap();
    assert_eq!(sealed.len(), plaintext.len() + 12 + 16);
}

#[test]
fn decrypt_with_wrong_key_fails_with_crypto_error() {
    let manager = EncryptionManager::new();
    let k1 = manager.generate_key().unwrap();
    let k2 = manager.generate_key().unwrap();
    assert_ne!(k1, k2);
    let sealed = manager.encrypt(&k1, b"payload").unwrap();
    let r = manager.decrypt(&k2, &sealed);
    assert!(matches!(r, Err(Error::Crypto(_))));
}

#[test]
fn flipping_any_single_bit_makes_decrypt_fail() {
    let manager = EncryptionManager::new();
    let key = manager.generate_key().unwrap();
    let sealed = manager.encrypt(&key, b"tamper me").unwrap();
    for byte in 0..sealed.len() {
        for bit in 0..8 {
            let mut tampered = sealed.clone();
            tampered[byte] ^= 1u8 << bit;
            let r = manager.decrypt(&key, &tampered);
            assert!(matches!(r, Err(Error::Crypto(_))));
        }
    }
}

#[test]
fn bad_key_length_is_rejected() {
    let manager = EncryptionManager::new();
    let short_key = vec![0u8; 16];
    assert!(matches!(manager.encrypt(&short_key, b"x"), Err(Error::Crypto(_))));
    assert!(matches!(manager.decrypt(&short_key, &vec![0u8; 40]), Err(Error::Crypto(_))));
}

#[test]
fn too_short_ciphertext_is_rejected() {
    let manager = EncryptionManager::new();
    let key = manager.generate_key().unwrap();
    let r = manager.decrypt(&key, &vec![1u8, 2, 3]);
    assert!(matches!(r, Err(Error::Crypto(_))));
}

#[test]
fn generate_random_has_requested_length() {
    let manager = EncryptionManager::new();
    assert_eq!(manager.generate_key().unwrap().len(), 32);
    assert_eq!(manager.generate_random(7).unwrap().len(), 7);
    let sd = SecureData::new(b"bytes", &manager.generate_key().unwrap()).unwrap();
    assert_eq!(sd.encrypted_bytes().len(), 5 + 28);
}
