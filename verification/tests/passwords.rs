use passman_cli::error::Error;
use passman_cli::password::PasswordManager;

#[test]
fn hash_then_verify_succeeds() {
    let pm = PasswordManager::new();
    let (encoded, salt) = pm.hash_password("correct horse battery staple").unwrap();
    assert!(!salt.is_empty());
    assert!(pm.verify_password("correct horse battery staple", &encoded).unwrap());
}

#[test]
fn verify_with_other_password_fails() {
    let pm = PasswordManager::new();
    let (encoded, _) = pm.hash_password("first password").unwrap();
    assert!(!pm.verify_password("second password", &encoded).unwrap());
}

#[test]
fn malformed_hash_encoding_is_an_error() {
    let pm = PasswordManager::new();
    let r = pm.verify_password("anything", "not a phc string");
    assert!(matches!(r, Err(Error::Crypto(_))));
}

#[test]
fn derive_key_is_deterministic() {
    let pm = PasswordManager::new();
    let salt = pm.generate_salt().unwrap();
    assert_eq!(salt.len(), 32);
    let k1 = pm.derive_key("master", &salt).unwrap();
    let k2 = pm.derive_key("master", &salt).unwrap();
    assert_eq!(k1, k2);
    assert_eq!(k1.len(), 32);
}

#[test]
fn different_salts_yield_different_keys() {
    let pm = PasswordManager::new();
    let s1 = pm.generate_salt().unwrap();
    let s2 = pm.generate_salt().unwrap();
    assert_ne!(s1, s2);
    let k1 = pm.derive_key("master", &s1).unwrap();
    let k2 = pm.derive_key("master", &s2).unwrap();
    assert_ne!(k1, k2);
}

#[test]
fn different_passwords_yield_different_keys() {
    let pm = PasswordManager::new();
    let salt = pm.generate_salt().unwrap();
    let k1 = pm.derive_key("one master password", &salt).unwrap();
    let k2 = pm.derive_key("another master password", &salt).unwrap();
    assert_ne!(k1, k2);
}
