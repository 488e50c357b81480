use passman_cli::error::Error;
use passman_cli::models::SecureString;
use passman_cli::repository::PasswordRepository;
use passman_cli::session::VaultSession;

fn temp_session() -> (tempfile::NamedTempFile, VaultSession) {
    let file = tempfile::NamedTempFile::new().unwrap();
    let repo = PasswordRepository::new(file.path().to_str().unwrap()).unwrap();
    (file, VaultSession::new(repo))
}

#[test]
fn unlock_with_correct_password_succeeds_and_wrong_password_fails() {
    let (_f, mut session) = temp_session();
    session.initialize("master-secret").unwrap();
    assert!(!session.is_unlocked());

    let wrong = session.unlock("not-the-master");
    assert!(matches!(wrong, Err(Error::Authentication(_))));
    assert!(!session.is_unlocked());

    session.unlock("master-secret").unwrap();
    assert!(session.is_unlocked());

    session.lock();
    assert!(!session.is_unlocked());
}

#[test]
fn unlock_before_initialize_is_vault_not_initialized() {
    let (_f, mut session) = temp_session();
    let r = session.unlock("anything");
    assert!(matches!(r, Err(Error::VaultNotInitialized)));
}

#[test]
fn initialize_twice_is_vault_already_exists() {
    let (_f, mut session) = temp_session();
    session.initialize("master").unwrap();
    let r = session.initialize("master");
    assert!(matches!(r, Err(Error::VaultAlreadyExists)));
}

#[test]
fn stored_secret_round_trips_through_the_session() {
    let (_f, mut session) = temp_session();
    session.initialize("master").unwrap();
    session.unlock("master").unwrap();

    let entry = session
        .add_entry(
            "GitHub".to_string(),
            "dev@example.com".to_string(),
            SecureString::new("hunter2-but-better".to_string()),
            Some("https://github.com".to_string()),
            None,
        )
        .unwrap();

    let (found, secret) = session.get_entry("GitHub").unwrap();
    assert_eq!(found.id, entry.id);
    assert_eq!(found.username, "dev@example.com");
    assert_eq!(secret.as_str(), "hunter2-but-better");
}

#[test]
fn locked_session_refuses_entry_operations() {
    let (_f, mut session) = temp_session();
    session.initialize("master").unwrap();
    let r = session.add_entry(
        "Title".to_string(),
        "user".to_string(),
        SecureString::new("secret".to_string()),
        None,
        None,
    );
    assert!(matches!(r, Err(Error::Authentication(_))));
    assert!(matches!(session.get_entry("Title"), Err(Error::Authentication(_))));
}

#[test]
fn get_entry_of_unknown_title_is_entry_not_found() {
    let (_f, mut session) = temp_session();
    session.initialize("master").unwrap();
    session.unlock("master").unwrap();
    assert!(matches!(session.get_entry("absent"), Err(Error::EntryNotFound(_))));
}

#[test]
fn session_lists_searches_updates_and_deletes() {
    let (_f, mut session) = temp_session();
    session.initialize("master").unwrap();
    session.unlock("master").unwrap();
    session
        .add_entry(
            "Bank".to_string(),
            "alice".to_string(),
            SecureString::new("pin".to_string()),
            None,
            None,
        )
        .unwrap();
    session
        .add_entry(
            "Archive".to_string(),
            "bob".to_string(),
            SecureString::new("key".to_string()),
            None,
            Some("cold storage".to_string()),
        )
        .unwrap();

    let listed = session.list_entries().unwrap();
    assert_eq!(listed.len(), 2);
    assert_eq!(listed[0].title, "Archive");
    assert_eq!(listed[1].title, "Bank");

    let found = session.search_entries("cold").unwrap();
    assert_eq!(found.len(), 1);
    assert_eq!(found[0].title, "Archive");

    let updated = session
        .update_entry(
            "Bank",
            "alice2".to_string(),
            SecureString::new("new-pin".to_string()),
            Some("https://bank.example".to_string()),
            None,
        )
        .unwrap();
    assert_eq!(updated.title, "Bank");
    assert_eq!(updated.username, "alice2");
    let (got, secret) = session.get_entry("Bank").unwrap();
    assert_eq!(got.username, "alice2");
    assert_eq!(secret.as_str(), "new-pin");

    session.delete_entry("Bank").unwrap();
    assert!(matches!(session.get_entry("Bank"), Err(Error::EntryNotFound(_))));
    assert!(matches!(session.delete_entry("Bank"), Err(Error::EntryNotFound(_))));
    assert_eq!(session.list_entries().unwrap().len(), 1);
}

#[test]
fn change_master_password_reencrypts_and_keeps_secrets() {
    let (_f, mut session) = temp_session();
    session.initialize("old master").unwrap();
    session.unlock("old master").unwrap();
    session
        .add_entry(
            "Mail".to_string(),
            "me".to_string(),
            SecureString::new("mail-secret".to_string()),
            None,
            None,
        )
        .unwrap();

    let wrong = session.change_master_password("bad guess", "whatever");
    assert!(matches!(wrong, Err(Error::Authentication(_))));

    session.change_master_password("old master", "new master").unwrap();

    // The session stays usable with the new key.
    let (_e, secret) = session.get_entry("Mail").unwrap();
    assert_eq!(secret.as_str(), "mail-secret");

    // The old password no longer unlocks; the new one does, and the secret
    // still decrypts.
    assert!(matches!(session.unlock("old master"), Err(Error::Authentication(_))));
    session.unlock("new master").unwrap();
    let (_e2, secret2) = session.get_entry("Mail").unwrap();
    assert_eq!(secret2.as_str(), "mail-secret");
}
