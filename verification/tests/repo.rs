use passman_cli::error::Error;
use passman_cli::models::PasswordEntry;
use passman_cli::models::SecureString;
use passman_cli::repository::PasswordRepository;

fn temp_repo() -> (tempfile::NamedTempFile, PasswordRepository) {
    let file = tempfile::NamedTempFile::new().unwrap();
    let repo = PasswordRepository::new(file.path().to_str().unwrap()).unwrap();
    (file, repo)
}

fn sample_entry(title: &str, username: &str) -> PasswordEntry {
    PasswordEntry::new(
        title.to_string(),
        username.to_string(),
        SecureString::new(String::new()),
        None,
        None,
    )
}

#[test]
fn test_repository_creation() {
    let temp_file = tempfile::NamedTempFile::new().unwrap();
    let repo = PasswordRepository::new(temp_file.path().to_str().unwrap()).unwrap();

    assert!(!repo.is_initialized().unwrap());
}

#[test]
fn test_vault_initialization() {
    let temp_file = tempfile::NamedTempFile::new().unwrap();
    let mut repo = PasswordRepository::new(temp_file.path().to_str().unwrap()).unwrap();

    let salt = vec![1, 2, 3, 4];
    let password_hash = vec![5, 6, 7, 8];

    repo.initialize_vault(salt.clone(), password_hash.clone()).unwrap();
    assert!(repo.is_initialized().unwrap());

    let metadata = repo.get_vault_metadata().unwrap();
    assert_eq!(metadata.salt, salt);
    assert_eq!(metadata.password_hash, password_hash);
}

#[test]
fn fresh_vault_metadata_has_schema_version_one() {
    let (_f, mut repo) = temp_repo();
    repo.initialize_vault(vec![1, 2, 3, 4], vec![5, 6, 7, 8]).unwrap();
    let metadata = repo.get_vault_metadata().unwrap();
    assert_eq!(metadata.schema_version, 1);
    assert_eq!(metadata.created_at, metadata.last_access);
}

#[test]
fn double_initialization_fails_with_vault_already_exists() {
    let (_f, mut repo) = temp_repo();
    repo.initialize_vault(vec![1], vec![2]).unwrap();
    let r = repo.initialize_vault(vec![3], vec![4]);
    assert!(matches!(r, Err(Error::VaultAlreadyExists)));
    // The first metadata row is untouched.
    assert_eq!(repo.get_vault_metadata().unwrap().salt, vec![1]);
}

#[test]
fn metadata_of_uninitialized_vault_is_an_error() {
    let (_f, repo) = temp_repo();
    assert!(matches!(repo.get_vault_metadata(), Err(Error::VaultNotInitialized)));
}

#[test]
fn add_then_get_returns_the_same_entry_and_ciphertext() {
    let (_f, mut repo) = temp_repo();
    let mut entry = sample_entry("Example", "user@example.com");
    entry.url = Some("https://example.com".to_string());
    entry.notes = Some("a note".to_string());
    let ciphertext = vec![10u8, 20, 30, 40];
    repo.add_entry(&entry, &ciphertext).unwrap();

    let (by_id, ct_id) = repo.get_entry_by_id(&entry.id).unwrap();
    assert_eq!(by_id.id, entry.id);
    assert_eq!(by_id.title, "Example");
    assert_eq!(by_id.username, "user@example.com");
    assert_eq!(by_id.url, Some("https://example.com".to_string()));
    assert_eq!(by_id.notes, Some("a note".to_string()));
    assert_eq!(ct_id, ciphertext);

    let (by_title, ct_title) = repo.get_entry_by_title("Example").unwrap();
    assert_eq!(by_title.id, entry.id);
    assert_eq!(by_title.username, "user@example.com");
    assert_eq!(ct_title, ciphertext);
}

#[test]
fn list_entries_is_sorted_and_omits_ciphertext() {
    let (_f, mut repo) = temp_repo();
    repo.add_entry(&sample_entry("GitHub", "dev"), &vec![7u8, 7, 7]).unwrap();
    repo.add_entry(&sample_entry("Aardvark", "zoo"), &vec![1u8]).unwrap();
    repo.add_entry(&sample_entry("Mail", "me"), &vec![2u8]).unwrap();

    let listed = repo.list_entries().unwrap();
    assert_eq!(listed.len(), 3);
    assert_eq!(listed[0].title, "Aardvark");
    assert_eq!(listed[1].title, "GitHub");
    assert_eq!(listed[2].title, "Mail");
    for e in &listed {
        assert!(e.password.is_empty());
    }
}

#[test]
fn listing_one_entry_exposes_no_secret_and_title_lookup_finds_payload() {
    let (_f, mut repo) = temp_repo();
    let entry = sample_entry("GitHub", "dev@example.com");
    let payload = vec![42u8; 40];
    repo.add_entry(&entry, &payload).unwrap();

    let listed = repo.list_entries().unwrap();
    assert_eq!(listed.len(), 1);
    assert_eq!(listed[0].title, "GitHub");
    assert!(listed[0].password.is_empty());

    let (found, ct) = repo.get_entry_by_title("GitHub").unwrap();
    assert_eq!(found.title, "GitHub");
    assert_eq!(found.username, "dev@example.com");
    assert_eq!(ct, payload);
}

#[test]
fn search_matches_all_text_columns_in_title_order() {
    let (_f, mut repo) = temp_repo();
    let mut a = sample_entry("Zebra", "needle-user");
    a.url = None;
    let mut b = sample_entry("Apple", "other");
    b.url = Some("https://needle.example".to_string());
    let mut c = sample_entry("Mango", "plain");
    c.notes = Some("has a needle inside".to_string());
    let d = sample_entry("Nothing", "here");
    repo.add_entry(&a, &vec![1u8]).unwrap();
    repo.add_entry(&b, &vec![2u8]).unwrap();
    repo.add_entry(&c, &vec![3u8]).unwrap();
    repo.add_entry(&d, &vec![4u8]).unwrap();

    let found = repo.search_entries("needle").unwrap();
    assert_eq!(found.len(), 3);
    assert_eq!(found[0].title, "Apple");
    assert_eq!(found[1].title, "Mango");
    assert_eq!(found[2].title, "Zebra");
}

#[test]
fn update_entry_rewrites_fields_but_keeps_creation_time() {
    let (_f, mut repo) = temp_repo();
    let mut entry = sample_entry("Before", "old-user");
    repo.add_entry(&entry, &vec![1u8]).unwrap();
    let original_created = entry.created_at.clone();

    entry.title = "After".to_string();
    entry.username = "new-user".to_string();
    entry.created_at = "1999-01-01T00:00:00+00:00".to_string();
    entry.touch();
    repo.update_entry(&entry, &vec![9u8, 9]).unwrap();

    let (got, ct) = repo.get_entry_by_id(&entry.id).unwrap();
    assert_eq!(got.title, "After");
    assert_eq!(got.username, "new-user");
    assert_eq!(got.created_at, original_created);
    assert_eq!(ct, vec![9u8, 9]);
}

#[test]
fn update_of_unknown_id_is_entry_not_found() {
    let (_f, mut repo) = temp_repo();
    let entry = sample_entry("Ghost", "nobody");
    let r = repo.update_entry(&entry, &vec![0u8]);
    assert!(matches!(r, Err(Error::EntryNotFound(_))));
}

#[test]
fn delete_of_unknown_id_or_title_is_entry_not_found() {
    let (_f, mut repo) = temp_repo();
    assert!(matches!(
        repo.delete_entry("00000000-0000-4000-8000-000000000000"),
        Err(Error::EntryNotFound(_))
    ));
    assert!(matches!(repo.delete_entry_by_title("absent"), Err(Error::EntryNotFound(_))));
}

#[test]
fn delete_removes_the_entry() {
    let (_f, mut repo) = temp_repo();
    let entry = sample_entry("Victim", "u");
    repo.add_entry(&entry, &vec![1u8]).unwrap();
    repo.delete_entry(&entry.id).unwrap();
    assert!(matches!(repo.get_entry_by_id(&entry.id), Err(Error::EntryNotFound(_))));

    let again = sample_entry("Victim", "u");
    repo.add_entry(&again, &vec![1u8]).unwrap();
    repo.delete_entry_by_title("Victim").unwrap();
    assert_eq!(repo.list_entries().unwrap().len(), 0);
}

#[test]
fn duplicate_identifier_is_a_database_error() {
    let (_f, mut repo) = temp_repo();
    let entry = sample_entry("Twin", "u");
    repo.add_entry(&entry, &vec![1u8]).unwrap();
    let r = repo.add_entry(&entry, &vec![2u8]);
    assert!(matches!(r, Err(Error::Database(_))));
}

#[test]
fn reopening_the_store_is_a_no_op_and_keeps_data() {
    let file = tempfile::NamedTempFile::new().unwrap();
    let path = file.path().to_str().unwrap().to_string();
    {
        let mut repo = PasswordRepository::new(&path).unwrap();
        repo.initialize_vault(vec![1, 2], vec![3, 4]).unwrap();
        repo.add_entry(&sample_entry("Persisted", "u"), &vec![5u8, 6]).unwrap();
    }
    // A second run of the migrator applies nothing and the stored rows are
    // loaded back unchanged.
    let repo2 = PasswordRepository::new(&path).unwrap();
    assert!(repo2.is_initialized().unwrap());
    assert_eq!(repo2.get_vault_metadata().unwrap().salt, vec![1, 2]);
    let (e, ct) = repo2.get_entry_by_title("Persisted").unwrap();
    assert_eq!(e.username, "u");
    assert_eq!(ct, vec![5u8, 6]);
    // And a third open still succeeds.
    drop(repo2);
    let repo3 = PasswordRepository::new(&path).unwrap();
    assert_eq!(repo3.list_entries().unwrap().len(), 1);
}

#[test]
fn failed_schema_transformation_is_a_migration_error() {
    let file = tempfile::NamedTempFile::new().unwrap();
    let path = file.path().to_str().unwrap().to_string();
    // A table standing in the way of the first schema migration makes its
    // transformation fail, which must surface as the fatal Migration kind
    // and prevent the vault from opening.
    {
        let conn = rusqlite::Connection::open(&path).unwrap();
        conn.execute("CREATE TABLE vault_metadata (id INTEGER)", ()).unwrap();
    }
    let r = PasswordRepository::new(&path);
    assert!(matches!(r, Err(Error::Migration(_))));
}

#[test]
fn duplicate_titles_resolve_to_the_oldest_row() {
    let (_f, mut repo) = temp_repo();
    let first = sample_entry("Same", "first");
    let second = sample_entry("Same", "second");
    repo.add_entry(&first, &vec![1u8]).unwrap();
    repo.add_entry(&second, &vec![2u8]).unwrap();
    let (found, ct) = repo.get_entry_by_title("Same").unwrap();
    assert_eq!(found.username, "first");
    assert_eq!(ct, vec![1u8]);
    // Deleting by title removes every row with that title.
    repo.delete_entry_by_title("Same").unwrap();
    assert_eq!(repo.list_entries().unwrap().len(), 0);
}
