use passman_cli::config::Config;
use passman_cli::config::PasswordGenerationConfig;
use passman_cli::config::SecurityConfig;
use passman_cli::models::PasswordEntry;
use passman_cli::models::SecureString;
use passman_cli::models::VaultMetadata;

#[test]
fn secure_string_wraps_and_erases() {
    let mut s = SecureString::new("top secret".to_string());
    assert_eq!(s.as_str(), "top secret");
    assert_eq!(s.len(), 10);
    assert!(!s.is_empty());
    s.erase();
    assert!(s.is_empty());
    assert_eq!(s.len(), 0);

    let t = SecureString::new("take me".to_string());
    assert_eq!(t.into_string(), "take me");
}

#[test]
fn new_entry_gets_uuid_and_equal_timestamps() {
    let e = PasswordEntry::new(
        "Title".to_string(),
        "user".to_string(),
        SecureString::new("pw".to_string()),
        None,
        Some("note".to_string()),
    );
    assert_eq!(e.id.len(), 36);
    assert_eq!(e.created_at, e.updated_at);
    let other = PasswordEntry::new(
        "Title".to_string(),
        "user".to_string(),
        SecureString::new("pw".to_string()),
        None,
        None,
    );
    assert_ne!(e.id, other.id);
}

#[test]
fn new_metadata_starts_at_schema_version_one() {
    let m = VaultMetadata::new(vec![1, 2, 3], vec![4, 5]);
    assert_eq!(m.schema_version, 1);
    assert_eq!(m.salt, vec![1, 2, 3]);
    assert_eq!(m.password_hash, vec![4, 5]);
    assert_eq!(m.created_at, m.last_access);
}

#[test]
fn config_defaults_match_the_documented_values() {
    let pg = PasswordGenerationConfig::default();
    assert_eq!(pg.default_length, 16);
    assert!(pg.include_uppercase && pg.include_lowercase && pg.include_numbers && pg.include_symbols);
    assert_eq!(pg.symbol_set, "!@#$%^&*()-_=+[]{}|;:,.<>?");

    let sc = SecurityConfig::default();
    assert_eq!(sc.session_timeout, 15);
    assert_eq!(sc.max_login_attempts, 3);
    assert_eq!(sc.lockout_duration, 5);
}

#[test]
fn database_dir_is_the_prefix_before_the_last_separator() {
    let config = Config {
        database_path: "/home/user/.config/passman-cli/passman.db".to_string(),
        clipboard_timeout: 30,
        password_generation: PasswordGenerationConfig::default(),
        security: SecurityConfig::default(),
    };
    assert_eq!(config.database_dir(), Some("/home/user/.config/passman-cli".to_string()));

    let bare = Config {
        database_path: "passman.db".to_string(),
        clipboard_timeout: 0,
        password_generation: PasswordGenerationConfig::default(),
        security: SecurityConfig::default(),
    };
    assert_eq!(bare.database_dir(), None);
}
