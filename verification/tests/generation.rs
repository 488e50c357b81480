use passman_cli::error::Error;
use passman_cli::generator::generate_alphanumeric_password;
use passman_cli::generator::generate_password;
use passman_cli::generator::GeneratorConfig;
use passman_cli::generator::PasswordGenerator;

#[test]
fn test_password_generation() {
    let generator = PasswordGenerator::new();
    let password = generator.generate().unwrap();
    assert_eq!(password.len(), 16);
}

#[test]
fn test_custom_length() {
    let mut config = GeneratorConfig::default();
    config.length = 32;

    let generator = PasswordGenerator::with_config(config);
    let password = generator.generate().unwrap();
    assert_eq!(password.len(), 32);
}

#[test]
fn test_alphanumeric_only() {
    let password = generate_alphanumeric_password(20).unwrap();
    assert_eq!(password.len(), 20);
    assert!(password.chars().all(|c| c.is_alphanumeric()));
}

#[test]
fn zero_length_is_rejected() {
    assert!(matches!(generate_password(0), Err(Error::PasswordGeneration(_))));
    assert!(matches!(generate_alphanumeric_password(0), Err(Error::PasswordGeneration(_))));
}

#[test]
fn no_enabled_sets_is_rejected() {
    let config = GeneratorConfig {
        length: 10,
        include_uppercase: false,
        include_lowercase: false,
        include_numbers: false,
        include_symbols: false,
        symbol_set: String::new(),
    };
    let generator = PasswordGenerator::with_config(config);
    assert!(matches!(generator.generate(), Err(Error::PasswordGeneration(_))));
}

#[test]
fn tiny_requested_length_still_covers_every_enabled_set() {
    let mut config = GeneratorConfig::default();
    config.length = 1;
    let generator = PasswordGenerator::with_config(config);
    // One character of each of the four enabled sets is guaranteed.
    assert_eq!(generator.generate().unwrap().len(), 4);
}

#[test]
fn digits_only_password_uses_only_digits() {
    let config = GeneratorConfig {
        length: 12,
        include_uppercase: false,
        include_lowercase: false,
        include_numbers: true,
        include_symbols: false,
        symbol_set: String::new(),
    };
    let generator = PasswordGenerator::with_config(config);
    let password = generator.generate().unwrap();
    assert_eq!(password.len(), 12);
    assert!(password.chars().all(|c| c.is_ascii_digit()));
}

#[test]
fn custom_symbol_set_is_respected() {
    let config = GeneratorConfig {
        length: 30,
        include_uppercase: false,
        include_lowercase: false,
        include_numbers: false,
        include_symbols: true,
        symbol_set: "#!".to_string(),
    };
    let generator = PasswordGenerator::with_config(config);
    let password = generator.generate().unwrap();
    assert_eq!(password.len(), 30);
    assert!(password.chars().all(|c| c == '#' || c == '!'));
}

#[test]
fn every_enabled_set_contributes_at_least_one_character() {
    let generator = PasswordGenerator::new();
    let password = generator.generate().unwrap();
    assert!(password.chars().any(|c| c.is_ascii_lowercase()));
    assert!(password.chars().any(|c| c.is_ascii_uppercase()));
    assert!(password.chars().any(|c| c.is_ascii_digit()));
    assert!(password.chars().any(|c| "!@#$%^&*()-_=+[]{}|;:,.<>?".contains(c)));
}

#[test]
fn batch_yields_the_requested_number_of_passwords() {
    let mut generator = PasswordGenerator::new();
    generator.set_length(8);
    let batch = generator.generate_batch(5).unwrap();
    assert_eq!(batch.len(), 5);
    for p in &batch {
        assert_eq!(p.len(), 8);
    }
}

#[test]
fn setters_change_the_generated_shape() {
    let mut generator = PasswordGenerator::new();
    generator.set_length(9);
    generator.set_include_symbols(false);
    generator.set_include_uppercase(false);
    let p = generator.generate().unwrap();
    assert_eq!(p.len(), 9);
    assert!(p.chars().all(|c| c.is_ascii_lowercase() || c.is_ascii_digit()));

    generator.set_include_lowercase(false);
    generator.set_include_numbers(false);
    assert!(generator.generate().is_err());

    generator.set_include_symbols(true);
    generator.set_symbol_set("@".to_string());
    let q = generator.generate().unwrap();
    assert_eq!(q.len(), 9);
    assert!(q.chars().all(|c| c == '@'));
}

#[test]
fn simple_generate_password_has_requested_length() {
    let p = generate_password(24).unwrap();
    assert_eq!(p.len(), 24);
}
