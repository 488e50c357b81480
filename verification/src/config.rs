//! Application configuration values.
//!
//! Loading and saving the configuration file is left to the surrounding
//! program; the engine only consumes the resolved values, with the store
//! path held as plain text.

use vstd::prelude::*;
use vstd::string::StringExecFns;

use crate::generator::default_symbol_chars;

verus! {

/// Password generation defaults carried in the configuration.
#[derive(Debug, Clone)]
pub struct PasswordGenerationConfig {
    /// Default password length.
    pub default_length: u32,
    /// Include uppercase letters.
    pub include_uppercase: bool,
    /// Include lowercase letters.
    pub include_lowercase: bool,
    /// Include digits.
    pub include_numbers: bool,
    /// Include symbols.
    pub include_symbols: bool,
    /// Custom symbol set.
    pub symbol_set: String,
}

impl Default for PasswordGenerationConfig {
    /// Sixteen characters, every character set, the default symbols.
    fn default() -> (r: Self)
        ensures
            r.default_length == 16,
            r.include_uppercase && r.include_lowercase && r.include_numbers && r.include_symbols,
            r.symbol_set@ == default_symbol_chars(),
    {
        PasswordGenerationConfig {
            default_length: 16,
            include_uppercase: true,
            include_lowercase: true,
            include_numbers: true,
            include_symbols: true,
            symbol_set: String::from_str("!@#$%^&*()-_=+[]{}|;:,.<>?"),
        }
    }
}

/// Security-related settings.
#[derive(Debug, Clone)]
pub struct SecurityConfig {
    /// Session timeout in minutes; zero disables the timeout.
    pub session_timeout: u64,
    /// Maximum login attempts before lockout.
    pub max_login_attempts: u32,
    /// Lockout duration in minutes.
    pub lockout_duration: u64,
}

impl Default for SecurityConfig {
    /// Fifteen-minute sessions, three attempts, five-minute lockout.
    fn default() -> (r: Self)
        ensures
            r.session_timeout == 15,
            r.max_login_attempts == 3,
            r.lockout_duration == 5,
    {
        SecurityConfig { session_timeout: 15, max_login_attempts: 3, lockout_duration: 5 }
    }
}

/// Application configuration.
#[derive(Debug, Clone)]
pub struct Config {
    /// Path of the database file, with `/` separating its components.
    pub database_path: String,
    /// Clipboard timeout in seconds; zero disables the timeout.
    pub clipboard_timeout: u64,
    /// Password generation settings.
    pub password_generation: PasswordGenerationConfig,
    /// Security settings.
    pub security: SecurityConfig,
}

impl Config {
    /// The directory part of the database path: everything before the last
    /// `/` separator, or nothing when the path has no separator.
    pub fn database_dir(&self) -> (r: Option<String>)
        ensures
            r is None ==> forall|j: int|
                0 <= j < self.database_path@.len() ==> self.database_path@[j] != '/',
            r matches Some(d) ==> exists|i: int|
                0 <= i < self.database_path@.len() && #[trigger] self.database_path@[i] == '/' && (
                forall|j: int| i < j < self.database_path@.len() ==> self.database_path@[j] != '/')
                    && d@ == self.database_path@.take(i),
    {
        let p = self.database_path.as_str();
        let n = p.unicode_len();
        let mut i: usize = n;
        while i > 0
            invariant
                i <= n,
                n == p@.len(),
                p@ == self.database_path@,
                forall|j: int| i <= j < n ==> p@[j] != '/',
            decreases i,
        {
            if p.get_char(i - 1) == '/' {
                let d = p.substring_char(0, i - 1);
                return Some(String::from_str(d));
            }
            i -= 1;
        }
        None
    }
}

} // verus!
