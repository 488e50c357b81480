//! An offline credential vault engine: master-password authentication via
//! memory-hard hashing, per-record authenticated encryption, key derivation
//! binding the two, and a versioned persistent store holding ciphertext and
//! vault metadata.

use vstd::prelude::*;

pub mod config;
pub mod encryption;
pub mod error;
pub mod generator;
pub mod migrations;
pub mod models;
pub mod password;
pub mod repository;
pub mod session;
pub mod stamps;
pub mod storage;
pub mod strutil;
pub mod sysrand;

pub use error::Error;

verus! {

/// Application name, used for the configuration and data directories.
pub const APP_NAME: &'static str = "passman-cli";

/// Default database file name.
pub const DEFAULT_DB_NAME: &'static str = "passman.db";

/// Configuration file name.
pub const CONFIG_FILE_NAME: &'static str = "config.toml";

} // verus!
