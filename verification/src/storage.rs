//! The embedded relational store, behind trusted wrappers.
//!
//! The in-memory tables of `PasswordRepository` are the verified source of
//! truth; every mutation is mirrored to the database file through these
//! wrappers so that the store persists across processes. Nothing can be
//! assumed about what a database file on disk holds, so the read wrappers
//! promise nothing about the rows they return: the repository validates
//! every row it loads.

use vstd::prelude::*;

use rusqlite::Connection;

verus! {

/// Handle to one open database file, opaque to the verifier.
#[verifier::external_type_specification]
#[verifier::external_body]
pub struct ExConnection(Connection);

/// One raw row of the credential-entry table, exactly as read from or
/// written to the store.
pub struct RawEntryRow {
    pub id: String,
    pub title: String,
    pub username: String,
    pub encrypted_password: Vec<u8>,
    pub url: Option<String>,
    pub notes: Option<String>,
    pub created_at: String,
    pub updated_at: String,
}

/// Relies on `rusqlite::Connection::open`: opens, creating it if missing,
/// the database file at `path`.
#[verifier::external_body]
pub(crate) fn open_connection(path: &str) -> Result<Connection, String> {
    Connection::open(path).map_err(|e| e.to_string())
}

/// Relies on `rusqlite::Connection::execute`: runs one SQL statement that
/// returns no rows.
#[verifier::external_body]
pub(crate) fn exec_sql(conn: &Connection, sql: &str) -> Result<(), String> {
    conn.execute(sql, ()).map(|_| ()).map_err(|e| e.to_string())
}

/// Relies on `rusqlite::Connection::execute_batch`: runs a batch of SQL
/// statements.
#[verifier::external_body]
pub(crate) fn exec_batch(conn: &Connection, sql: &str) -> Result<(), String> {
    conn.execute_batch(sql).map_err(|e| e.to_string())
}

/// Relies on `rusqlite::Connection::query_row`: reads the highest version
/// recorded in the migration ledger, if the ledger has any row.
#[verifier::external_body]
pub(crate) fn query_max_version(conn: &Connection) -> Result<Option<u32>, String> {
    conn.query_row("SELECT MAX(version) FROM migrations", (), |row| row.get::<_, Option<u32>>(0))
        .map_err(|e| e.to_string())
}

/// Relies on `rusqlite::Connection::execute`: appends one row to the
/// migration ledger.
#[verifier::external_body]
pub(crate) fn insert_migration_row(
    conn: &Connection,
    version: u32,
    description: &str,
    applied_at: &str,
) -> Result<(), String> {
    conn.execute(
        "INSERT INTO migrations (version, description, applied_at) VALUES (?1, ?2, ?3)",
        (version, description, applied_at),
    ).map(|_| ()).map_err(|e| e.to_string())
}

/// Relies on `rusqlite::Connection::execute`: inserts the singleton vault
/// metadata row.
#[verifier::external_body]
pub(crate) fn insert_metadata_row(
    conn: &Connection,
    created_at: &str,
    last_access: &str,
    schema_version: u32,
    salt: &[u8],
    password_hash: &[u8],
) -> Result<(), String> {
    conn.execute(
        "INSERT INTO vault_metadata (id, created_at, last_access, schema_version, salt, password_hash)
         VALUES (1, ?1, ?2, ?3, ?4, ?5)",
        (created_at, last_access, schema_version, salt, password_hash),
    ).map(|_| ()).map_err(|e| e.to_string())
}

/// Relies on `rusqlite::Connection::query_row`: reads the singleton vault
/// metadata row, if it exists.
#[verifier::external_body]
pub(crate) fn load_metadata_row(
    conn: &Connection,
) -> Result<Option<(String, String, u32, Vec<u8>, Vec<u8>)>, String> {
    let r = conn.query_row(
        "SELECT created_at, last_access, schema_version, salt, password_hash
         FROM vault_metadata WHERE id = 1",
        (),
        |row| Ok((row.get(0)?, row.get(1)?, row.get(2)?, row.get(3)?, row.get(4)?)),
    );
    match r {
        Ok(t) => Ok(Some(t)),
        Err(rusqlite::Error::QueryReturnedNoRows) => Ok(None),
        Err(e) => Err(e.to_string()),
    }
}

/// Relies on `rusqlite::Connection::execute`: updates the last-access
/// timestamp of the metadata row.
#[verifier::external_body]
pub(crate) fn update_last_access_row(conn: &Connection, last_access: &str) -> Result<(), String> {
    conn.execute("UPDATE vault_metadata SET last_access = ?1 WHERE id = 1", (last_access,))
        .map(|_| ()).map_err(|e| e.to_string())
}

/// Relies on `rusqlite::Connection::execute`: replaces the salt and the
/// password-verification hash of the metadata row.
#[verifier::external_body]
pub(crate) fn update_metadata_crypto_row(
    conn: &Connection,
    salt: &[u8],
    password_hash: &[u8],
) -> Result<(), String> {
    conn.execute(
        "UPDATE vault_metadata SET salt = ?1, password_hash = ?2 WHERE id = 1",
        (salt, password_hash),
    ).map(|_| ()).map_err(|e| e.to_string())
}

/// Relies on `rusqlite::Connection::execute`: inserts one credential-entry
/// row.
#[verifier::external_body]
pub(crate) fn insert_entry_row(conn: &Connection, row: &RawEntryRow) -> Result<(), String> {
    conn.execute(
        "INSERT INTO password_entries
         (id, title, username, encrypted_password, url, notes, created_at, updated_at)
         VALUES (?1, ?2, ?3, ?4, ?5, ?6, ?7, ?8)",
        (&row.id, &row.title, &row.username, &row.encrypted_password,
         &row.url, &row.notes, &row.created_at, &row.updated_at),
    ).map(|_| ()).map_err(|e| e.to_string())
}

/// Relies on `rusqlite::Connection::execute`: rewrites the mutable columns
/// of the credential-entry row with the given identifier.
#[verifier::external_body]
pub(crate) fn update_entry_row(conn: &Connection, row: &RawEntryRow) -> Result<(), String> {
    conn.execute(
        "UPDATE password_entries
         SET title = ?1, username = ?2, encrypted_password = ?3, url = ?4, notes = ?5, updated_at = ?6
         WHERE id = ?7",
        (&row.title, &row.username, &row.encrypted_password, &row.url,
         &row.notes, &row.updated_at, &row.id),
    ).map(|_| ()).map_err(|e| e.to_string())
}

/// Relies on `rusqlite::Connection::execute`: deletes the credential-entry
/// row with the given identifier.
#[verifier::external_body]
pub(crate) fn delete_entry_row(conn: &Connection, id: &str) -> Result<(), String> {
    conn.execute("DELETE FROM password_entries WHERE id = ?1", (id,))
        .map(|_| ()).map_err(|e| e.to_string())
}

/// Relies on `rusqlite::Connection::execute`: deletes every credential-entry
/// row with the given title.
#[verifier::external_body]
pub(crate) fn delete_entry_rows_by_title(conn: &Connection, title: &str) -> Result<(), String> {
    conn.execute("DELETE FROM password_entries WHERE title = ?1", (title,))
        .map(|_| ()).map_err(|e| e.to_string())
}

/// Relies on `rusqlite::Statement::query_map`: reads every credential-entry
/// row, in the order the store keeps them.
#[verifier::external_body]
pub(crate) fn load_entry_rows(conn: &Connection) -> Result<Vec<RawEntryRow>, String> {
    let mut stmt = conn.prepare(
        "SELECT id, title, username, encrypted_password, url, notes, created_at, updated_at
         FROM password_entries ORDER BY rowid",
    ).map_err(|e| e.to_string())?;
    let rows = stmt.query_map((), |row| Ok(RawEntryRow {
        id: row.get(0)?, title: row.get(1)?, username: row.get(2)?,
        encrypted_password: row.get(3)?, url: row.get(4)?, notes: row.get(5)?,
        created_at: row.get(6)?, updated_at: row.get(7)?,
    })).map_err(|e| e.to_string())?;
    rows.collect::<Result<Vec<RawEntryRow>, rusqlite::Error>>().map_err(|e| e.to_string())
}

} // verus!
