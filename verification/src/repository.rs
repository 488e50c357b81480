//! The vault repository: CRUD over encrypted credential entries and the
//! singleton vault metadata row.
//!
//! The repository holds its tables in memory as the verified source of
//! truth, loaded and validated from the database file when the store is
//! opened; every mutation is mirrored to the file through the trusted
//! wrappers in `storage` before the in-memory state is changed, so a failed
//! write leaves the repository exactly as it was.

use vstd::prelude::*;

use rusqlite::Connection;

use crate::error::Error;
use crate::migrations::MigrationRunner;
use crate::models::opt_view;
use crate::models::PasswordEntry;
use crate::models::PasswordEntryView;
use crate::models::SecureString;
use crate::models::VaultMetadata;
use crate::models::VaultMetadataView;
use crate::stamps::now_rfc3339;
use crate::stamps::rfc3339_ok;
use crate::stamps::rfc3339_valid;
use crate::stamps::uuid_ok;
use crate::stamps::uuid_valid;
use crate::storage::delete_entry_row;
use crate::storage::delete_entry_rows_by_title;
use crate::storage::exec_sql;
use crate::storage::insert_entry_row;
use crate::storage::insert_metadata_row;
use crate::storage::load_entry_rows;
use crate::storage::load_metadata_row;
use crate::storage::open_connection;
use crate::storage::update_entry_row;
use crate::storage::update_last_access_row;
use crate::storage::update_metadata_crypto_row;
use crate::storage::RawEntryRow;
use crate::strutil::is_substring;
use crate::strutil::lex_le;
use crate::strutil::str_contains;
use crate::strutil::str_eq;
use crate::strutil::str_le;
use vstd::multiset::Multiset;

verus! {

/// The value of one stored row: the public entry fields (secret field
/// empty) and the sealed payload.
pub ghost struct StoredEntryView {
    pub entry: PasswordEntryView,
    pub ciphertext: Seq<u8>,
}

/// One row of the credential-entry table: the entry's public fields and the
/// ciphertext of its secret.
pub struct StoredEntry {
    /// The entry, with an empty secret field.
    pub entry: PasswordEntry,
    /// The sealed secret, `nonce || ciphertext-with-tag`.
    pub ciphertext: Vec<u8>,
}

impl View for StoredEntry {
    type V = StoredEntryView;

    open spec fn view(&self) -> StoredEntryView {
        StoredEntryView { entry: self.entry@, ciphertext: self.ciphertext@ }
    }
}

/// What the store keeps of an entry handed to `add_entry`: its fields with
/// the secret blanked, plus the ciphertext.
pub open spec fn stored_of(e: PasswordEntryView, ct: Seq<u8>) -> StoredEntryView {
    StoredEntryView {
        entry: PasswordEntryView { password: Seq::<char>::empty(), ..e },
        ciphertext: ct,
    }
}

/// Some row carries this identifier.
pub open spec fn has_id(entries: Seq<StoredEntryView>, id: Seq<char>) -> bool {
    exists|i: int| 0 <= i < entries.len() && (#[trigger] entries[i]).entry.id == id
}

/// Some row carries this title.
pub open spec fn has_title(entries: Seq<StoredEntryView>, title: Seq<char>) -> bool {
    exists|i: int| 0 <= i < entries.len() && (#[trigger] entries[i]).entry.title == title
}

/// No two rows share an identifier.
pub open spec fn unique_ids(entries: Seq<StoredEntryView>) -> bool {
    forall|i: int, j: int|
        0 <= i < j < entries.len() ==> (#[trigger] entries[i]).entry.id != (
        #[trigger] entries[j]).entry.id
}

/// Every row keeps its secret field empty: the store holds ciphertext only.
pub open spec fn secrets_blank(entries: Seq<StoredEntryView>) -> bool {
    forall|i: int|
        0 <= i < entries.len() ==> (#[trigger] entries[i]).entry.password == Seq::<char>::empty()
}

/// The whole value of a repository: the optional metadata row and the
/// entry rows in storage order.
pub ghost struct RepositoryView {
    pub meta: Option<VaultMetadataView>,
    pub entries: Seq<StoredEntryView>,
}

/// Well-formedness of a repository value.
pub open spec fn repo_wf(v: RepositoryView) -> bool {
    unique_ids(v.entries) && secrets_blank(v.entries)
}

/// The persistent store: one open database file plus the validated
/// in-memory image of its tables.
pub struct PasswordRepository {
    conn: Connection,
    meta: Option<VaultMetadata>,
    entries: Vec<StoredEntry>,
}

impl View for PasswordRepository {
    type V = RepositoryView;

    closed spec fn view(&self) -> RepositoryView {
        RepositoryView {
            meta: match self.meta {
                Some(m) => Some(m@),
                None => None,
            },
            entries: self.entries@.map_values(|s: StoredEntry| s@),
        }
    }
}

/// Copies an optional string.
fn clone_opt_string(o: &Option<String>) -> (r: Option<String>)
    ensures
        opt_view(r) == opt_view(*o),
{
    match o {
        Some(s) => Some(s.clone()),
        None => None,
    }
}

/// Copies the public fields of an entry, blanking the secret field.
fn clone_public_entry(e: &PasswordEntry) -> (r: PasswordEntry)
    ensures
        r@ == (PasswordEntryView { password: Seq::<char>::empty(), ..e@ }),
{
    PasswordEntry {
        id: e.id.clone(),
        title: e.title.clone(),
        username: e.username.clone(),
        password: SecureString::new(String::new()),
        url: clone_opt_string(&e.url),
        notes: clone_opt_string(&e.notes),
        created_at: e.created_at.clone(),
        updated_at: e.updated_at.clone(),
    }
}

/// Copies a byte vector.
fn clone_bytes(v: &Vec<u8>) -> (r: Vec<u8>)
    ensures
        r@ == v@,
{
    vstd::slice::slice_to_vec(v.as_slice())
}

/// Validates one raw row read from the store and converts it into a stored
/// entry: the identifier must be UUID text and both timestamps RFC 3339
/// text, exactly as the repository writes them. The converted entry carries
/// the row's fields unchanged, with a blank secret.
pub fn validate_entry_row(row: &RawEntryRow) -> (r: Result<StoredEntry, Error>)
    ensures
        r is Ok <==> (uuid_ok(row.id@) && rfc3339_ok(row.created_at@) && rfc3339_ok(
            row.updated_at@,
        )),
        r matches Err(e) ==> e is Database,
        r matches Ok(s) ==> s@.entry.id == row.id@ && s@.entry.title == row.title@
            && s@.entry.username == row.username@ && s@.entry.password == Seq::<char>::empty()
            && s@.entry.url == opt_view(row.url) && s@.entry.notes == opt_view(row.notes)
            && s@.entry.created_at == row.created_at@ && s@.entry.updated_at == row.updated_at@
            && s@.ciphertext == row.encrypted_password@,
{
    if !uuid_valid(row.id.as_str()) {
        return Err(Error::Database(String::from_str("malformed entry identifier")));
    }
    if !rfc3339_valid(row.created_at.as_str()) || !rfc3339_valid(row.updated_at.as_str()) {
        return Err(Error::Database(String::from_str("malformed entry timestamp")));
    }
    Ok(
        StoredEntry {
            entry: PasswordEntry {
                id: row.id.clone(),
                title: row.title.clone(),
                username: row.username.clone(),
                password: SecureString::new(String::new()),
                url: clone_opt_string(&row.url),
                notes: clone_opt_string(&row.notes),
                created_at: row.created_at.clone(),
                updated_at: row.updated_at.clone(),
            },
            ciphertext: clone_bytes(&row.encrypted_password),
        },
    )
}

/// Finds the index of the row with the given identifier, if any.
fn find_by_id(entries: &Vec<StoredEntry>, id: &str) -> (r: Option<usize>)
    ensures
        r matches Some(i) ==> i < entries@.len() && entries@.map_values(|s: StoredEntry| s@)[
            i as int
        ].entry.id == id@,
        r is None ==> !has_id(entries@.map_values(|s: StoredEntry| s@), id@),
{
    let ghost views = entries@.map_values(|s: StoredEntry| s@);
    let n = entries.len();
    let mut i: usize = 0;
    while i < n
        invariant
            i <= n,
            n == entries@.len(),
            views == entries@.map_values(|s: StoredEntry| s@),
            forall|j: int| 0 <= j < i ==> (#[trigger] views[j]).entry.id != id@,
        decreases n - i,
    {
        if str_eq(entries[i].entry.id.as_str(), id) {
            return Some(i);
        }
        i += 1;
    }
    None
}

/// Finds the index of the first row, in storage order, with the given
/// title, if any.
fn find_first_by_title(entries: &Vec<StoredEntry>, title: &str) -> (r: Option<usize>)
    ensures
        r matches Some(i) ==> {
            let views = entries@.map_values(|s: StoredEntry| s@);
            i < views.len() && views[i as int].entry.title == title@ && (forall|j: int|
                0 <= j < i ==> (#[trigger] views[j]).entry.title != title@)
        },
        r is None ==> !has_title(entries@.map_values(|s: StoredEntry| s@), title@),
{
    let ghost views = entries@.map_values(|s: StoredEntry| s@);
    let n = entries.len();
    let mut i: usize = 0;
    while i < n
        invariant
            i <= n,
            n == entries@.len(),
            views == entries@.map_values(|s: StoredEntry| s@),
            forall|j: int| 0 <= j < i ==> (#[trigger] views[j]).entry.title != title@,
        decreases n - i,
    {
        if str_eq(entries[i].entry.title.as_str(), title) {
            return Some(i);
        }
        i += 1;
    }
    None
}

impl PasswordRepository {
    /// Well-formedness: valid whenever the repository came from `new` and
    /// was only changed through its own methods.
    pub open spec fn wf(&self) -> bool {
        repo_wf(self@)
    }

    /// Opens (creating it if missing) the store at `path`, runs every
    /// pending schema migration, and loads and validates the tables. Fails
    /// with a `Database` error if the file cannot be opened or a stored row
    /// is malformed (bad UUID or timestamp text, or a duplicated
    /// identifier), and with a `Migration` error if a schema transformation
    /// fails.
    pub fn new(path: &str) -> (r: Result<Self, Error>)
        ensures
            r matches Ok(repo) ==> repo.wf(),
            r matches Err(e) ==> e is Database || e is Migration,
    {
        let conn = match open_connection(path) {
            Ok(c) => c,
            Err(e) => return Err(Error::Database(e)),
        };
        if let Err(e) = exec_sql(&conn, "PRAGMA foreign_keys = ON") {
            return Err(Error::Database(e));
        }
        let runner = MigrationRunner::new(&conn);
        if let Err(e) = runner.migrate() {
            return Err(e);
        }
        let meta: Option<VaultMetadata> = match load_metadata_row(&conn) {
            Err(e) => return Err(Error::Database(e)),
            Ok(None) => None,
            Ok(Some(row)) => {
                let (created_at, last_access, schema_version, salt, password_hash) = row;
                if !rfc3339_valid(created_at.as_str()) || !rfc3339_valid(last_access.as_str()) {
                    return Err(Error::Database(String::from_str("malformed metadata timestamp")));
                }
                Some(VaultMetadata { created_at, last_access, schema_version, salt, password_hash })
            },
        };
        let raw_rows = match load_entry_rows(&conn) {
            Ok(v) => v,
            Err(e) => return Err(Error::Database(e)),
        };
        let mut entries: Vec<StoredEntry> = Vec::new();
        let n = raw_rows.len();
        let mut i: usize = 0;
        while i < n
            invariant
                i <= n,
                n == raw_rows@.len(),
                unique_ids(entries@.map_values(|s: StoredEntry| s@)),
                secrets_blank(entries@.map_values(|s: StoredEntry| s@)),
            decreases n - i,
        {
            let row = &raw_rows[i];
            let entry = match validate_entry_row(row) {
                Ok(s) => s,
                Err(e) => return Err(e),
            };
            if find_by_id(&entries, row.id.as_str()).is_some() {
                return Err(Error::Database(String::from_str("duplicated entry identifier")));
            }
            let ghost before = entries@.map_values(|s: StoredEntry| s@);
            entries.push(entry);
            proof {
                assert(entries@.map_values(|s: StoredEntry| s@) =~= before.push(
                    entries@[entries@.len() - 1]@,
                ));
            }
            i += 1;
        }
        Ok(PasswordRepository { conn, meta, entries })
    }

    /// Inserts the singleton metadata row, stamping both timestamps to the
    /// current time. Fails with `VaultAlreadyExists` exactly when a row
    /// already exists, leaving everything unchanged; on success the vault's
    /// salt and password hash are exactly the given ones, at schema
    /// version 1.
    pub fn initialize_vault(&mut self, salt: Vec<u8>, password_hash: Vec<u8>) -> (r: Result<
        (),
        Error,
    >)
        requires
            old(self).wf(),
        ensures
            final(self).wf(),
            old(self)@.meta is Some ==> (r matches Err(e) && e is VaultAlreadyExists
                && final(self)@ == old(self)@),
            r is Ok ==> old(self)@.meta is None && final(self)@.entries == old(self)@.entries && (
            final(self)@.meta matches Some(m) && m.salt == salt@ && m.password_hash
                == password_hash@ && m.schema_version == 1 && m.created_at == m.last_access
                && rfc3339_ok(m.created_at)),
            old(self)@.meta is None && r is Err ==> final(self)@ == old(self)@,
            r matches Err(e) ==> e is VaultAlreadyExists || e is Database,
            r matches Err(e) ==> (e is VaultAlreadyExists <==> old(self)@.meta is Some),
    {
        if self.meta.is_some() {
            return Err(Error::VaultAlreadyExists);
        }
        let m = VaultMetadata::new(salt, password_hash);
        if let Err(e) = insert_metadata_row(
            &self.conn,
            m.created_at.as_str(),
            m.last_access.as_str(),
            m.schema_version,
            m.salt.as_slice(),
            m.password_hash.as_slice(),
        ) {
            return Err(Error::Database(e));
        }
        self.meta = Some(m);
        Ok(())
    }

    /// Whether the vault metadata row exists.
    pub fn is_initialized(&self) -> (r: Result<bool, Error>)
        ensures
            r matches Ok(b) && b == (self@.meta is Some),
    {
        Ok(self.meta.is_some())
    }

    /// Returns the vault metadata; fails with `VaultNotInitialized` when the
    /// metadata row does not exist.
    pub fn get_vault_metadata(&self) -> (r: Result<VaultMetadata, Error>)
        ensures
            self@.meta matches Some(m) ==> (r matches Ok(rm) && rm@ == m),
            self@.meta is None ==> (r matches Err(e) && e is VaultNotInitialized),
    {
        match &self.meta {
            Some(m) => Ok(
                VaultMetadata {
                    created_at: m.created_at.clone(),
                    last_access: m.last_access.clone(),
                    schema_version: m.schema_version,
                    salt: clone_bytes(&m.salt),
                    password_hash: clone_bytes(&m.password_hash),
                },
            ),
            None => Err(Error::VaultNotInitialized),
        }
    }

    /// Stamps the last-access timestamp of the metadata row to the current
    /// time, leaving every other field unchanged. A missing metadata row is
    /// left as it is.
    pub fn update_last_access(&mut self) -> (r: Result<(), Error>)
        requires
            old(self).wf(),
        ensures
            final(self).wf(),
            final(self)@.entries == old(self)@.entries,
            old(self)@.meta is None ==> r is Ok && final(self)@ == old(self)@,
            r is Err ==> final(self)@ == old(self)@,
            r matches Err(e) ==> e is Database,
            r is Ok ==> (old(self)@.meta matches Some(m) ==> (final(self)@.meta matches Some(m2)
                && m2.created_at == m.created_at && m2.schema_version == m.schema_version
                && m2.salt == m.salt && m2.password_hash == m.password_hash && rfc3339_ok(
                m2.last_access,
            ))),
    {
        if self.meta.is_none() {
            return Ok(());
        }
        let now = now_rfc3339();
        if let Err(e) = update_last_access_row(&self.conn, now.as_str()) {
            return Err(Error::Database(e));
        }
        match &mut self.meta {
            Some(m) => {
                m.last_access = now;
            },
            None => {},
        }
        Ok(())
    }

    /// Inserts a new entry row holding the entry's public fields and the
    /// given ciphertext. A duplicated identifier is a constraint violation
    /// and fails with a `Database` error; every failure leaves the
    /// repository unchanged.
    pub fn add_entry(&mut self, entry: &PasswordEntry, encrypted_password: &[u8]) -> (r: Result<
        (),
        Error,
    >)
        requires
            old(self).wf(),
        ensures
            final(self).wf(),
            has_id(old(self)@.entries, entry@.id) ==> (r is Err && final(self)@ == old(self)@),
            r is Ok ==> !has_id(old(self)@.entries, entry@.id) && final(self)@.meta
                == old(self)@.meta && final(self)@.entries =~= old(self)@.entries.push(
                stored_of(entry@, encrypted_password@),
            ),
            r is Err ==> final(self)@ == old(self)@,
            r matches Err(e) ==> e is Database,
    {
        if find_by_id(&self.entries, entry.id.as_str()).is_some() {
            return Err(Error::Database(String::from_str("entry identifier already present")));
        }
        let stored = StoredEntry {
            entry: clone_public_entry(entry),
            ciphertext: vstd::slice::slice_to_vec(encrypted_password),
        };
        let row = RawEntryRow {
            id: entry.id.clone(),
            title: entry.title.clone(),
            username: entry.username.clone(),
            encrypted_password: vstd::slice::slice_to_vec(encrypted_password),
            url: clone_opt_string(&entry.url),
            notes: clone_opt_string(&entry.notes),
            created_at: entry.created_at.clone(),
            updated_at: entry.updated_at.clone(),
        };
        if let Err(e) = insert_entry_row(&self.conn, &row) {
            return Err(Error::Database(e));
        }
        let ghost before = self.entries@.map_values(|s: StoredEntry| s@);
        self.entries.push(stored);
        proof {
            assert(self.entries@.map_values(|s: StoredEntry| s@) =~= before.push(
                stored_of(entry@, encrypted_password@),
            ));
        }
        Ok(())
    }

    /// Returns the entry with the given identifier together with its
    /// ciphertext; fails with `EntryNotFound` when no row matches.
    pub fn get_entry_by_id(&self, id: &str) -> (r: Result<(PasswordEntry, Vec<u8>), Error>)
        requires
            self.wf(),
        ensures
            r matches Ok(p) ==> exists|i: int|
                0 <= i < self@.entries.len() && (#[trigger] self@.entries[i]).entry.id == id@
                    && p.0@ == self@.entries[i].entry && p.1@ == self@.entries[i].ciphertext,
            r is Err <==> !has_id(self@.entries, id@),
            r matches Err(e) ==> e is EntryNotFound,
    {
        match find_by_id(&self.entries, id) {
            Some(i) => {
                let s = &self.entries[i];
                let e = clone_public_entry(&s.entry);
                proof {
                    assert(self@.entries[i as int] == s@);
                    assert(e@ == s@.entry);
                }
                Ok((e, clone_bytes(&s.ciphertext)))
            },
            None => Err(Error::EntryNotFound(String::from_str("no entry with this id"))),
        }
    }

    /// Returns the first entry, in storage order, with the given title,
    /// together with its ciphertext; fails with `EntryNotFound` when no row
    /// matches. All rows sharing this title agree on it, so the pick is the
    /// oldest matching row.
    pub fn get_entry_by_title(&self, title: &str) -> (r: Result<(PasswordEntry, Vec<u8>), Error>)
        requires
            self.wf(),
        ensures
            r matches Ok(p) ==> exists|i: int|
                0 <= i < self@.entries.len() && (#[trigger] self@.entries[i]).entry.title == title@
                    && (forall|j: int| 0 <= j < i ==> self@.entries[j].entry.title != title@)
                    && p.0@ == self@.entries[i].entry && p.1@ == self@.entries[i].ciphertext,
            r is Err <==> !has_title(self@.entries, title@),
            r matches Err(e) ==> e is EntryNotFound,
    {
        match find_first_by_title(&self.entries, title) {
            Some(i) => {
                let s = &self.entries[i];
                let e = clone_public_entry(&s.entry);
                proof {
                    assert(self@.entries[i as int] == s@);
                    assert(e@ == s@.entry);
                }
                Ok((e, clone_bytes(&s.ciphertext)))
            },
            None => Err(Error::EntryNotFound(String::from_str("no entry with this title"))),
        }
    }

    /// Rewrites the mutable columns of the row with the entry's identifier:
    /// title, username, ciphertext, URL, notes and the update timestamp; the
    /// identifier and creation timestamp keep their stored values. Fails
    /// with `EntryNotFound` when no row matches; every failure leaves the
    /// repository unchanged.
    pub fn update_entry(&mut self, entry: &PasswordEntry, encrypted_password: &[u8]) -> (r: Result<
        (),
        Error,
    >)
        requires
            old(self).wf(),
        ensures
            final(self).wf(),
            !has_id(old(self)@.entries, entry@.id) ==> (r matches Err(e) && e is EntryNotFound
                && final(self)@ == old(self)@),
            r is Ok ==> exists|i: int|
                0 <= i < old(self)@.entries.len() && (#[trigger] old(self)@.entries[i]).entry.id
                    == entry@.id && final(self)@.entries =~= old(self)@.entries.update(
                    i,
                    updated_stored(old(self)@.entries[i], entry@, encrypted_password@),
                ) && final(self)@.meta == old(self)@.meta,
            r is Err ==> final(self)@ == old(self)@,
            r matches Err(e) ==> e is EntryNotFound || e is Database,
            r matches Err(e) ==> (e is EntryNotFound <==> !has_id(old(self)@.entries, entry@.id)),
    {
        let i = match find_by_id(&self.entries, entry.id.as_str()) {
            Some(i) => i,
            None => {
                return Err(Error::EntryNotFound(String::from_str("no entry with this id")));
            },
        };
        let row = RawEntryRow {
            id: entry.id.clone(),
            title: entry.title.clone(),
            username: entry.username.clone(),
            encrypted_password: vstd::slice::slice_to_vec(encrypted_password),
            url: clone_opt_string(&entry.url),
            notes: clone_opt_string(&entry.notes),
            created_at: entry.created_at.clone(),
            updated_at: entry.updated_at.clone(),
        };
        if let Err(e) = update_entry_row(&self.conn, &row) {
            return Err(Error::Database(e));
        }
        let ghost before = self.entries@.map_values(|s: StoredEntry| s@);
        let old_entry = &self.entries[i];
        let replacement = StoredEntry {
            entry: PasswordEntry {
                id: old_entry.entry.id.clone(),
                title: entry.title.clone(),
                username: entry.username.clone(),
                password: SecureString::new(String::new()),
                url: clone_opt_string(&entry.url),
                notes: clone_opt_string(&entry.notes),
                created_at: old_entry.entry.created_at.clone(),
                updated_at: entry.updated_at.clone(),
            },
            ciphertext: vstd::slice::slice_to_vec(encrypted_password),
        };
        self.entries[i] = replacement;
        proof {
            assert(self.entries@.map_values(|s: StoredEntry| s@) =~= before.update(
                i as int,
                updated_stored(before[i as int], entry@, encrypted_password@),
            ));
        }
        Ok(())
    }

    /// Deletes the entry row with the given identifier; fails with
    /// `EntryNotFound` when no row matches. Every failure leaves the
    /// repository unchanged.
    pub fn delete_entry(&mut self, id: &str) -> (r: Result<(), Error>)
        requires
            old(self).wf(),
        ensures
            final(self).wf(),
            !has_id(old(self)@.entries, id@) ==> (r matches Err(e) && e is EntryNotFound
                && final(self)@ == old(self)@),
            r is Ok ==> exists|i: int|
                0 <= i < old(self)@.entries.len() && (#[trigger] old(self)@.entries[i]).entry.id
                    == id@ && final(self)@.entries =~= old(self)@.entries.remove(i)
                    && final(self)@.meta == old(self)@.meta,
            r is Err ==> final(self)@ == old(self)@,
            r matches Err(e) ==> e is EntryNotFound || e is Database,
            r matches Err(e) ==> (e is EntryNotFound <==> !has_id(old(self)@.entries, id@)),
    {
        let i = match find_by_id(&self.entries, id) {
            Some(i) => i,
            None => {
                return Err(Error::EntryNotFound(String::from_str("no entry with this id")));
            },
        };
        if let Err(e) = delete_entry_row(&self.conn, id) {
            return Err(Error::Database(e));
        }
        let ghost before = self.entries@.map_values(|s: StoredEntry| s@);
        self.entries.remove(i);
        proof {
            assert(self.entries@.map_values(|s: StoredEntry| s@) =~= before.remove(i as int));
            lemma_remove_preserves_wf(before, i as int);
        }
        Ok(())
    }

    /// Deletes every entry row carrying the given title; fails with
    /// `EntryNotFound` when no row matches. Every failure leaves the
    /// repository unchanged.
    pub fn delete_entry_by_title(&mut self, title: &str) -> (r: Result<(), Error>)
        requires
            old(self).wf(),
        ensures
            final(self).wf(),
            !has_title(old(self)@.entries, title@) ==> (r matches Err(e) && e is EntryNotFound
                && final(self)@ == old(self)@),
            r is Ok ==> has_title(old(self)@.entries, title@) && final(self)@.entries
                =~= old(self)@.entries.filter(|s: StoredEntryView| s.entry.title != title@)
                && final(self)@.meta == old(self)@.meta,
            r is Err ==> final(self)@ == old(self)@,
            r matches Err(e) ==> e is EntryNotFound || e is Database,
            r matches Err(e) ==> (e is EntryNotFound <==> !has_title(old(self)@.entries, title@)),
    {
        if find_first_by_title(&self.entries, title).is_none() {
            return Err(Error::EntryNotFound(String::from_str("no entry with this title")));
        }
        if let Err(e) = delete_entry_rows_by_title(&self.conn, title) {
            return Err(Error::Database(e));
        }
        let ghost before = self.entries@.map_values(|s: StoredEntry| s@);
        let ghost pred = |s: StoredEntryView| s.entry.title != title@;
        let mut kept: Vec<StoredEntry> = Vec::new();
        let n = self.entries.len();
        let mut i: usize = 0;
        while i < n
            invariant
                i <= n,
                old(self).wf(),
                *self == *old(self),
                n == self.entries@.len(),
                before == old(self)@.entries,
                before == self.entries@.map_values(|s: StoredEntry| s@),
                pred == (|s: StoredEntryView| s.entry.title != title@),
                kept@.map_values(|s: StoredEntry| s@) == before.take(i as int).filter(pred),
            decreases n - i,
        {
            let ghost kept_before = kept@.map_values(|s: StoredEntry| s@);
            proof {
                assert(before.take(i + 1) =~= before.take(i as int) + seq![before[i as int]]);
                Seq::filter_distributes_over_add(
                    before.take(i as int),
                    seq![before[i as int]],
                    pred,
                );
                reveal_with_fuel(Seq::filter, 2);
                assert(seq![before[i as int]].drop_last() =~= Seq::<StoredEntryView>::empty());
                if pred(before[i as int]) {
                    assert(seq![before[i as int]].filter(pred) =~= seq![before[i as int]]);
                } else {
                    assert(seq![before[i as int]].filter(pred) =~= Seq::<StoredEntryView>::empty());
                }
            }
            let s = &self.entries[i];
            if !str_eq(s.entry.title.as_str(), title) {
                let copy = StoredEntry {
                    entry: clone_public_entry(&s.entry),
                    ciphertext: clone_bytes(&s.ciphertext),
                };
                proof {
                    assert(secrets_blank(before));
                    assert(before[i as int].entry.password == Seq::<char>::empty());
                    assert(copy@ == before[i as int]);
                }
                kept.push(copy);
                proof {
                    assert(kept@.map_values(|s: StoredEntry| s@) =~= kept_before.push(
                        before[i as int],
                    ));
                    assert(kept@.map_values(|s: StoredEntry| s@) =~= before.take(i + 1).filter(
                        pred,
                    ));
                }
            } else {
                proof {
                    assert(kept@.map_values(|s: StoredEntry| s@) =~= before.take(i + 1).filter(
                        pred,
                    ));
                }
            }
            i += 1;
        }
        proof {
            assert(before.take(n as int) =~= before);
        }
        self.entries = kept;
        proof {
            lemma_filter_keeps_wf(before, pred);
        }
        Ok(())
    }

    /// Returns every entry's sealed payload, in storage order; used to
    /// re-encrypt the vault during a master-password rotation.
    pub fn entry_ciphertexts(&self) -> (r: Vec<Vec<u8>>)
        ensures
            r@.len() == self@.entries.len(),
            forall|i: int| 0 <= i < r@.len() ==> (#[trigger] r@[i])@ == self@.entries[i].ciphertext,
    {
        let mut out: Vec<Vec<u8>> = Vec::new();
        let n = self.entries.len();
        let mut i: usize = 0;
        while i < n
            invariant
                i <= n,
                n == self@.entries.len(),
                n == self.entries@.len(),
                self@.entries == self.entries@.map_values(|s: StoredEntry| s@),
                out@.len() == i,
                forall|k: int|
                    0 <= k < i ==> (#[trigger] out@[k])@ == self@.entries[k].ciphertext,
            decreases n - i,
        {
            out.push(clone_bytes(&self.entries[i].ciphertext));
            i += 1;
        }
        out
    }

    /// Commits a master-password rotation: replaces the vault salt, the
    /// password-verification hash and every entry's ciphertext, all inside
    /// one transaction — either the whole new state is stored or none of it,
    /// and a failure leaves the repository in its pre-rotation state.
    pub fn rekey(&mut self, salt: Vec<u8>, password_hash: Vec<u8>, ciphertexts: &Vec<Vec<u8>>) -> (r:
        Result<(), Error>)
        requires
            old(self).wf(),
            ciphertexts@.len() == old(self)@.entries.len(),
        ensures
            final(self).wf(),
            old(self)@.meta is None ==> (r matches Err(e) && e is VaultNotInitialized
                && final(self)@ == old(self)@),
            r is Err ==> final(self)@ == old(self)@,
            r matches Err(e) ==> e is VaultNotInitialized || e is Database,
            r matches Err(e) ==> (e is VaultNotInitialized <==> old(self)@.meta is None),
            r is Ok ==> (old(self)@.meta matches Some(m) && (final(self)@.meta matches Some(m2)
                && m2.salt == salt@ && m2.password_hash == password_hash@ && m2.created_at
                == m.created_at && m2.last_access == m.last_access && m2.schema_version
                == m.schema_version)),
            r is Ok ==> final(self)@.entries.len() == old(self)@.entries.len() && (forall|i: int|
                0 <= i < old(self)@.entries.len() ==> (#[trigger] final(self)@.entries[i]).entry
                    == old(self)@.entries[i].entry && final(self)@.entries[i].ciphertext
                    == ciphertexts@[i]@),
    {
        if self.meta.is_none() {
            return Err(Error::VaultNotInitialized);
        }
        if let Err(e) = exec_sql(&self.conn, "BEGIN") {
            return Err(Error::Database(e));
        }
        if let Err(e) = update_metadata_crypto_row(
            &self.conn,
            salt.as_slice(),
            password_hash.as_slice(),
        ) {
            let _ = exec_sql(&self.conn, "ROLLBACK");
            return Err(Error::Database(e));
        }
        let n = self.entries.len();
        let mut i: usize = 0;
        while i < n
            invariant
                i <= n,
                old(self).wf(),
                old(self)@.meta is Some,
                *self == *old(self),
                n == self.entries@.len(),
                ciphertexts@.len() == n,
            decreases n - i,
        {
            let s = &self.entries[i];
            let row = RawEntryRow {
                id: s.entry.id.clone(),
                title: s.entry.title.clone(),
                username: s.entry.username.clone(),
                encrypted_password: clone_bytes(&ciphertexts[i]),
                url: clone_opt_string(&s.entry.url),
                notes: clone_opt_string(&s.entry.notes),
                created_at: s.entry.created_at.clone(),
                updated_at: s.entry.updated_at.clone(),
            };
            if let Err(e) = update_entry_row(&self.conn, &row) {
                let _ = exec_sql(&self.conn, "ROLLBACK");
                return Err(Error::Database(e));
            }
            i += 1;
        }
        if let Err(e) = exec_sql(&self.conn, "COMMIT") {
            let _ = exec_sql(&self.conn, "ROLLBACK");
            return Err(Error::Database(e));
        }
        let new_meta = match &self.meta {
            Some(m) => VaultMetadata {
                created_at: m.created_at.clone(),
                last_access: m.last_access.clone(),
                schema_version: m.schema_version,
                salt,
                password_hash,
            },
            None => vstd::pervasive::unreached(),
        };
        self.meta = Some(new_meta);
        let ghost gmeta = self.meta;
        let ghost before = self.entries@.map_values(|s: StoredEntry| s@);
        let mut j: usize = 0;
        while j < n
            invariant
                j <= n,
                old(self).wf(),
                old(self)@.meta is Some,
                n == self.entries@.len(),
                ciphertexts@.len() == n,
                before == old(self)@.entries,
                before.len() == n,
                self.meta == gmeta,
                gmeta matches Some(m2) && m2@.salt == salt@ && m2@.password_hash
                    == password_hash@ && (old(self)@.meta matches Some(m) ==> m2@.created_at
                    == m.created_at && m2@.last_access == m.last_access && m2@.schema_version
                    == m.schema_version),
                secrets_blank(before),
                unique_ids(before),
                forall|k: int|
                    0 <= k < j ==> (#[trigger] self.entries@[k])@.entry == before[k].entry && self
                        .entries@[k]@.ciphertext == ciphertexts@[k]@,
                forall|k: int| j <= k < n ==> (#[trigger] self.entries@[k])@ == before[k],
            decreases n - j,
        {
            let s = &self.entries[j];
            let replacement = StoredEntry {
                entry: clone_public_entry(&s.entry),
                ciphertext: clone_bytes(&ciphertexts[j]),
            };
            proof {
                assert(self.entries@[j as int]@ == before[j as int]);
                assert(before[j as int].entry.password == Seq::<char>::empty());
                assert(replacement@.entry == before[j as int].entry);
            }
            self.entries[j] = replacement;
            j += 1;
        }
        proof {
            let after = self.entries@.map_values(|s: StoredEntry| s@);
            assert forall|a: int, b: int| 0 <= a < b < after.len() implies (
            #[trigger] after[a]).entry.id != (#[trigger] after[b]).entry.id by {
                assert(after[a].entry == before[a].entry);
                assert(after[b].entry == before[b].entry);
            }
            assert forall|a: int| 0 <= a < after.len() implies (#[trigger] after[a]).entry.password
                == Seq::<char>::empty() by {
                assert(after[a].entry == before[a].entry);
            }
        }
        Ok(())
    }

    /// Returns every entry, ordered by title ascending, with ciphertext and
    /// secret omitted.
    pub fn list_entries(&self) -> (r: Result<Vec<PasswordEntry>, Error>)
        requires
            self.wf(),
        ensures
            r is Ok,
            r matches Ok(v) ==> titles_sorted(entry_views(v@)) && entry_views(v@).to_multiset()
                == listed(self@.entries).to_multiset(),
    {
        let mut out: Vec<PasswordEntry> = Vec::new();
        let n = self.entries.len();
        let mut i: usize = 0;
        while i < n
            invariant
                i <= n,
                n == self@.entries.len(),
                self.wf(),
                entry_views(out@) == listed(self@.entries).take(i as int),
            decreases n - i,
        {
            let ghost before_views = entry_views(out@);
            let e = clone_public_entry(&self.entries[i].entry);
            proof {
                assert(secrets_blank(self@.entries));
                assert(self@.entries[i as int].entry.password == Seq::<char>::empty());
                assert(e@ == self@.entries[i as int].entry);
            }
            out.push(e);
            proof {
                assert(entry_views(out@) =~= before_views.push(self@.entries[i as int].entry));
                assert(entry_views(out@) =~= listed(self@.entries).take(i + 1));
            }
            i += 1;
        }
        proof {
            assert(listed(self@.entries).take(n as int) =~= listed(self@.entries));
        }
        sort_by_titles(&mut out);
        Ok(out)
    }

    /// Returns every entry whose title, username, URL or notes contain the
    /// query as a substring, ordered by title ascending, with ciphertext and
    /// secret omitted.
    pub fn search_entries(&self, query: &str) -> (r: Result<Vec<PasswordEntry>, Error>)
        requires
            self.wf(),
        ensures
            r is Ok,
            r matches Ok(v) ==> titles_sorted(entry_views(v@)) && entry_views(v@).to_multiset()
                == listed(self@.entries).filter(
                |e: PasswordEntryView| matches_query(e, query@),
            ).to_multiset(),
    {
        let ghost pred = |e: PasswordEntryView| matches_query(e, query@);
        let mut out: Vec<PasswordEntry> = Vec::new();
        let n = self.entries.len();
        let mut i: usize = 0;
        while i < n
            invariant
                i <= n,
                n == self@.entries.len(),
                self.wf(),
                pred == (|e: PasswordEntryView| matches_query(e, query@)),
                entry_views(out@) == listed(self@.entries).take(i as int).filter(pred),
            decreases n - i,
        {
            let ghost lv = listed(self@.entries);
            let ghost before_views = entry_views(out@);
            proof {
                assert(lv.take(i + 1) =~= lv.take(i as int) + seq![lv[i as int]]);
                Seq::filter_distributes_over_add(lv.take(i as int), seq![lv[i as int]], pred);
                reveal_with_fuel(Seq::filter, 2);
                assert(seq![lv[i as int]].drop_last() =~= Seq::<PasswordEntryView>::empty());
                if pred(lv[i as int]) {
                    assert(seq![lv[i as int]].filter(pred) =~= seq![lv[i as int]]);
                } else {
                    assert(seq![lv[i as int]].filter(pred) =~= Seq::<PasswordEntryView>::empty());
                }
            }
            let s = &self.entries[i];
            if entry_matches(&s.entry, query) {
                let e = clone_public_entry(&s.entry);
                proof {
                    assert(secrets_blank(self@.entries));
                    assert(self@.entries[i as int].entry.password == Seq::<char>::empty());
                    assert(e@ == lv[i as int]);
                }
                out.push(e);
                proof {
                    assert(entry_views(out@) =~= before_views.push(lv[i as int]));
                    assert(entry_views(out@) =~= lv.take(i + 1).filter(pred));
                }
            } else {
                proof {
                    assert(s@.entry == lv[i as int]);
                    assert(entry_views(out@) =~= lv.take(i + 1).filter(pred));
                }
            }
            i += 1;
        }
        proof {
            assert(listed(self@.entries).take(n as int) =~= listed(self@.entries));
        }
        sort_by_titles(&mut out);
        Ok(out)
    }
}

/// The character-level values of a sequence of entries.
pub open spec fn entry_views(v: Seq<PasswordEntry>) -> Seq<PasswordEntryView> {
    v.map_values(|e: PasswordEntry| e@)
}

/// The public entry of every stored row, in storage order.
pub open spec fn listed(entries: Seq<StoredEntryView>) -> Seq<PasswordEntryView> {
    entries.map_values(|s: StoredEntryView| s.entry)
}

/// The entries are in ascending title order.
pub open spec fn titles_sorted(s: Seq<PasswordEntryView>) -> bool {
    forall|i: int, j: int|
        0 <= i < j < s.len() ==> lex_le((#[trigger] s[i]).title, (#[trigger] s[j]).title)
}

/// An entry matches a query when the query occurs as a substring of its
/// title, username, URL or notes.
pub open spec fn matches_query(e: PasswordEntryView, q: Seq<char>) -> bool {
    is_substring(q, e.title) || is_substring(q, e.username) || (match e.url {
        Some(u) => is_substring(q, u),
        None => false,
    }) || (match e.notes {
        Some(nt) => is_substring(q, nt),
        None => false,
    })
}

/// Inserting anywhere in a sequence adds exactly that element to its
/// multiset.
proof fn lemma_insert_multiset<A>(s: Seq<A>, p: int, x: A)
    requires
        0 <= p <= s.len(),
    ensures
        s.insert(p, x).to_multiset() =~= s.to_multiset().insert(x),
{
    broadcast use vstd::seq_lib::group_to_multiset_ensures;

    let l = s.take(p);
    let rr = s.skip(p);
    assert(s.insert(p, x) =~= l + (seq![x] + rr));
    vstd::seq_lib::lemma_multiset_commutative(l, seq![x] + rr);
    vstd::seq_lib::lemma_multiset_commutative(seq![x], rr);
    assert(s =~= l + rr);
    vstd::seq_lib::lemma_multiset_commutative(l, rr);
    assert(seq![x] =~= Seq::<A>::empty().push(x));
    assert(Seq::<A>::empty().push(x).to_multiset() =~= Seq::<A>::empty().to_multiset().insert(x));
    assert(Seq::<A>::empty().to_multiset() =~= Multiset::<A>::empty());
    assert(seq![x].to_multiset() =~= Multiset::<A>::empty().insert(x));
}

/// The position where an entry belongs in a title-sorted sequence: the
/// first index whose title does not precede the new entry's title.
fn insert_position(out: &Vec<PasswordEntry>, e: &PasswordEntry) -> (p: usize)
    ensures
        p <= out@.len(),
        forall|j: int| 0 <= j < p ==> lex_le((#[trigger] entry_views(out@)[j]).title, e@.title),
        p < out@.len() ==> !lex_le(entry_views(out@)[p as int].title, e@.title),
{
    let n = out.len();
    let mut p: usize = 0;
    while p < n
        invariant
            p <= n,
            n == out@.len(),
            forall|j: int| 0 <= j < p ==> lex_le((#[trigger] entry_views(out@)[j]).title, e@.title),
        decreases n - p,
    {
        if !str_le(out[p].title.as_str(), e.title.as_str()) {
            assert(entry_views(out@)[p as int].title == out@[p as int]@.title);
            return p;
        }
        assert(entry_views(out@)[p as int].title == out@[p as int]@.title);
        p += 1;
    }
    p
}

/// Inserts one entry into a title-sorted vector, keeping it sorted.
fn insert_sorted(out: &mut Vec<PasswordEntry>, e: PasswordEntry)
    requires
        titles_sorted(entry_views(old(out)@)),
    ensures
        titles_sorted(entry_views(final(out)@)),
        entry_views(final(out)@).to_multiset() == entry_views(old(out)@).to_multiset().insert(e@),
{
    let ghost vs = entry_views(out@);
    let p = insert_position(out, &e);
    let ghost ev = e@;
    out.insert(p, e);
    proof {
        let after = entry_views(out@);
        assert(after =~= vs.insert(p as int, ev));
        lemma_insert_multiset(vs, p as int, ev);
        assert(forall|k: int| 0 <= k < p ==> after[k] == vs[k]);
        assert(after[p as int] == ev);
        assert(forall|k: int| p < k < after.len() ==> after[k] == vs[k - 1]);
        assert forall|i: int, j: int| 0 <= i < j < after.len() implies lex_le(
            (#[trigger] after[i]).title,
            (#[trigger] after[j]).title,
        ) by {
            if i == p as int && p < vs.len() {
                crate::strutil::lemma_lex_total(vs[p as int].title, ev.title);
                if j - 1 > p as int {
                    crate::strutil::lemma_lex_trans(ev.title, vs[p as int].title, vs[j - 1].title);
                }
            }
        }
    }
}

/// Sorts a vector of entries by title, ascending; the collection of entries
/// is unchanged.
fn sort_by_titles(v: &mut Vec<PasswordEntry>)
    ensures
        titles_sorted(entry_views(final(v)@)),
        entry_views(final(v)@).to_multiset() == entry_views(old(v)@).to_multiset(),
{
    broadcast use vstd::seq_lib::group_to_multiset_ensures;

    let mut out: Vec<PasswordEntry> = Vec::new();
    let ghost total = entry_views(old(v)@).to_multiset();
    while v.len() > 0
        invariant
            titles_sorted(entry_views(out@)),
            entry_views(out@).to_multiset().add(entry_views(v@).to_multiset()) =~= total,
        decreases v@.len(),
    {
        let ghost prev = v@;
        let e = match v.pop() {
            Some(e) => e,
            None => vstd::pervasive::unreached(),
        };
        proof {
            broadcast use vstd::seq_lib::group_to_multiset_ensures;

            assert(prev =~= v@.push(e));
            assert(entry_views(prev) =~= entry_views(v@).push(e@));
            assert(entry_views(prev).to_multiset() =~= entry_views(v@).to_multiset().insert(e@));
        }
        let ghost out_ms = entry_views(out@).to_multiset();
        insert_sorted(&mut out, e);
        proof {
            assert(entry_views(out@).to_multiset().add(entry_views(v@).to_multiset())
                =~= out_ms.insert(e@).add(entry_views(v@).to_multiset()));
            assert(out_ms.insert(e@).add(entry_views(v@).to_multiset()) =~= out_ms.add(
                entry_views(v@).to_multiset().insert(e@),
            ));
        }
    }
    proof {
        broadcast use vstd::seq_lib::group_to_multiset_ensures;

        assert(entry_views(v@) =~= Seq::<PasswordEntryView>::empty());
        assert(entry_views(v@).to_multiset().len() == 0);
        assert(entry_views(v@).to_multiset() =~= Multiset::<PasswordEntryView>::empty());
        assert(entry_views(out@).to_multiset() =~= total);
    }
    *v = out;
}

/// Whether an entry matches a query across its title, username, URL and
/// notes.
fn entry_matches(e: &PasswordEntry, q: &str) -> (r: bool)
    ensures
        r == matches_query(e@, q@),
{
    if str_contains(e.title.as_str(), q) {
        return true;
    }
    if str_contains(e.username.as_str(), q) {
        return true;
    }
    match &e.url {
        Some(u) => {
            if str_contains(u.as_str(), q) {
                return true;
            }
        },
        None => {},
    }
    match &e.notes {
        Some(nt) => {
            if str_contains(nt.as_str(), q) {
                return true;
            }
        },
        None => {},
    }
    false
}

/// What an update leaves in a row: the stored identifier and creation
/// timestamp, the argument's other public fields, a blank secret, and the
/// new ciphertext.
pub open spec fn updated_stored(
    old_s: StoredEntryView,
    e: PasswordEntryView,
    ct: Seq<u8>,
) -> StoredEntryView {
    StoredEntryView {
        entry: PasswordEntryView {
            id: old_s.entry.id,
            title: e.title,
            username: e.username,
            password: Seq::<char>::empty(),
            url: e.url,
            notes: e.notes,
            created_at: old_s.entry.created_at,
            updated_at: e.updated_at,
        },
        ciphertext: ct,
    }
}

/// Round trip by identifier: after adding an entry under a fresh
/// identifier, that identifier names exactly the added row — the same
/// public fields and the same ciphertext — which is what `get_entry_by_id`
/// returns.
pub proof fn lemma_add_then_get_by_id(
    entries: Seq<StoredEntryView>,
    e: PasswordEntryView,
    ct: Seq<u8>,
)
    requires
        unique_ids(entries),
        !has_id(entries, e.id),
    ensures
        has_id(entries.push(stored_of(e, ct)), e.id),
        unique_ids(entries.push(stored_of(e, ct))),
        forall|i: int|
            0 <= i < entries.push(stored_of(e, ct)).len() && (#[trigger] entries.push(
                stored_of(e, ct),
            )[i]).entry.id == e.id ==> entries.push(stored_of(e, ct))[i] == stored_of(e, ct),
{
    let after = entries.push(stored_of(e, ct));
    assert(after[entries.len() as int] == stored_of(e, ct));
    assert(has_id(after, e.id));
    assert forall|i: int, j: int| 0 <= i < j < after.len() implies (#[trigger] after[i]).entry.id
        != (#[trigger] after[j]).entry.id by {
        if j < entries.len() {
            assert(after[i] == entries[i] && after[j] == entries[j]);
        } else {
            assert(after[i] == entries[i]);
            assert(!has_id(entries, e.id));
        }
    }
    assert forall|i: int|
        0 <= i < after.len() && (#[trigger] after[i]).entry.id == e.id implies after[i]
        == stored_of(e, ct) by {
        if i < entries.len() {
            assert(after[i] == entries[i]);
        }
    }
}

/// Round trip by title: after adding an entry whose title was not yet
/// present, the first row in storage order with that title is the added
/// row, which is what `get_entry_by_title` returns.
pub proof fn lemma_add_then_get_by_title(
    entries: Seq<StoredEntryView>,
    e: PasswordEntryView,
    ct: Seq<u8>,
)
    requires
        !has_title(entries, e.title),
    ensures
        has_title(entries.push(stored_of(e, ct)), e.title),
        entries.push(stored_of(e, ct))[entries.len() as int] == stored_of(e, ct),
        forall|j: int|
            0 <= j < entries.len() ==> (#[trigger] entries.push(stored_of(e, ct))[j]).entry.title
                != e.title,
{
    let after = entries.push(stored_of(e, ct));
    assert(after[entries.len() as int] == stored_of(e, ct));
    assert(has_title(after, e.title));
    assert forall|j: int| 0 <= j < entries.len() implies (#[trigger] after[j]).entry.title
        != e.title by {
        assert(after[j] == entries[j]);
        assert(!has_title(entries, e.title));
    }
}

/// Removing a row preserves well-formedness of the table.
proof fn lemma_remove_preserves_wf(entries: Seq<StoredEntryView>, i: int)
    requires
        unique_ids(entries),
        secrets_blank(entries),
        0 <= i < entries.len(),
    ensures
        unique_ids(entries.remove(i)),
        secrets_blank(entries.remove(i)),
{
    let after = entries.remove(i);
    assert forall|a: int, b: int| 0 <= a < b < after.len() implies (#[trigger] after[a]).entry.id
        != (#[trigger] after[b]).entry.id by {
        let oa = if a < i {
            a
        } else {
            a + 1
        };
        let ob = if b < i {
            b
        } else {
            b + 1
        };
        assert(after[a] == entries[oa]);
        assert(after[b] == entries[ob]);
    }
    assert forall|a: int| 0 <= a < after.len() implies (#[trigger] after[a]).entry.password
        == Seq::<char>::empty() by {
        let oa = if a < i {
            a
        } else {
            a + 1
        };
        assert(after[a] == entries[oa]);
    }
}

/// Every element a filter keeps stands somewhere in the source sequence.
proof fn lemma_filter_elements<A>(s: Seq<A>, pred: spec_fn(A) -> bool)
    ensures
        forall|i: int|
            0 <= i < s.filter(pred).len() ==> exists|o: int|
                0 <= o < s.len() && s[o] == #[trigger] s.filter(pred)[i],
    decreases s.len(),
{
    reveal(Seq::filter);
    if s.len() > 0 {
        let d = s.drop_last();
        lemma_filter_elements(d, pred);
        let f = s.filter(pred);
        let fd = d.filter(pred);
        assert forall|i: int| 0 <= i < f.len() implies exists|o: int|
            0 <= o < s.len() && s[o] == #[trigger] f[i] by {
            if pred(s.last()) && i == f.len() - 1 {
                assert(s[s.len() - 1] == f[i]);
            } else {
                assert(f[i] == fd[i]);
                let o = choose|o: int| 0 <= o < d.len() && d[o] == fd[i];
                assert(s[o] == f[i]);
            }
        }
    }
}

/// Filtering rows preserves well-formedness of the table.
proof fn lemma_filter_keeps_wf(entries: Seq<StoredEntryView>, pred: spec_fn(StoredEntryView) -> bool)
    requires
        unique_ids(entries),
        secrets_blank(entries),
    ensures
        unique_ids(entries.filter(pred)),
        secrets_blank(entries.filter(pred)),
    decreases entries.len(),
{
    reveal(Seq::filter);
    if entries.len() > 0 {
        let d = entries.drop_last();
        assert(forall|i: int| 0 <= i < d.len() ==> d[i] == entries[i]);
        lemma_filter_keeps_wf(d, pred);
        lemma_filter_elements(d, pred);
        let f = entries.filter(pred);
        let fd = d.filter(pred);
        if pred(entries.last()) {
            assert(f == fd.push(entries.last()));
            assert forall|a: int, b: int| 0 <= a < b < f.len() implies (
            #[trigger] f[a]).entry.id != (#[trigger] f[b]).entry.id by {
                if b < f.len() - 1 {
                    assert(f[a] == fd[a] && f[b] == fd[b]);
                } else {
                    assert(f[a] == fd[a]);
                    let o = choose|o: int| 0 <= o < d.len() && d[o] == fd[a];
                    assert(entries[o] == f[a]);
                    assert(entries[o].entry.id != entries[entries.len() - 1].entry.id);
                }
            }
            assert forall|a: int| 0 <= a < f.len() implies (#[trigger] f[a]).entry.password
                == Seq::<char>::empty() by {
                if a < f.len() - 1 {
                    assert(f[a] == fd[a]);
                    let o = choose|o: int| 0 <= o < d.len() && d[o] == fd[a];
                    assert(entries[o] == f[a]);
                } else {
                    assert(f[a] == entries.last());
                }
            }
        } else {
            assert(f == fd);
            assert forall|a: int| 0 <= a < f.len() implies (#[trigger] f[a]).entry.password
                == Seq::<char>::empty() by {
                let o = choose|o: int| 0 <= o < d.len() && d[o] == fd[a];
                assert(entries[o] == f[a]);
            }
        }
    }
}

} // verus!
