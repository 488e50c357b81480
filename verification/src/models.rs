//! The vault data model: credential entries and vault-level metadata.
//!
//! Pure value types with no I/O of their own. Fresh identifiers and
//! timestamps come from the wrappers in `stamps`.

use vstd::prelude::*;
use vstd::utf8::encode_utf8;

use zeroize::Zeroize;

use crate::stamps::now_rfc3339;
use crate::stamps::new_uuid_text;
use crate::stamps::rfc3339_ok;
use crate::stamps::uuid_ok;

verus! {

/// The character sequences of an optional string.
pub open spec fn opt_view(o: Option<String>) -> Option<Seq<char>> {
    match o {
        Some(s) => Some(s@),
        None => None,
    }
}

/// Relies on `zeroize::Zeroize` for `String`: overwrites the string's
/// contents with zeros and leaves it empty.
#[verifier::external_body]
pub(crate) fn zeroize_string(s: &mut String)
    ensures
        final(s)@.len() == 0,
{
    s.zeroize();
}

/// Relies on `zeroize::Zeroize` for `Vec<u8>`: overwrites the buffer
/// (through its full capacity) with zeros and leaves it empty.
#[verifier::external_body]
pub(crate) fn zeroize_bytes(v: &mut Vec<u8>)
    ensures
        final(v)@.len() == 0,
{
    v.zeroize();
}

/// An owned secret string with an explicit erasure routine: call `erase`
/// when the secret is no longer needed and its memory must be overwritten.
#[derive(Debug, Clone, Default)]
pub struct SecureString(String);

impl View for SecureString {
    type V = Seq<char>;

    closed spec fn view(&self) -> Seq<char> {
        self.0@
    }
}

impl SecureString {
    /// Wraps an owned string.
    pub fn new(value: String) -> (r: Self)
        ensures
            r@ == value@,
    {
        SecureString(value)
    }

    /// Borrows the secret.
    pub fn as_str(&self) -> (r: &str)
        ensures
            r@ == self@,
    {
        self.0.as_str()
    }

    /// Surrenders the secret as a plain string.
    pub fn into_string(self) -> (r: String)
        ensures
            r@ == self@,
    {
        self.0
    }

    /// Length of the secret in bytes of its UTF-8 encoding.
    pub fn len(&self) -> (r: usize)
        ensures
            r == encode_utf8(self@).len(),
    {
        self.0.as_str().as_bytes().len()
    }

    /// Whether the secret is empty.
    pub fn is_empty(&self) -> (r: bool)
        ensures
            r == (self@.len() == 0),
    {
        self.0.as_str().is_empty()
    }

    /// Overwrites the secret with zeros, leaving it empty.
    pub fn erase(&mut self)
        ensures
            final(self)@.len() == 0,
    {
        zeroize_string(&mut self.0);
    }
}

/// The character-level value of a credential entry.
pub ghost struct PasswordEntryView {
    pub id: Seq<char>,
    pub title: Seq<char>,
    pub username: Seq<char>,
    pub password: Seq<char>,
    pub url: Option<Seq<char>>,
    pub notes: Option<Seq<char>>,
    pub created_at: Seq<char>,
    pub updated_at: Seq<char>,
}

/// One stored credential record. The `password` field holds the secret only
/// transiently in memory; the persistent store sees nothing but ciphertext.
#[derive(Debug, Clone)]
pub struct PasswordEntry {
    /// Unique identifier: canonical UUID text, generated at creation and
    /// never reused.
    pub id: String,
    /// Human-facing title, the secondary lookup key; never empty.
    pub title: String,
    /// Username or e-mail.
    pub username: String,
    /// The secret, kept only transiently.
    pub password: SecureString,
    /// Website URL, if any.
    pub url: Option<String>,
    /// Free-form notes, if any.
    pub notes: Option<String>,
    /// Creation timestamp, RFC 3339 UTC.
    pub created_at: String,
    /// Last-update timestamp, RFC 3339 UTC.
    pub updated_at: String,
}

impl View for PasswordEntry {
    type V = PasswordEntryView;

    open spec fn view(&self) -> PasswordEntryView {
        PasswordEntryView {
            id: self.id@,
            title: self.title@,
            username: self.username@,
            password: self.password@,
            url: opt_view(self.url),
            notes: opt_view(self.notes),
            created_at: self.created_at@,
            updated_at: self.updated_at@,
        }
    }
}

impl PasswordEntry {
    /// Creates a new entry with a fresh identifier and both timestamps
    /// stamped to the current time.
    pub fn new(
        title: String,
        username: String,
        password: SecureString,
        url: Option<String>,
        notes: Option<String>,
    ) -> (r: Self)
        requires
            title@.len() > 0,
        ensures
            r@.title == title@,
            r@.username == username@,
            r@.password == password@,
            r@.url == opt_view(url),
            r@.notes == opt_view(notes),
            r@.id.len() == 36,
            uuid_ok(r@.id),
            r@.created_at == r@.updated_at,
            rfc3339_ok(r@.created_at),
    {
        let now = now_rfc3339();
        let now2 = now.clone();
        PasswordEntry {
            id: new_uuid_text(),
            title,
            username,
            password,
            url,
            notes,
            created_at: now,
            updated_at: now2,
        }
    }

    /// Updates only the last-update timestamp.
    pub fn touch(&mut self)
        ensures
            final(self)@.id == old(self)@.id,
            final(self)@.title == old(self)@.title,
            final(self)@.username == old(self)@.username,
            final(self)@.password == old(self)@.password,
            final(self)@.url == old(self)@.url,
            final(self)@.notes == old(self)@.notes,
            final(self)@.created_at == old(self)@.created_at,
            rfc3339_ok(final(self)@.updated_at),
    {
        self.updated_at = now_rfc3339();
    }
}

/// The character-level value of the vault metadata row.
pub ghost struct VaultMetadataView {
    pub created_at: Seq<char>,
    pub last_access: Seq<char>,
    pub schema_version: u32,
    pub salt: Seq<u8>,
    pub password_hash: Seq<u8>,
}

/// Vault-level metadata: exactly one instance per vault. Salt and
/// password-verification hash are fixed at vault creation.
#[derive(Debug, Clone)]
pub struct VaultMetadata {
    /// Vault creation timestamp, RFC 3339 UTC.
    pub created_at: String,
    /// Last successful unlock, RFC 3339 UTC.
    pub last_access: String,
    /// Schema version of the persistent store.
    pub schema_version: u32,
    /// Salt for key derivation, generated once at vault creation.
    pub salt: Vec<u8>,
    /// Password-verification hash (a PHC string, stored as its UTF-8 bytes).
    pub password_hash: Vec<u8>,
}

impl View for VaultMetadata {
    type V = VaultMetadataView;

    open spec fn view(&self) -> VaultMetadataView {
        VaultMetadataView {
            created_at: self.created_at@,
            last_access: self.last_access@,
            schema_version: self.schema_version,
            salt: self.salt@,
            password_hash: self.password_hash@,
        }
    }
}

impl VaultMetadata {
    /// Creates fresh metadata with both timestamps stamped to the current
    /// time and the schema version fixed at the first declared version.
    pub fn new(salt: Vec<u8>, password_hash: Vec<u8>) -> (r: Self)
        ensures
            r@.salt == salt@,
            r@.password_hash == password_hash@,
            r@.schema_version == 1,
            r@.created_at == r@.last_access,
            rfc3339_ok(r@.created_at),
    {
        let now = now_rfc3339();
        let now2 = now.clone();
        VaultMetadata {
            created_at: now,
            last_access: now2,
            schema_version: 1,
            salt,
            password_hash,
        }
    }

    /// Updates only the last-access timestamp.
    pub fn update_access(&mut self)
        ensures
            final(self)@.created_at == old(self)@.created_at,
            final(self)@.schema_version == old(self)@.schema_version,
            final(self)@.salt == old(self)@.salt,
            final(self)@.password_hash == old(self)@.password_hash,
            rfc3339_ok(final(self)@.last_access),
    {
        self.last_access = now_rfc3339();
    }
}

/// One row of the migration ledger: a schema version applied to the store.
#[derive(Debug, Clone)]
pub struct SchemaVersion {
    /// The version number, unique and monotonic.
    pub version: u32,
    /// When the migration was applied, RFC 3339 UTC.
    pub applied_at: String,
}

} // verus!
