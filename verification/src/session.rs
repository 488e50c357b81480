//! The vault session: the one holder of the derived working key.
//!
//! A session starts Locked. `unlock` verifies the master password against
//! the stored hash and derives the working key from the stored salt; while
//! Unlocked, every write seals the secret before it reaches the repository
//! and every read unseals after fetching. The key lives only in memory and
//! is overwritten with zeros when the session locks.

use vstd::prelude::*;
use vstd::string::StringExecFns;
use vstd::utf8::encode_utf8;
use vstd::utf8::valid_utf8;

use crate::encryption::unseal_of;
use crate::encryption::EncryptionManager;
use crate::error::Error;
use crate::models::opt_view;
use crate::models::zeroize_bytes;
use crate::models::PasswordEntry;
use crate::models::SecureString;
use crate::password::derived_key_of;
use crate::password::verify_of;
use crate::password::PasswordManager;
use crate::repository::has_id;
use crate::repository::has_title;
use crate::repository::stored_of;
use crate::repository::PasswordRepository;
use crate::repository::RepositoryView;
use crate::repository::StoredEntryView;

verus! {

/// The first row in storage order carrying this title unseals under the
/// key to bytes that decode as text — the condition under which reading
/// an entry through an unlocked session is owed to succeed.
pub open spec fn first_title_row_opens(
    entries: Seq<StoredEntryView>,
    title: Seq<char>,
    key: Seq<u8>,
) -> bool {
    exists|i: int|
        0 <= i < entries.len() && (#[trigger] entries[i]).entry.title == title && (forall|j: int|
            0 <= j < i ==> entries[j].entry.title != title) && (unseal_of(
            key,
            entries[i].ciphertext,
        ) matches Some(b) && valid_utf8(b))
}

/// Relies on `String::from_utf8`: succeeds exactly when the bytes are valid
/// UTF-8, and then yields the string whose encoding they are.
#[verifier::external_body]
fn bytes_to_string(v: Vec<u8>) -> (r: Result<String, ()>)
    ensures
        r matches Ok(s) ==> encode_utf8(s@) == v@,
        r is Err <==> !valid_utf8(v@),
{
    String::from_utf8(v).map_err(|_| ())
}

/// First title matches are unique: when the opening row promised by
/// `first_title_row_opens` exists, it stands at any index that is itself a
/// first match for the title.
proof fn lemma_first_title_row_is(
    entries: Seq<StoredEntryView>,
    title: Seq<char>,
    key: Seq<u8>,
    j: int,
)
    requires
        first_title_row_opens(entries, title, key),
        0 <= j < entries.len(),
        entries[j].entry.title == title,
        forall|t: int| 0 <= t < j ==> entries[t].entry.title != title,
    ensures
        unseal_of(key, entries[j].ciphertext) is Some,
        valid_utf8(unseal_of(key, entries[j].ciphertext)->Some_0),
{
    let i = choose|i: int|
        0 <= i < entries.len() && (#[trigger] entries[i]).entry.title == title && (forall|t: int|
            0 <= t < i ==> entries[t].entry.title != title) && (unseal_of(
            key,
            entries[i].ciphertext,
        ) matches Some(b) && valid_utf8(b));
    if i < j {
        assert(entries[i].entry.title != title);
    } else if j < i {
        assert(entries[j].entry.title != title);
    }
    assert(i == j);
}

/// The value of a session: the repository's value and the working key, if
/// the session is unlocked.
pub ghost struct SessionView {
    pub repo: RepositoryView,
    pub key: Option<Seq<u8>>,
}

/// One vault session. Owns the repository handle and, while unlocked, the
/// derived working key; the master password itself is never retained.
pub struct VaultSession {
    repo: PasswordRepository,
    manager: EncryptionManager,
    passwords: PasswordManager,
    key: Option<Vec<u8>>,
}

impl View for VaultSession {
    type V = SessionView;

    closed spec fn view(&self) -> SessionView {
        SessionView {
            repo: self.repo@,
            key: match self.key {
                Some(k) => Some(k@),
                None => None,
            },
        }
    }
}

impl VaultSession {
    /// Well-formedness: valid whenever the session came from `new` and was
    /// only changed through its own methods.
    pub open spec fn wf(&self) -> bool {
        crate::repository::repo_wf(self@.repo) && (self@.key matches Some(k) ==> k.len() == 32)
    }

    /// Starts a locked session over an open repository.
    pub fn new(repo: PasswordRepository) -> (r: Self)
        requires
            repo.wf(),
        ensures
            r.wf(),
            r@.repo == repo@,
            r@.key is None,
    {
        VaultSession {
            repo,
            manager: EncryptionManager::new(),
            passwords: PasswordManager::new(),
            key: None,
        }
    }

    /// Whether the session holds a working key.
    pub fn is_unlocked(&self) -> (r: bool)
        ensures
            r == (self@.key is Some),
    {
        self.key.is_some()
    }

    /// Locks the session: the working key is overwritten with zeros and
    /// dropped. The repository is untouched.
    pub fn lock(&mut self)
        requires
            old(self).wf(),
        ensures
            final(self).wf(),
            final(self)@.key is None,
            final(self)@.repo == old(self)@.repo,
    {
        match &mut self.key {
            Some(k) => {
                zeroize_bytes(k);
            },
            None => {},
        }
        self.key = None;
    }

    /// Sets up a fresh vault for this master password: hashes it over a
    /// fresh salt for verification, draws a separate random 32-byte vault
    /// salt for key derivation, and stores both. Fails with
    /// `VaultAlreadyExists` if the vault is already initialized. The session
    /// stays locked.
    pub fn initialize(&mut self, master_password: &str) -> (r: Result<(), Error>)
        requires
            old(self).wf(),
        ensures
            final(self).wf(),
            final(self)@.key == old(self)@.key,
            old(self)@.repo.meta is Some ==> (r matches Err(e) && e is VaultAlreadyExists
                && final(self)@ == old(self)@),
            r is Err ==> final(self)@ == old(self)@,
            r matches Err(e) ==> e is VaultAlreadyExists || e is Crypto || e is Database,
            r matches Err(e) ==> (e is VaultAlreadyExists <==> old(self)@.repo.meta is Some),
            r is Ok ==> old(self)@.repo.meta is None && final(self)@.repo.entries
                == old(self)@.repo.entries && (final(self)@.repo.meta matches Some(m) && m.salt.len() == 32
                && m.schema_version == 1 && exists|enc: Seq<char>|
                verify_of(master_password@, enc) == Some(true) && m.password_hash == encode_utf8(
                    enc,
                )),
    {
        if self.is_initialized_inner() {
            return Err(Error::VaultAlreadyExists);
        }
        let hashed = match self.passwords.hash_password(master_password) {
            Ok(p) => p,
            Err(e) => return Err(e),
        };
        let (encoded, _hash_salt) = hashed;
        let vault_salt = match self.passwords.generate_salt() {
            Ok(s) => s,
            Err(e) => return Err(e),
        };
        let hash_bytes = encoded.as_str().as_bytes_vec();
        match self.repo.initialize_vault(vault_salt, hash_bytes) {
            Ok(()) => Ok(()),
            Err(e) => Err(e),
        }
    }

    /// Whether the vault metadata row exists.
    fn is_initialized_inner(&self) -> (r: bool)
        ensures
            r == (self@.repo.meta is Some),
    {
        match self.repo.is_initialized() {
            Ok(b) => b,
            Err(_) => vstd::pervasive::unreached(),
        }
    }

    /// Unlocks the session: verifies the master password against the stored
    /// hash, derives the working key from the stored salt, and stamps the
    /// last-access time. A wrong password fails with `AuthenticationFailed`;
    /// on every failure the session ends up locked with no key held.
    pub fn unlock(&mut self, master_password: &str) -> (r: Result<(), Error>)
        requires
            old(self).wf(),
        ensures
            final(self).wf(),
            old(self)@.repo.meta is None ==> (r matches Err(e) && e is VaultNotInitialized),
            r is Err ==> final(self)@.key is None,
            r is Err ==> final(self)@.repo.entries == old(self)@.repo.entries,
            r matches Err(e) ==> e is VaultNotInitialized || e is Authentication || e is Crypto
                || e is Database,
            r is Ok ==> (old(self)@.repo.meta matches Some(m) && (exists|enc: Seq<char>|
                encode_utf8(enc) == m.password_hash && verify_of(master_password@, enc) == Some(
                    true,
                )) && final(self)@.key == Some(derived_key_of(master_password@, m.salt))
                && final(self)@.repo.entries == old(self)@.repo.entries),
            r matches Err(e) ==> ((e is Authentication) ==> (old(self)@.repo.meta matches Some(m)
                && exists|enc: Seq<char>|
                encode_utf8(enc) == m.password_hash && verify_of(master_password@, enc) == Some(
                    false,
                ))),
            r matches Err(e) ==> (e is VaultNotInitialized <==> old(self)@.repo.meta is None),
            (old(self)@.repo.meta matches Some(m) && valid_utf8(m.password_hash) && (forall|
                enc: Seq<char>,
            |
                #[trigger] encode_utf8(enc) == m.password_hash ==> verify_of(
                    master_password@,
                    enc,
                ) == Some(false))) ==> (r matches Err(e) && e is Authentication),
    {
        self.lock();
        let meta = match self.repo.get_vault_metadata() {
            Ok(m) => m,
            Err(e) => return Err(e),
        };
        let hash_text = match bytes_to_string(meta.password_hash) {
            Ok(s) => s,
            Err(_) => {
                return Err(
                    Error::Crypto(String::from_str("stored password hash is not valid text")),
                );
            },
        };
        let verified = match self.passwords.verify_password(master_password, hash_text.as_str()) {
            Ok(b) => b,
            Err(e) => return Err(e),
        };
        if !verified {
            return Err(Error::Authentication(String::from_str("wrong master password")));
        }
        let key = match self.passwords.derive_key(master_password, meta.salt.as_slice()) {
            Ok(k) => k,
            Err(e) => return Err(e),
        };
        if let Err(e) = self.repo.update_last_access() {
            return Err(e);
        }
        self.key = Some(key);
        Ok(())
    }

    /// Creates and stores a new entry while unlocked: the secret is sealed
    /// under the working key before it reaches the repository, which never
    /// sees the plaintext. Returns the stored entry's public fields. While
    /// locked, fails with `AuthenticationFailed`.
    pub fn add_entry(
        &mut self,
        title: String,
        username: String,
        password: SecureString,
        url: Option<String>,
        notes: Option<String>,
    ) -> (r: Result<PasswordEntry, Error>)
        requires
            old(self).wf(),
            title@.len() > 0,
        ensures
            final(self).wf(),
            final(self)@.key == old(self)@.key,
            old(self)@.key is None ==> (r matches Err(e) && e is Authentication && final(self)@
                == old(self)@),
            r is Err ==> final(self)@ == old(self)@,
            r matches Ok(e) ==> (old(self)@.key matches Some(k) && e@.title == title@
                && e@.username == username@ && e@.url == opt_view(url) && e@.notes == opt_view(
                notes,
            ) && !has_id(old(self)@.repo.entries, e@.id) && (exists|ct: Seq<u8>|
                final(self)@.repo.entries == old(self)@.repo.entries.push(stored_of(e@, ct))
                    && unseal_of(k, ct) == Some(encode_utf8(password@)))),
    {
        let key = match &self.key {
            Some(k) => k,
            None => {
                return Err(Error::Authentication(String::from_str("session is locked")));
            },
        };
        let sealed = match self.manager.encrypt(key.as_slice(), password.as_str().as_bytes()) {
            Ok(c) => c,
            Err(e) => return Err(e),
        };
        let entry = PasswordEntry::new(title, username, password, url, notes);
        match self.repo.add_entry(&entry, sealed.as_slice()) {
            Ok(()) => Ok(entry),
            Err(e) => Err(e),
        }
    }

    /// Fetches the first entry with this title and unseals its secret under
    /// the working key. While locked, fails with `AuthenticationFailed`; a
    /// missing title fails with `EntryNotFound`; a payload that does not
    /// authenticate under the working key fails with a `Crypto` error.
    pub fn get_entry(&self, title: &str) -> (r: Result<(PasswordEntry, SecureString), Error>)
        requires
            self.wf(),
        ensures
            self@.key is None ==> (r matches Err(e) && e is Authentication),
            r matches Ok(p) ==> (self@.key matches Some(k) && exists|i: int|
                0 <= i < self@.repo.entries.len() && (#[trigger] self@.repo.entries[i]).entry.title
                    == title@ && p.0@ == self@.repo.entries[i].entry && unseal_of(
                    k,
                    self@.repo.entries[i].ciphertext,
                ) == Some(encode_utf8(p.1@))),
            (self@.key is Some && !has_title(self@.repo.entries, title@)) ==> (r matches Err(e)
                && e is EntryNotFound),
            self@.key matches Some(k) ==> (first_title_row_opens(self@.repo.entries, title@, k)
                ==> r is Ok),
            r matches Err(e) ==> e is Authentication || e is EntryNotFound || e is Crypto,
    {
        let ghost entries = self@.repo.entries;
        let key = match &self.key {
            Some(k) => k,
            None => {
                return Err(Error::Authentication(String::from_str("session is locked")));
            },
        };
        let ghost k0 = key@;
        let found = match self.repo.get_entry_by_title(title) {
            Ok(p) => p,
            Err(e) => {
                proof {
                    if first_title_row_opens(entries, title@, k0) {
                        let i = choose|i: int|
                            0 <= i < entries.len() && (#[trigger] entries[i]).entry.title == title@
                                && (forall|j: int| 0 <= j < i ==> entries[j].entry.title != title@)
                                && (unseal_of(k0, entries[i].ciphertext) matches Some(b)
                                && valid_utf8(b));
                        assert(has_title(entries, title@));
                    }
                }
                return Err(e);
            },
        };
        let (entry, ciphertext) = found;
        let ghost j = choose|j: int|
            0 <= j < entries.len() && (#[trigger] entries[j]).entry.title == title@ && (forall|
                t: int,
            |
                0 <= t < j ==> entries[t].entry.title != title@) && entry@ == entries[j].entry
                && ciphertext@ == entries[j].ciphertext;
        let plain = match self.manager.decrypt(key.as_slice(), ciphertext.as_slice()) {
            Ok(p) => p,
            Err(e) => {
                proof {
                    if first_title_row_opens(entries, title@, k0) {
                        lemma_first_title_row_is(entries, title@, k0, j);
                    }
                }
                return Err(e);
            },
        };
        let secret = match bytes_to_string(plain) {
            Ok(s) => s,
            Err(_) => {
                proof {
                    if first_title_row_opens(entries, title@, k0) {
                        lemma_first_title_row_is(entries, title@, k0, j);
                    }
                }
                return Err(Error::Crypto(String::from_str("stored secret is not valid text")));
            },
        };
        Ok((entry, SecureString::new(secret)))
    }

    /// Returns every entry, ordered by title ascending, with ciphertext and
    /// secret omitted. Listing exposes no cryptographic material, so it is
    /// allowed while locked.
    pub fn list_entries(&self) -> (r: Result<Vec<PasswordEntry>, Error>)
        requires
            self.wf(),
        ensures
            r is Ok,
            r matches Ok(v) ==> crate::repository::titles_sorted(
                crate::repository::entry_views(v@),
            ) && crate::repository::entry_views(v@).to_multiset() == crate::repository::listed(
                self@.repo.entries,
            ).to_multiset(),
    {
        self.repo.list_entries()
    }

    /// Returns every entry matching the query, ordered by title ascending,
    /// with ciphertext and secret omitted.
    pub fn search_entries(&self, query: &str) -> (r: Result<Vec<PasswordEntry>, Error>)
        requires
            self.wf(),
        ensures
            r is Ok,
            r matches Ok(v) ==> crate::repository::titles_sorted(
                crate::repository::entry_views(v@),
            ) && crate::repository::entry_views(v@).to_multiset() == crate::repository::listed(
                self@.repo.entries,
            ).filter(
                |e: crate::models::PasswordEntryView| crate::repository::matches_query(e, query@),
            ).to_multiset(),
    {
        self.repo.search_entries(query)
    }

    /// Deletes every entry carrying the given title; fails with
    /// `EntryNotFound` when no row matches.
    pub fn delete_entry(&mut self, title: &str) -> (r: Result<(), Error>)
        requires
            old(self).wf(),
        ensures
            final(self).wf(),
            final(self)@.key == old(self)@.key,
            !has_title(old(self)@.repo.entries, title@) ==> (r matches Err(e)
                && e is EntryNotFound && final(self)@ == old(self)@),
            r is Ok ==> has_title(old(self)@.repo.entries, title@) && final(self)@.repo.entries
                =~= old(self)@.repo.entries.filter(
                |s: crate::repository::StoredEntryView| s.entry.title != title@,
            ) && final(self)@.repo.meta == old(self)@.repo.meta,
            r is Err ==> final(self)@ == old(self)@,
            r matches Err(e) ==> e is EntryNotFound || e is Database,
            r matches Err(e) ==> (e is EntryNotFound <==> !has_title(
                old(self)@.repo.entries,
                title@,
            )),
    {
        self.repo.delete_entry_by_title(title)
    }

    /// Replaces the username, secret, URL and notes of the first entry with
    /// this title, sealing the new secret under the working key; identifier,
    /// title and creation timestamp keep their stored values. While locked,
    /// fails with `AuthenticationFailed`; a missing title fails with
    /// `EntryNotFound`.
    pub fn update_entry(
        &mut self,
        title: &str,
        username: String,
        password: SecureString,
        url: Option<String>,
        notes: Option<String>,
    ) -> (r: Result<PasswordEntry, Error>)
        requires
            old(self).wf(),
        ensures
            final(self).wf(),
            final(self)@.key == old(self)@.key,
            old(self)@.key is None ==> (r matches Err(e) && e is Authentication && final(self)@
                == old(self)@),
            (old(self)@.key is Some && !has_title(old(self)@.repo.entries, title@)) ==> (
            r matches Err(e) && e is EntryNotFound && final(self)@ == old(self)@),
            r matches Err(e) ==> (e is EntryNotFound ==> !has_title(
                old(self)@.repo.entries,
                title@,
            )),
            r is Err ==> final(self)@ == old(self)@,
            r matches Ok(e) ==> (old(self)@.key matches Some(k) && e@.username == username@
                && e@.url == opt_view(url) && e@.notes == opt_view(notes) && exists|i: int|
                0 <= i < old(self)@.repo.entries.len() && (#[trigger] old(self)@.repo.entries[i]).entry.id
                    == e@.id && old(self)@.repo.entries[i].entry.title == title@ && (exists|
                    ct: Seq<u8>,
                |
                    final(self)@.repo.entries =~= old(self)@.repo.entries.update(
                        i,
                        crate::repository::updated_stored(old(self)@.repo.entries[i], e@, ct),
                    ) && unseal_of(k, ct) == Some(encode_utf8(password@)))),
    {
        let key = match &self.key {
            Some(k) => k,
            None => {
                return Err(Error::Authentication(String::from_str("session is locked")));
            },
        };
        let found = match self.repo.get_entry_by_title(title) {
            Ok(p) => p,
            Err(e) => return Err(e),
        };
        let (entry0, _stored_ct) = found;
        let mut entry = entry0;
        entry.username = username;
        entry.url = url;
        entry.notes = notes;
        entry.touch();
        let sealed = match self.manager.encrypt(key.as_slice(), password.as_str().as_bytes()) {
            Ok(c) => c,
            Err(e) => return Err(e),
        };
        let ghost ct = sealed@;
        let ghost before = self@.repo.entries;
        match self.repo.update_entry(&entry, sealed.as_slice()) {
            Ok(()) => {
                proof {
                    let j = choose|j: int|
                        0 <= j < before.len() && (#[trigger] before[j]).entry.title == title@ && (
                        forall|t: int| 0 <= t < j ==> before[t].entry.title != title@)
                            && entry@.id == before[j].entry.id;
                    let i = choose|i: int|
                        0 <= i < before.len() && (#[trigger] before[i]).entry.id == entry@.id
                            && final(self)@.repo.entries =~= before.update(
                            i,
                            crate::repository::updated_stored(before[i], entry@, ct),
                        );
                    assert(crate::repository::unique_ids(before));
                    if i != j {
                        assert(before[i].entry.id != before[j].entry.id);
                    }
                    assert(before[i].entry.title == title@);
                }
                Ok(entry)
            },
            Err(e) => Err(e),
        }
    }

    /// Changes the master password: verifies the old password, unseals every
    /// stored secret under the old key, hashes the new password over a fresh
    /// salt, re-seals every secret under the new key, and commits metadata
    /// and all entries atomically — a failure leaves the vault in its
    /// pre-change state. On success the session holds the new working key.
    pub fn change_master_password(&mut self, old_password: &str, new_password: &str) -> (r: Result<
        (),
        Error,
    >)
        requires
            old(self).wf(),
        ensures
            final(self).wf(),
            old(self)@.repo.meta is None ==> (r matches Err(e) && e is VaultNotInitialized),
            r is Err ==> final(self)@.repo == old(self)@.repo,
            r is Err ==> final(self)@.key == old(self)@.key,
            r matches Err(e) ==> e is VaultNotInitialized || e is Crypto || e is Authentication
                || e is Database,
            r matches Err(e) ==> (e is VaultNotInitialized <==> old(self)@.repo.meta is None),
            r is Ok ==> (old(self)@.repo.meta matches Some(m) && (exists|enc: Seq<char>|
                encode_utf8(enc) == m.password_hash && verify_of(old_password@, enc) == Some(true))
                && (final(self)@.repo.meta matches Some(m2) && m2.salt.len() == 32
                && m2.created_at == m.created_at && m2.schema_version == m.schema_version && (
                exists|enc2: Seq<char>|
                    verify_of(new_password@, enc2) == Some(true) && m2.password_hash == encode_utf8(
                        enc2,
                    )) && final(self)@.key == Some(derived_key_of(new_password@, m2.salt))
                && final(self)@.repo.entries.len() == old(self)@.repo.entries.len() && (forall|
                    i: int,
                |
                    0 <= i < old(self)@.repo.entries.len() ==> (#[trigger] final(self)@.repo.entries[i]).entry
                        == old(self)@.repo.entries[i].entry && unseal_of(
                        derived_key_of(new_password@, m2.salt),
                        final(self)@.repo.entries[i].ciphertext,
                    ) == unseal_of(
                        derived_key_of(old_password@, m.salt),
                        old(self)@.repo.entries[i].ciphertext,
                    )))),
    {
        let meta = match self.repo.get_vault_metadata() {
            Ok(m) => m,
            Err(e) => return Err(e),
        };
        let hash_text = match bytes_to_string(meta.password_hash) {
            Ok(s) => s,
            Err(_) => {
                return Err(
                    Error::Crypto(String::from_str("stored password hash is not valid text")),
                );
            },
        };
        let verified = match self.passwords.verify_password(old_password, hash_text.as_str()) {
            Ok(b) => b,
            Err(e) => return Err(e),
        };
        if !verified {
            return Err(Error::Authentication(String::from_str("wrong master password")));
        }
        let old_key = match self.passwords.derive_key(old_password, meta.salt.as_slice()) {
            Ok(k) => k,
            Err(e) => return Err(e),
        };
        let ghost old_k = old_key@;
        let ghost old_entries = self@.repo.entries;
        let ciphertexts = self.repo.entry_ciphertexts();
        let n = ciphertexts.len();
        let mut plains: Vec<Vec<u8>> = Vec::new();
        let mut i: usize = 0;
        while i < n
            invariant
                i <= n,
                *self == *old(self),
                old(self).wf(),
                old(self)@.repo.meta is Some,
                old_k == derived_key_of(old_password@, old(self)@.repo.meta->Some_0.salt),
                old_key@ == old_k,
                old_entries == old(self)@.repo.entries,
                n == ciphertexts@.len(),
                n == old_entries.len(),
                forall|k: int|
                    0 <= k < n ==> (#[trigger] ciphertexts@[k])@ == old_entries[k].ciphertext,
                plains@.len() == i,
                forall|k: int|
                    0 <= k < i ==> unseal_of(old_k, old_entries[k].ciphertext) == Some(
                        (#[trigger] plains@[k])@,
                    ),
            decreases n - i,
        {
            let p = match self.manager.decrypt(old_key.as_slice(), ciphertexts[i].as_slice()) {
                Ok(p) => p,
                Err(e) => return Err(e),
            };
            plains.push(p);
            i += 1;
        }
        let hashed = match self.passwords.hash_password(new_password) {
            Ok(p) => p,
            Err(e) => return Err(e),
        };
        let (encoded2, _hash_salt) = hashed;
        let new_salt = match self.passwords.generate_salt() {
            Ok(s) => s,
            Err(e) => return Err(e),
        };
        let new_key = match self.passwords.derive_key(new_password, new_salt.as_slice()) {
            Ok(k) => k,
            Err(e) => return Err(e),
        };
        let ghost new_k = new_key@;
        let mut new_cts: Vec<Vec<u8>> = Vec::new();
        let mut j: usize = 0;
        while j < n
            invariant
                j <= n,
                *self == *old(self),
                old(self).wf(),
                old(self)@.repo.meta is Some,
                old_k == derived_key_of(old_password@, old(self)@.repo.meta->Some_0.salt),
                old_entries == old(self)@.repo.entries,
                n == old_entries.len(),
                new_k == new_key@,
                new_key@.len() == 32,
                plains@.len() == n,
                forall|k: int|
                    0 <= k < n ==> unseal_of(old_k, old_entries[k].ciphertext) == Some(
                        (#[trigger] plains@[k])@,
                    ),
                new_cts@.len() == j,
                forall|k: int|
                    0 <= k < j ==> unseal_of(new_k, (#[trigger] new_cts@[k])@) == Some(
                        plains@[k]@,
                    ),
            decreases n - j,
        {
            let c = match self.manager.encrypt(new_key.as_slice(), plains[j].as_slice()) {
                Ok(c) => c,
                Err(e) => return Err(e),
            };
            new_cts.push(c);
            j += 1;
        }
        let hash_bytes = encoded2.as_str().as_bytes_vec();
        if let Err(e) = self.repo.rekey(new_salt, hash_bytes, &new_cts) {
            return Err(e);
        }
        self.lock();
        self.key = Some(new_key);
        Ok(())
    }
}

} // verus!
