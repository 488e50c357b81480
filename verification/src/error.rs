use vstd::prelude::*;

verus! {

/// Error taxonomy of the vault engine.
///
/// Every failure of the underlying cryptographic and storage libraries is
/// mapped to exactly one of these kinds at the engine boundary; none is
/// silently swallowed or retried.
#[derive(Debug, Clone)]
pub enum Error {
    /// Underlying storage failure: I/O of the embedded relational store or a
    /// constraint violation.
    Database(String),
    /// Cryptographic failure: bad key length, malformed ciphertext, failed
    /// authentication of a sealed payload, or a malformed password-hash
    /// encoding.
    Crypto(String),
    /// An input that the engine rejects before doing any work.
    InvalidInput(String),
    /// Wrong master password.
    Authentication(String),
    /// No stored entry matched the given identifier or title.
    EntryNotFound(String),
    /// A schema transformation failed; fatal, the vault cannot open.
    Migration(String),
    /// The password generation settings admit no password.
    PasswordGeneration(String),
    /// The vault metadata row does not exist yet.
    VaultNotInitialized,
    /// The vault metadata row already exists.
    VaultAlreadyExists,
}

impl Error {
    /// A short, fixed name for the kind of failure.
    pub fn kind(&self) -> (r: &'static str)
        ensures
            r@ == self.kind_spec(),
    {
        match self {
            Error::Database(_) => "database error",
            Error::Crypto(_) => "crypto error",
            Error::InvalidInput(_) => "invalid input",
            Error::Authentication(_) => "authentication failed",
            Error::EntryNotFound(_) => "entry not found",
            Error::Migration(_) => "migration failed",
            Error::PasswordGeneration(_) => "password generation error",
            Error::VaultNotInitialized => "vault not initialized",
            Error::VaultAlreadyExists => "vault already exists",
        }
    }

    /// What `kind` returns, as a sequence of characters.
    pub open spec fn kind_spec(&self) -> Seq<char> {
        match self {
            Error::Database(_) => "database error"@,
            Error::Crypto(_) => "crypto error"@,
            Error::InvalidInput(_) => "invalid input"@,
            Error::Authentication(_) => "authentication failed"@,
            Error::EntryNotFound(_) => "entry not found"@,
            Error::Migration(_) => "migration failed"@,
            Error::PasswordGeneration(_) => "password generation error"@,
            Error::VaultNotInitialized => "vault not initialized"@,
            Error::VaultAlreadyExists => "vault already exists"@,
        }
    }
}

} // verus!
