//! Versioned schema migrations of the persistent store.
//!
//! Migrations are declared in a fixed, ascending, gapless sequence starting
//! at version 1. The runner applies every declared migration whose version is
//! strictly greater than the ledger's current maximum, each inside one
//! transaction together with its ledger row, in ascending order. Re-running
//! the migrator on an up-to-date store applies nothing.

use vstd::prelude::*;

use rusqlite::Connection;

use crate::error::Error;
use crate::stamps::now_rfc3339;
use crate::storage::exec_batch;
use crate::storage::exec_sql;
use crate::storage::insert_migration_row;
use crate::storage::query_max_version;

verus! {

/// One declared schema migration: a version, a description, and the schema
/// transformation as a batch of SQL statements.
#[derive(Debug, Clone, Copy)]
pub struct Migration {
    /// Position in the declared sequence, starting at 1.
    pub version: u32,
    /// Human-readable description, recorded in the ledger.
    pub description: &'static str,
    /// The forward-only schema transformation.
    pub sql: &'static str,
}

/// The first schema: vault metadata (a singleton row), credential entries,
/// and lookup indexes.
const MIGRATION_1_SQL: &'static str = "
CREATE TABLE vault_metadata (
    id INTEGER PRIMARY KEY CHECK (id = 1),
    created_at TEXT NOT NULL,
    last_access TEXT NOT NULL,
    schema_version INTEGER NOT NULL DEFAULT 1,
    salt BLOB NOT NULL,
    password_hash BLOB NOT NULL
);
CREATE TABLE password_entries (
    id TEXT PRIMARY KEY,
    title TEXT NOT NULL,
    username TEXT NOT NULL,
    encrypted_password BLOB NOT NULL,
    url TEXT,
    notes TEXT,
    created_at TEXT NOT NULL,
    updated_at TEXT NOT NULL
);
CREATE INDEX idx_password_entries_title ON password_entries(title);
CREATE INDEX idx_password_entries_username ON password_entries(username);
CREATE INDEX idx_password_entries_url ON password_entries(url);
CREATE INDEX idx_password_entries_created_at ON password_entries(created_at);
CREATE INDEX idx_password_entries_updated_at ON password_entries(updated_at);
";

/// The declared sequence of versions is gapless and ascending from 1.
pub open spec fn declared_wf(migrations: Seq<Migration>) -> bool {
    forall|i: int| 0 <= i < migrations.len() ==> #[trigger] migrations[i].version as int == i + 1
}

/// All declared migrations, in ascending version order.
pub fn declared_migrations() -> (r: Vec<Migration>)
    ensures
        r@.len() == 1,
        declared_wf(r@),
{
    let mut migrations: Vec<Migration> = Vec::new();
    migrations.push(
        Migration { version: 1, description: "Initial schema", sql: MIGRATION_1_SQL },
    );
    migrations
}

/// Decides what a store whose ledger stands at `current` still needs:
/// exactly the declared migrations with a strictly greater version, in
/// their declared order.
pub fn pending_migrations(migrations: &Vec<Migration>, current: u32) -> (r: Vec<Migration>)
    ensures
        r@ == migrations@.filter(|m: Migration| m.version > current),
{
    broadcast use vstd::seq_lib::group_filter_ensures;

    let mut pending: Vec<Migration> = Vec::new();
    let n = migrations.len();
    let mut i: usize = 0;
    while i < n
        invariant
            i <= n,
            n == migrations@.len(),
            pending@ == migrations@.take(i as int).filter(|m: Migration| m.version > current),
        decreases n - i,
    {
        let m = migrations[i];
        proof {
            let pred = |m: Migration| m.version > current;
            assert(migrations@.take(i + 1) =~= migrations@.take(i as int) + seq![migrations@[i as int]]);
            Seq::filter_distributes_over_add(
                migrations@.take(i as int),
                seq![migrations@[i as int]],
                pred,
            );
            reveal_with_fuel(Seq::filter, 2);
            assert(seq![migrations@[i as int]].drop_last() =~= Seq::<Migration>::empty());
            if pred(migrations@[i as int]) {
                assert(seq![migrations@[i as int]].filter(pred) =~= seq![migrations@[i as int]]);
            } else {
                assert(seq![migrations@[i as int]].filter(pred) =~= Seq::<Migration>::empty());
            }
        }
        if m.version > current {
            pending.push(m);
            proof {
                assert(pending@ =~= migrations@.take(i + 1).filter(
                    |m: Migration| m.version > current,
                ));
            }
        } else {
            proof {
                assert(pending@ =~= migrations@.take(i + 1).filter(
                    |m: Migration| m.version > current,
                ));
            }
        }
        i += 1;
    }
    proof {
        assert(migrations@.take(n as int) =~= migrations@);
    }
    pending
}

/// Migrator idempotence: once the ledger's current version has reached the
/// last declared version, no declared migration is pending, so a second run
/// of the migrator applies nothing and leaves the ledger unchanged.
pub proof fn lemma_migrator_idempotent(migrations: Seq<Migration>, current: u32)
    requires
        declared_wf(migrations),
        current as int >= migrations.len(),
    ensures
        migrations.filter(|m: Migration| m.version > current) =~= Seq::<Migration>::empty(),
{
    let pred = |m: Migration| m.version > current;
    assert forall|i: int| 0 <= i < migrations.len() implies !pred(migrations[i]) by {
        assert(migrations[i].version as int == i + 1);
    }
    lemma_filter_all_false(migrations, pred);
}

/// A filter whose predicate holds nowhere keeps nothing.
proof fn lemma_filter_all_false<A>(s: Seq<A>, pred: spec_fn(A) -> bool)
    requires
        forall|i: int| 0 <= i < s.len() ==> !pred(#[trigger] s[i]),
    ensures
        s.filter(pred) =~= Seq::<A>::empty(),
    decreases s.len(),
{
    reveal(Seq::filter);
    if s.len() > 0 {
        assert(forall|i: int| 0 <= i < s.drop_last().len() ==> s.drop_last()[i] == s[i]);
        lemma_filter_all_false(s.drop_last(), pred);
    }
}

/// Applies one migration and appends its ledger row, inside one transaction:
/// either both take effect or neither does. A failure anywhere in the
/// transaction is a `Migration` error: fatal, and the already-committed
/// lower versions stay applied.
fn apply_migration(conn: &Connection, migration: &Migration) -> (r: Result<(), Error>)
    ensures
        r matches Err(e) ==> e is Migration,
{
    if let Err(e) = exec_sql(conn, "BEGIN") {
        return Err(Error::Migration(e));
    }
    if let Err(e) = exec_batch(conn, migration.sql) {
        let _ = exec_sql(conn, "ROLLBACK");
        return Err(Error::Migration(e));
    }
    let now = now_rfc3339();
    if let Err(e) = insert_migration_row(conn, migration.version, migration.description, now.as_str()) {
        let _ = exec_sql(conn, "ROLLBACK");
        return Err(Error::Migration(e));
    }
    if let Err(e) = exec_sql(conn, "COMMIT") {
        let _ = exec_sql(conn, "ROLLBACK");
        return Err(Error::Migration(e));
    }
    Ok(())
}

/// Runs every pending migration against one open store.
pub struct MigrationRunner<'a> {
    conn: &'a Connection,
}

impl<'a> MigrationRunner<'a> {
    /// A runner for the given open store.
    pub fn new(conn: &'a Connection) -> Self {
        MigrationRunner { conn }
    }

    /// Ensures the migration ledger exists, reads its current maximum
    /// version, and applies every declared migration with a strictly greater
    /// version, in ascending order. A failure of the ledger itself is a
    /// `Database` error; a failed transformation aborts the run with a
    /// `Migration` error, and already-committed migrations stay applied.
    pub fn migrate(&self) -> (r: Result<(), Error>)
        ensures
            r matches Err(e) ==> e is Database || e is Migration,
    {
        if let Err(e) = exec_sql(
            self.conn,
            "CREATE TABLE IF NOT EXISTS migrations (
                version INTEGER PRIMARY KEY,
                description TEXT NOT NULL,
                applied_at TEXT NOT NULL
            )",
        ) {
            return Err(Error::Database(e));
        }
        let current: u32 = match query_max_version(self.conn) {
            Ok(Some(v)) => v,
            Ok(None) => 0,
            Err(e) => return Err(Error::Database(e)),
        };
        let migrations = declared_migrations();
        let pending = pending_migrations(&migrations, current);
        let n = pending.len();
        let mut i: usize = 0;
        while i < n
            invariant
                i <= n,
                n == pending@.len(),
            decreases n - i,
        {
            match apply_migration(self.conn, &pending[i]) {
                Ok(()) => {},
                Err(e) => return Err(e),
            }
            i += 1;
        }
        Ok(())
    }
}

} // verus!
