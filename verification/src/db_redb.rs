//! The key-value backend on an embedded `redb` database.
//!
//! Every bucket is a `redb` table of string keys and byte-string values.
//! Each operation is one `redb` transaction. Where the commit of a write
//! fails, the database cannot say whether the write took place; the
//! backend then reads back and reports what it finds.

use vstd::prelude::*;
use vstd::string::StringExecFns;

use crate::error::AdapterError;
use crate::kv::{
    all_or_nothing, key_set, kv_delete, kv_delete_many, kv_get, kv_init, kv_put, lists_entries,
    names_key, stays, Buckets, KvAdapterTrait,
};
use crate::text::bytes_eq;

verus! {

/// `redb::Database`: an open database. Nothing inside it is visible here.
#[verifier::external_type_specification]
#[verifier::external_body]
pub struct ExDatabase(redb::Database);

/// `redb::Error`: any error of the database. Nothing inside it is visible
/// here; it is turned into text.
#[verifier::external_type_specification]
#[verifier::external_body]
pub struct ExRedbError(redb::Error);

/// The tables of string keys and byte-string values that a database holds,
/// as its last committed transaction left them.
pub uninterp spec fn stored_tables(db: &redb::Database) -> Map<Seq<char>, Map<Seq<char>, Seq<u8>>>;

/// `redb::Database::create`: opens the file as a database, making a new one
/// where the file is missing or empty. Nothing is claimed of what it holds.
#[verifier::external_body]
fn redb_create(path: &str) -> (r: Result<redb::Database, redb::Error>) {
    redb::Database::create(path).map_err(redb::Error::from)
}

/// The text of a `redb::Error`, by its `Display`.
#[verifier::external_body]
fn redb_error_text(error: &redb::Error) -> (text: String) {
    error.to_string()
}

/// How a write transaction failed: before its commit, or at its commit.
pub enum WriteFailure {
    BeforeCommit(redb::Error),
    AtCommit(redb::Error),
}

/// What a write transaction that failed has left: nothing where it failed
/// before its commit, for a transaction that is dropped without a commit is
/// rolled back; all or nothing where the commit failed.
pub open spec fn left_by(
    failure: WriteFailure,
    before: Buckets,
    after: Buckets,
    intended: Buckets,
) -> bool {
    match failure {
        WriteFailure::BeforeCommit(_) => after == before,
        WriteFailure::AtCommit(_) => all_or_nothing(before, after, intended),
    }
}

/// One write transaction (`Database::begin_write`) that opens the table with
/// `WriteTransaction::open_table`, which creates it where it is missing, and
/// commits (`WriteTransaction::commit`). See `left_by` for a failure.
#[verifier::external_body]
fn redb_init_table(db: &mut redb::Database, table: &str) -> (r: Result<(), WriteFailure>)
    requires
        table@.len() > 0,
    ensures
        r is Ok ==> stored_tables(final(db)) == kv_init(stored_tables(old(db)), table@),
        r matches Err(failure) ==> left_by(
            failure,
            stored_tables(old(db)),
            stored_tables(final(db)),
            kv_init(stored_tables(old(db)), table@),
        ),
{
    let definition: redb::TableDefinition<&str, &[u8]> = redb::TableDefinition::new(table);
    let txn = db.begin_write().map_err(|e| WriteFailure::BeforeCommit(e.into()))?;
    drop(txn.open_table(definition).map_err(|e| WriteFailure::BeforeCommit(e.into()))?);
    txn.commit().map_err(|e| WriteFailure::AtCommit(e.into()))
}

/// One read transaction (`ReadableDatabase::begin_read`) that opens the
/// table with `ReadTransaction::open_table`, which fails where the table
/// does not exist, and looks the key up with `ReadableTable::get`.
#[verifier::external_body]
fn redb_get(db: &redb::Database, table: &str, key: &str) -> (r: Result<
    Option<Vec<u8>>,
    redb::Error,
>)
    requires
        table@.len() > 0,
    ensures
        r matches Ok(found) ==> stored_tables(db).contains_key(table@) && match found {
            Some(value) => kv_get(stored_tables(db), table@, key@) == Some(value@),
            None => kv_get(stored_tables(db), table@, key@) is None,
        },
{
    let definition: redb::TableDefinition<&str, &[u8]> = redb::TableDefinition::new(table);
    let opened = redb::ReadableDatabase::begin_read(db)?.open_table(definition)?;
    let found = redb::ReadableTable::get(&opened, key)?;
    Ok(found.map(|guard| guard.value().to_vec()))
}

/// One read transaction that opens the table, which fails where the table
/// does not exist, and walks all of it with `ReadableTable::iter`: every
/// entry of the table, each key once.
#[verifier::external_body]
fn redb_get_all(db: &redb::Database, table: &str) -> (r: Result<
    Vec<(String, Vec<u8>)>,
    redb::Error,
>)
    requires
        table@.len() > 0,
    ensures
        r matches Ok(items) ==> stored_tables(db).contains_key(table@) && lists_entries(
            items@,
            stored_tables(db)[table@],
        ),
{
    let definition: redb::TableDefinition<&str, &[u8]> = redb::TableDefinition::new(table);
    let opened = redb::ReadableDatabase::begin_read(db)?.open_table(definition)?;
    let entries = redb::ReadableTable::iter(&opened)?;
    let items: Result<Vec<(String, Vec<u8>)>, redb::StorageError> = entries.map(
        |entry| entry.map(|(key, value)| (key.value().to_string(), value.value().to_vec())),
    ).collect();
    Ok(items?)
}

/// One write transaction that opens the table, creating it where it is
/// missing, stores the value under the key with `Table::insert`, which
/// replaces what was there, and commits. See `left_by` for a failure.
#[verifier::external_body]
fn redb_put(db: &mut redb::Database, table: &str, key: &str, value: &[u8]) -> (r: Result<
    (),
    WriteFailure,
>)
    requires
        table@.len() > 0,
    ensures
        r is Ok ==> stored_tables(final(db)) == kv_put(
            stored_tables(old(db)),
            table@,
            key@,
            value@,
        ),
        r matches Err(failure) ==> left_by(
            failure,
            stored_tables(old(db)),
            stored_tables(final(db)),
            kv_put(stored_tables(old(db)), table@, key@, value@),
        ),
{
    let definition: redb::TableDefinition<&str, &[u8]> = redb::TableDefinition::new(table);
    let txn = db.begin_write().map_err(|e| WriteFailure::BeforeCommit(e.into()))?;
    {
        let mut opened =
            txn.open_table(definition).map_err(|e| WriteFailure::BeforeCommit(e.into()))?;
        opened.insert(key, value).map_err(|e| WriteFailure::BeforeCommit(e.into()))?;
    }
    txn.commit().map_err(|e| WriteFailure::AtCommit(e.into()))
}

/// One write transaction that opens the table, creating it where it is
/// missing, removes the key with `Table::remove`, which does nothing where
/// the key is absent, and commits. See `left_by` for a failure.
#[verifier::external_body]
fn redb_delete(db: &mut redb::Database, table: &str, key: &str) -> (r: Result<(), WriteFailure>)
    requires
        table@.len() > 0,
    ensures
        r is Ok ==> stored_tables(final(db)) == kv_delete(stored_tables(old(db)), table@, key@),
        r matches Err(failure) ==> left_by(
            failure,
            stored_tables(old(db)),
            stored_tables(final(db)),
            kv_delete(stored_tables(old(db)), table@, key@),
        ),
{
    let definition: redb::TableDefinition<&str, &[u8]> = redb::TableDefinition::new(table);
    let txn = db.begin_write().map_err(|e| WriteFailure::BeforeCommit(e.into()))?;
    {
        let mut opened =
            txn.open_table(definition).map_err(|e| WriteFailure::BeforeCommit(e.into()))?;
        opened.remove(key).map_err(|e| WriteFailure::BeforeCommit(e.into()))?;
    }
    txn.commit().map_err(|e| WriteFailure::AtCommit(e.into()))
}

/// One write transaction that opens the table, creating it where it is
/// missing, goes through it with `Table::retain`, which removes every entry
/// for which the closure gives `false`, here every entry whose key the list
/// names, and commits. See `left_by` for a failure.
#[verifier::external_body]
fn redb_delete_many(db: &mut redb::Database, table: &str, keys: &Vec<String>) -> (r: Result<
    (),
    WriteFailure,
>)
    requires
        table@.len() > 0,
    ensures
        r is Ok ==> stored_tables(final(db)) == kv_delete_many(
            stored_tables(old(db)),
            table@,
            key_set(keys@),
        ),
        r matches Err(failure) ==> left_by(
            failure,
            stored_tables(old(db)),
            stored_tables(final(db)),
            kv_delete_many(stored_tables(old(db)), table@, key_set(keys@)),
        ),
{
    let definition: redb::TableDefinition<&str, &[u8]> = redb::TableDefinition::new(table);
    let txn = db.begin_write().map_err(|e| WriteFailure::BeforeCommit(e.into()))?;
    {
        let mut opened =
            txn.open_table(definition).map_err(|e| WriteFailure::BeforeCommit(e.into()))?;
        opened.retain(|key, _| stays(keys, key)).map_err(|e| WriteFailure::BeforeCommit(e.into()))?;
    }
    txn.commit().map_err(|e| WriteFailure::AtCommit(e.into()))
}

/// A key-value backend that keeps its buckets in a `redb` database.
pub struct RedbAdapter {
    db: redb::Database,
}

/// Why an empty bucket name is refused.
pub open spec fn empty_name_reason() -> Seq<char> {
    "the bucket name is empty"@
}

/// Whether an error is the storage error for an empty bucket name.
pub open spec fn is_empty_name_error(e: AdapterError) -> bool {
    e matches AdapterError::Storage(why) && why@ == empty_name_reason()
}

/// Whether an error is the one for the creation of a bucket without a
/// name.
pub open spec fn is_unnamed_bucket_error(e: AdapterError, bucket: Seq<char>) -> bool {
    e matches AdapterError::CreateBucketError(name, why) && name@ == bucket && why@
        == empty_name_reason()
}

/// The error for a bucket name that the backend cannot take: a storage
/// error that says that the name is empty.
fn empty_bucket_name() -> (e: AdapterError)
    ensures
        is_empty_name_error(e),
{
    AdapterError::Storage(String::from_str("the bucket name is empty"))
}

/// Words that the database said: they come behind the database's name.
pub open spec fn said_by_database(text: Seq<char>) -> bool {
    text.len() >= 6 && text.subrange(0, 6) == "redb: "@
}

/// Whether an error carries what the database said.
pub open spec fn is_database_error(e: AdapterError) -> bool {
    match e {
        AdapterError::Storage(why) => said_by_database(why@),
        AdapterError::Commit(why) => said_by_database(why@),
        AdapterError::CreateBucketError(_, why) => said_by_database(why@),
        AdapterError::InitError(why) => said_by_database(why@),
        _ => false,
    }
}

/// What the database said is never the reason for refusing an empty
/// bucket name.
pub proof fn lemma_database_words_differ(text: Seq<char>)
    requires
        said_by_database(text),
    ensures
        text != empty_name_reason(),
{
    reveal_strlit("redb: ");
    reveal_strlit("the bucket name is empty");
    assert(text.subrange(0, 6)[0] == 'r');
    assert(empty_name_reason()[0] == 't');
}

/// The words of an error of the database, behind the database's name.
fn database_words(error: &redb::Error) -> (text: String)
    ensures
        said_by_database(text@),
        text@ != empty_name_reason(),
{
    let said = redb_error_text(error);
    let text = String::from_str("redb: ").concat(said.as_str());
    proof {
        reveal_strlit("redb: ");
        assert(text@.subrange(0, 6) =~= "redb: "@);
        lemma_database_words_differ(text@);
    }
    text
}

/// The error of the store for a failure of the database that has left
/// everything as it was: a storage error with the words of the database.
fn storage_failure(error: &redb::Error) -> (e: AdapterError)
    ensures
        e matches AdapterError::Storage(why) && said_by_database(why@),
        !is_empty_name_error(e),
{
    AdapterError::Storage(database_words(error))
}

/// The error of the store for a commit that failed and of which the
/// database cannot say whether it took place: a commit error with the
/// words of the database.
fn commit_failure(error: &redb::Error) -> (e: AdapterError)
    ensures
        e matches AdapterError::Commit(why) && said_by_database(why@),
{
    AdapterError::Commit(database_words(error))
}

/// The error of the store for a bucket that the database did not create:
/// the bucket's name and the words of the database.
fn bucket_failure(bucket: &str, error: &redb::Error) -> (e: AdapterError)
    ensures
        e matches AdapterError::CreateBucketError(name, why) && name@ == bucket@
            && said_by_database(why@),
        !is_unnamed_bucket_error(e, bucket@),
{
    AdapterError::CreateBucketError(String::from_str(bucket), database_words(error))
}

/// Whether one of the entries stands under a key that the list names.
fn any_named(items: &Vec<(String, Vec<u8>)>, keys: &Vec<String>) -> (found: bool)
    ensures
        found == exists|i: int|
            0 <= i < items.len() && key_set(keys@).contains((#[trigger] items[i]).0@),
{
    let mut i: usize = 0;
    while i < items.len()
        invariant
            i <= items.len(),
            forall|k: int| 0 <= k < i ==> !key_set(keys@).contains((#[trigger] items[k]).0@),
        decreases items.len() - i,
    {
        if names_key(keys, items[i].0.as_str()) {
            return true;
        }
        i += 1;
    }
    false
}

/// A key that holds the value already is not changed by a `put` of it.
proof fn lemma_put_of_what_is_there(b: Buckets, bucket: Seq<char>, key: Seq<char>, value: Seq<u8>)
    requires
        kv_get(b, bucket, key) == Some(value),
    ensures
        kv_put(b, bucket, key, value) == b,
{
    assert(b[bucket].insert(key, value) =~= b[bucket]);
    assert(kv_put(b, bucket, key, value) =~= b);
}

/// A key that is not there in a bucket that is there is not changed by a
/// `delete` of it.
proof fn lemma_delete_of_what_is_not_there(b: Buckets, bucket: Seq<char>, key: Seq<char>)
    requires
        b.contains_key(bucket),
        kv_get(b, bucket, key) is None,
    ensures
        kv_delete(b, bucket, key) == b,
{
    assert(b[bucket].remove(key) =~= b[bucket]);
    assert(kv_delete(b, bucket, key) =~= b);
}

/// A bucket that holds none of the keys is not changed by a `delete_many`
/// of them; a bucket that holds one of them is.
proof fn lemma_delete_many_of_what_is_there(
    b: Buckets,
    bucket: Seq<char>,
    keys: Set<Seq<char>>,
    items: Seq<(String, Vec<u8>)>,
)
    requires
        b.contains_key(bucket),
        lists_entries(items, b[bucket]),
    ensures
        (exists|i: int| 0 <= i < items.len() && keys.contains((#[trigger] items[i]).0@))
            ==> kv_delete_many(b, bucket, keys) != b,
        !(exists|i: int| 0 <= i < items.len() && keys.contains((#[trigger] items[i]).0@))
            ==> kv_delete_many(b, bucket, keys) == b,
{
    let after = kv_delete_many(b, bucket, keys);
    if exists|i: int| 0 <= i < items.len() && keys.contains((#[trigger] items[i]).0@) {
        let i = choose|i: int| 0 <= i < items.len() && keys.contains((#[trigger] items[i]).0@);
        assert(b[bucket].contains_key(items[i].0@));
        assert(!after[bucket].contains_key(items[i].0@));
    } else {
        assert forall|key: Seq<char>| b[bucket].contains_key(key) implies !keys.contains(key) by {
            let i = choose|i: int| 0 <= i < items.len() && items[i].0@ == key;
            assert(!keys.contains(items[i].0@));
        }
        assert(b[bucket].remove_keys(keys) =~= b[bucket]);
        assert(after =~= b);
    }
}

impl RedbAdapter {
    /// A backend on a database that is already open. The backend takes the
    /// database over: what it says of the buckets holds as long as nothing
    /// else writes to the database.
    pub fn new(db: redb::Database) -> (adapter: RedbAdapter)
        ensures
            adapter.buckets() == stored_tables(&db),
    {
        RedbAdapter { db }
    }

    /// The backend for what an attempt to open a database gave: a backend
    /// on the database where there is one, else an `InitError` with the
    /// words of the database.
    pub fn from_opened(opened: Result<redb::Database, redb::Error>) -> (r: Result<
        RedbAdapter,
        AdapterError,
    >)
        ensures
            match opened {
                Ok(db) => r matches Ok(adapter) && adapter.buckets() == stored_tables(&db),
                Err(_) => r matches Err(e) && e is InitError && is_database_error(e),
            },
    {
        match opened {
            Ok(db) => Ok(RedbAdapter::new(db)),
            Err(error) => Err(AdapterError::InitError(database_words(&error))),
        }
    }

    /// Opens the database in the file of this path, making a new one where
    /// there is none. Whether that succeeds is up to the file system; a
    /// failure is an `InitError`.
    pub fn open(path: &str) -> (r: Result<RedbAdapter, AdapterError>)
        ensures
            r is Err ==> r->Err_0 is InitError && is_database_error(r->Err_0),
    {
        RedbAdapter::from_opened(redb_create(path))
    }
}

impl KvAdapterTrait for RedbAdapter {
    closed spec fn buckets(&self) -> Buckets {
        stored_tables(&self.db)
    }

    /// An empty name, and no other, is refused before the database is
    /// asked. Where the commit fails, the bucket is looked for: a bucket
    /// that is there has been created.
    fn init_bucket(&mut self, bucket: &str) -> (r: Result<(), AdapterError>)
        ensures
            bucket@.len() == 0 ==> final(self).buckets() == old(self).buckets() && r is Err
                && is_unnamed_bucket_error(r->Err_0, bucket@),
            r is Err && is_unnamed_bucket_error(r->Err_0, bucket@) ==> bucket@.len() == 0,
            r is Err && bucket@.len() > 0 ==> is_database_error(r->Err_0),
            r is Err ==> r->Err_0 is CreateBucketError || r->Err_0 is Commit,
    {
        if bucket.is_empty() {
            return Err(
                AdapterError::CreateBucketError(
                    String::from_str(bucket),
                    String::from_str("the bucket name is empty"),
                ),
            );
        }
        match redb_init_table(&mut self.db, bucket) {
            Ok(()) => Ok(()),
            Err(WriteFailure::BeforeCommit(error)) => Err(bucket_failure(bucket, &error)),
            Err(WriteFailure::AtCommit(error)) => match redb_get(&self.db, bucket, "") {
                Ok(_) => {
                    proof {
                        crate::kv::lemma_init_bucket_idempotent(old(self).buckets(), bucket@);
                    }
                    Ok(())
                },
                Err(_) => Err(commit_failure(&error)),
            },
        }
    }

    /// An empty name, and no other, is refused before the database is
    /// asked.
    fn get(&self, bucket: &str, key: &str) -> (r: Result<Option<Vec<u8>>, AdapterError>)
        ensures
            bucket@.len() == 0 ==> r is Err && is_empty_name_error(r->Err_0),
            r is Err && is_empty_name_error(r->Err_0) ==> bucket@.len() == 0,
            r is Err && bucket@.len() > 0 ==> is_database_error(r->Err_0),
            r is Err ==> r->Err_0 is Storage,
    {
        if bucket.is_empty() {
            return Err(empty_bucket_name());
        }
        match redb_get(&self.db, bucket, key) {
            Ok(found) => Ok(found),
            Err(error) => Err(storage_failure(&error)),
        }
    }

    /// An empty name, and no other, is refused before the database is
    /// asked.
    fn get_all(&self, bucket: &str) -> (r: Result<Vec<(String, Vec<u8>)>, AdapterError>)
        ensures
            bucket@.len() == 0 ==> r is Err && is_empty_name_error(r->Err_0),
            r is Err && is_empty_name_error(r->Err_0) ==> bucket@.len() == 0,
            r is Err && bucket@.len() > 0 ==> is_database_error(r->Err_0),
            r is Err ==> r->Err_0 is Storage,
    {
        if bucket.is_empty() {
            return Err(empty_bucket_name());
        }
        match redb_get_all(&self.db, bucket) {
            Ok(items) => Ok(items),
            Err(error) => Err(storage_failure(&error)),
        }
    }

    /// An empty name, and no other, is refused before the database is
    /// asked. Where the commit fails, the key is read back: a key that
    /// holds the value has been written, any other has been left as it
    /// was. Only where the key cannot be read either, the error is one of
    /// the commit.
    fn put(&mut self, bucket: &str, key: &str, value: &[u8]) -> (r: Result<(), AdapterError>)
        ensures
            bucket@.len() == 0 ==> final(self).buckets() == old(self).buckets() && r is Err
                && is_empty_name_error(r->Err_0),
            r is Err && is_empty_name_error(r->Err_0) ==> bucket@.len() == 0,
            r is Err && bucket@.len() > 0 ==> is_database_error(r->Err_0),
            r is Err ==> r->Err_0 is Storage || r->Err_0 is Commit,
    {
        if bucket.is_empty() {
            return Err(empty_bucket_name());
        }
        match redb_put(&mut self.db, bucket, key, value) {
            Ok(()) => Ok(()),
            Err(WriteFailure::BeforeCommit(error)) => Err(storage_failure(&error)),
            Err(WriteFailure::AtCommit(error)) => match redb_get(&self.db, bucket, key) {
                Ok(Some(found)) => {
                    if bytes_eq(found.as_slice(), value) {
                        proof {
                            lemma_put_of_what_is_there(self.buckets(), bucket@, key@, value@);
                        }
                        Ok(())
                    } else {
                        Err(storage_failure(&error))
                    }
                },
                Ok(None) => Err(storage_failure(&error)),
                Err(_) => Err(commit_failure(&error)),
            },
        }
    }

    /// An empty name, and no other, is refused before the database is
    /// asked. Where the commit fails, the key is read back: a key that is
    /// gone has been removed, a key that is there has been left as it was.
    /// Only where the key cannot be read either, the error is one of the
    /// commit.
    fn delete(&mut self, bucket: &str, key: &str) -> (r: Result<(), AdapterError>)
        ensures
            bucket@.len() == 0 ==> final(self).buckets() == old(self).buckets() && r is Err
                && is_empty_name_error(r->Err_0),
            r is Err && is_empty_name_error(r->Err_0) ==> bucket@.len() == 0,
            r is Err && bucket@.len() > 0 ==> is_database_error(r->Err_0),
            r is Err ==> r->Err_0 is Storage || r->Err_0 is Commit,
    {
        if bucket.is_empty() {
            return Err(empty_bucket_name());
        }
        match redb_delete(&mut self.db, bucket, key) {
            Ok(()) => Ok(()),
            Err(WriteFailure::BeforeCommit(error)) => Err(storage_failure(&error)),
            Err(WriteFailure::AtCommit(error)) => match redb_get(&self.db, bucket, key) {
                Ok(None) => {
                    proof {
                        lemma_delete_of_what_is_not_there(self.buckets(), bucket@, key@);
                    }
                    Ok(())
                },
                Ok(Some(_)) => Err(storage_failure(&error)),
                Err(_) => Err(commit_failure(&error)),
            },
        }
    }

    /// An empty name, and no other, is refused before the database is
    /// asked. Where the commit fails, the bucket is read back: where none
    /// of the keys is left, they have been removed; where one is left,
    /// everything has been left as it was. Only where the bucket cannot be
    /// read either, the error is one of the commit.
    fn delete_many(&mut self, bucket: &str, keys: &Vec<String>) -> (r: Result<(), AdapterError>)
        ensures
            bucket@.len() == 0 ==> final(self).buckets() == old(self).buckets() && r is Err
                && is_empty_name_error(r->Err_0),
            r is Err && is_empty_name_error(r->Err_0) ==> bucket@.len() == 0,
            r is Err && bucket@.len() > 0 ==> is_database_error(r->Err_0),
            r is Err ==> r->Err_0 is Storage || r->Err_0 is Commit,
    {
        if bucket.is_empty() {
            return Err(empty_bucket_name());
        }
        match redb_delete_many(&mut self.db, bucket, keys) {
            Ok(()) => Ok(()),
            Err(WriteFailure::BeforeCommit(error)) => Err(storage_failure(&error)),
            Err(WriteFailure::AtCommit(error)) => match redb_get_all(&self.db, bucket) {
                Ok(items) => {
                    proof {
                        lemma_delete_many_of_what_is_there(
                            self.buckets(),
                            bucket@,
                            key_set(keys@),
                            items@,
                        );
                        if self.buckets() != old(self).buckets() {
                            lemma_delete_many_leaves_none(
                                old(self).buckets(),
                                bucket@,
                                key_set(keys@),
                                items@,
                            );
                        }
                    }
                    if any_named(&items, keys) {
                        Err(storage_failure(&error))
                    } else {
                        Ok(())
                    }
                },
                Err(_) => Err(commit_failure(&error)),
            },
        }
    }

    fn close(&mut self) -> (r: Result<(), AdapterError>)
        ensures
            r is Ok,
    {
        Ok(())
    }
}

/// After a `delete_many`, none of the entries stands under one of the
/// keys.
proof fn lemma_delete_many_leaves_none(
    before: Buckets,
    bucket: Seq<char>,
    keys: Set<Seq<char>>,
    items: Seq<(String, Vec<u8>)>,
)
    requires
        lists_entries(items, kv_delete_many(before, bucket, keys)[bucket]),
    ensures
        !(exists|i: int| 0 <= i < items.len() && keys.contains((#[trigger] items[i]).0@)),
{
    let after = kv_delete_many(before, bucket, keys);
    if exists|i: int| 0 <= i < items.len() && keys.contains((#[trigger] items[i]).0@) {
        let i = choose|i: int| 0 <= i < items.len() && keys.contains((#[trigger] items[i]).0@);
        assert(after[bucket].contains_key(items[i].0@));
    }
}

} // verus!
