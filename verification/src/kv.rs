//! The key-value engine: named buckets of entries, each entry a string key
//! with a byte string, changed one atomic transaction at a time.
//!
//! `KvAdapterTrait` is what the status store asks of a backend.
//! `RedbAdapter` is the backend on an embedded `redb` database.

use vstd::prelude::*;

use crate::error::AdapterError;
use crate::text::str_eq;

verus! {

/// What an engine holds: for each bucket its entries.
pub type Buckets = Map<Seq<char>, Map<Seq<char>, Seq<u8>>>;

/// The entries of a bucket, none where the bucket does not exist.
pub open spec fn bucket_entries(b: Buckets, bucket: Seq<char>) -> Map<Seq<char>, Seq<u8>> {
    if b.contains_key(bucket) {
        b[bucket]
    } else {
        Map::empty()
    }
}

/// What `get` finds.
pub open spec fn kv_get(b: Buckets, bucket: Seq<char>, key: Seq<char>) -> Option<Seq<u8>> {
    if bucket_entries(b, bucket).contains_key(key) {
        Some(bucket_entries(b, bucket)[key])
    } else {
        None
    }
}

/// The engine after `init_bucket`: the bucket exists, with the entries it
/// had.
pub open spec fn kv_init(b: Buckets, bucket: Seq<char>) -> Buckets {
    b.insert(bucket, bucket_entries(b, bucket))
}

/// The engine after `put`.
pub open spec fn kv_put(b: Buckets, bucket: Seq<char>, key: Seq<char>, value: Seq<u8>) -> Buckets {
    b.insert(bucket, bucket_entries(b, bucket).insert(key, value))
}

/// The engine after `delete`.
pub open spec fn kv_delete(b: Buckets, bucket: Seq<char>, key: Seq<char>) -> Buckets {
    b.insert(bucket, bucket_entries(b, bucket).remove(key))
}

/// Whether a list of pairs holds exactly the entries of a bucket, each once.
pub open spec fn lists_entries(
    items: Seq<(String, Vec<u8>)>,
    entries: Map<Seq<char>, Seq<u8>>,
) -> bool {
    &&& forall|i: int|
        0 <= i < items.len() ==> entries.contains_key(#[trigger] items[i].0@) && entries[items[i].0@]
            == items[i].1@
    &&& forall|i: int, j: int|
        0 <= i < j < items.len() ==> (#[trigger] items[i]).0@ != (#[trigger] items[j]).0@
    &&& forall|key: Seq<char>| #[trigger]
        entries.contains_key(key) ==> exists|i: int| 0 <= i < items.len() && items[i].0@ == key
}

/// A write that either took place as a whole or not at all.
pub open spec fn all_or_nothing(before: Buckets, after: Buckets, intended: Buckets) -> bool {
    after == before || after == intended
}

/// What a write that failed with `e` leaves behind. The error is one of
/// the backend. A write that failed before its commit has left everything
/// as it was; one that failed at its commit has taken place as a whole or
/// not at all.
pub open spec fn failed_write(
    e: AdapterError,
    before: Buckets,
    after: Buckets,
    intended: Buckets,
) -> bool {
    &&& e.is_backend_failure()
    &&& all_or_nothing(before, after, intended)
    &&& !(e is Commit) ==> after == before
}

/// The keys that a list names.
pub open spec fn key_set(keys: Seq<String>) -> Set<Seq<char>> {
    Set::new(|key: Seq<char>| exists|i: int| 0 <= i < keys.len() && #[trigger] keys[i]@ == key)
}

/// The engine after `delete_many`.
pub open spec fn kv_delete_many(b: Buckets, bucket: Seq<char>, keys: Set<Seq<char>>) -> Buckets {
    b.insert(bucket, bucket_entries(b, bucket).remove_keys(keys))
}

/// Whether a list names a key.
pub fn names_key(keys: &Vec<String>, key: &str) -> (named: bool)
    ensures
        named == key_set(keys@).contains(key@),
{
    let mut i: usize = 0;
    while i < keys.len()
        invariant
            i <= keys.len(),
            forall|k: int| 0 <= k < i ==> (#[trigger] keys[k])@ != key@,
        decreases keys.len() - i,
    {
        if str_eq(keys[i].as_str(), key) {
            assert(keys@[i as int]@ == key@);
            return true;
        }
        i += 1;
    }
    false
}

/// Whether an entry stays when the keys that a list names are removed.
pub fn stays(keys: &Vec<String>, key: &str) -> (kept: bool)
    ensures
        kept == !key_set(keys@).contains(key@),
{
    !names_key(keys, key)
}

/// The operations of a key-value backend. Each write is one atomic
/// transaction. A backend may fail at any operation: see `failed_write`
/// for what a failed write leaves behind.
pub trait KvAdapterTrait {
    /// What the backend holds.
    spec fn buckets(&self) -> Buckets;

    /// Creates the bucket if it does not exist. Entries of an existing
    /// bucket are kept.
    fn init_bucket(&mut self, bucket: &str) -> (r: Result<(), AdapterError>)
        ensures
            r is Ok ==> final(self).buckets() == kv_init(old(self).buckets(), bucket@),
            r matches Err(e) ==> failed_write(
                e,
                old(self).buckets(),
                final(self).buckets(),
                kv_init(old(self).buckets(), bucket@),
            ),
    ;

    fn get(&self, bucket: &str, key: &str) -> (r: Result<Option<Vec<u8>>, AdapterError>)
        ensures
            match r {
                Ok(found) => self.buckets().contains_key(bucket@) && match found {
                    Some(value) => kv_get(self.buckets(), bucket@, key@) == Some(value@),
                    None => kv_get(self.buckets(), bucket@, key@) is None,
                },
                Err(e) => e.is_backend_failure(),
            },
    ;

    /// Every entry of the bucket, as one read transaction saw it.
    fn get_all(&self, bucket: &str) -> (r: Result<Vec<(String, Vec<u8>)>, AdapterError>)
        ensures
            match r {
                Ok(items) => self.buckets().contains_key(bucket@) && lists_entries(
                    items@,
                    self.buckets()[bucket@],
                ),
                Err(e) => e.is_backend_failure(),
            },
    ;

    /// Stores the value under the key, over whatever was there.
    fn put(&mut self, bucket: &str, key: &str, value: &[u8]) -> (r: Result<(), AdapterError>)
        ensures
            r is Ok ==> final(self).buckets() == kv_put(old(self).buckets(), bucket@, key@, value@),
            r matches Err(e) ==> failed_write(
                e,
                old(self).buckets(),
                final(self).buckets(),
                kv_put(old(self).buckets(), bucket@, key@, value@),
            ),
    ;

    /// Removes the key. A key that is not there is no error.
    fn delete(&mut self, bucket: &str, key: &str) -> (r: Result<(), AdapterError>)
        ensures
            r is Ok ==> final(self).buckets() == kv_delete(old(self).buckets(), bucket@, key@),
            r matches Err(e) ==> failed_write(
                e,
                old(self).buckets(),
                final(self).buckets(),
                kv_delete(old(self).buckets(), bucket@, key@),
            ),
    ;

    /// Removes every key that the list names, in one transaction. A key
    /// that is not there is no error.
    fn delete_many(&mut self, bucket: &str, keys: &Vec<String>) -> (r: Result<(), AdapterError>)
        ensures
            r is Ok ==> final(self).buckets() == kv_delete_many(
                old(self).buckets(),
                bucket@,
                key_set(keys@),
            ),
            r matches Err(e) ==> failed_write(
                e,
                old(self).buckets(),
                final(self).buckets(),
                kv_delete_many(old(self).buckets(), bucket@, key_set(keys@)),
            ),
    ;

    fn close(&mut self) -> (r: Result<(), AdapterError>)
        ensures
            final(self).buckets() == old(self).buckets(),
            r is Err ==> r->Err_0.is_backend_failure(),
    ;
}

// ------------------------------------------------------------------- laws

/// Reading a key after writing it gives what was written.
pub proof fn lemma_get_after_put(b: Buckets, bucket: Seq<char>, key: Seq<char>, value: Seq<u8>)
    ensures
        kv_get(kv_put(b, bucket, key, value), bucket, key) == Some(value),
{
}

/// Reading a key after deleting it finds nothing.
pub proof fn lemma_get_after_delete(b: Buckets, bucket: Seq<char>, key: Seq<char>)
    ensures
        kv_get(kv_delete(b, bucket, key), bucket, key) is None,
{
}

/// A write to one key leaves every other key, and every other bucket, as
/// it was.
pub proof fn lemma_write_leaves_others(
    b: Buckets,
    bucket: Seq<char>,
    key: Seq<char>,
    value: Seq<u8>,
    other_bucket: Seq<char>,
    other_key: Seq<char>,
)
    requires
        other_bucket != bucket || other_key != key,
    ensures
        kv_get(kv_put(b, bucket, key, value), other_bucket, other_key) == kv_get(
            b,
            other_bucket,
            other_key,
        ),
        kv_get(kv_delete(b, bucket, key), other_bucket, other_key) == kv_get(
            b,
            other_bucket,
            other_key,
        ),
{
}

/// One write to a bucket.
pub enum KvWrite {
    Put { key: Seq<char>, value: Seq<u8> },
    Delete { key: Seq<char> },
}

impl KvWrite {
    pub open spec fn key(self) -> Seq<char> {
        match self {
            KvWrite::Put { key, .. } => key,
            KvWrite::Delete { key } => key,
        }
    }

    /// What a read of the written key finds afterwards.
    pub open spec fn leaves(self) -> Option<Seq<u8>> {
        match self {
            KvWrite::Put { value, .. } => Some(value),
            KvWrite::Delete { .. } => None,
        }
    }

    pub open spec fn apply(self, b: Buckets, bucket: Seq<char>) -> Buckets {
        match self {
            KvWrite::Put { key, value } => kv_put(b, bucket, key, value),
            KvWrite::Delete { key } => kv_delete(b, bucket, key),
        }
    }
}

/// The engine after a sequence of committed writes to one bucket.
pub open spec fn apply_writes(b: Buckets, bucket: Seq<char>, writes: Seq<KvWrite>) -> Buckets
    decreases writes.len(),
{
    if writes.len() == 0 {
        b
    } else {
        writes.last().apply(apply_writes(b, bucket, writes.drop_last()), bucket)
    }
}

/// The last write to `key` in a sequence, if there is one.
pub open spec fn last_write_to(writes: Seq<KvWrite>, key: Seq<char>) -> Option<KvWrite>
    decreases writes.len(),
{
    if writes.len() == 0 {
        None
    } else if writes.last().key() == key {
        Some(writes.last())
    } else {
        last_write_to(writes.drop_last(), key)
    }
}

/// Read-after-write consistency: after any sequence of committed puts and
/// deletes, a read of a key finds what the last write to that key left, and
/// what was there before where no write touched the key.
pub proof fn lemma_get_reflects_last_write(
    b: Buckets,
    bucket: Seq<char>,
    writes: Seq<KvWrite>,
    key: Seq<char>,
)
    ensures
        kv_get(apply_writes(b, bucket, writes), bucket, key) == match last_write_to(writes, key) {
            Some(write) => write.leaves(),
            None => kv_get(b, bucket, key),
        },
    decreases writes.len(),
{
    if writes.len() > 0 {
        lemma_get_reflects_last_write(b, bucket, writes.drop_last(), key);
    }
}

/// Creating a bucket twice is the same as creating it once, and creating a
/// bucket never changes what a read finds.
pub proof fn lemma_init_bucket_idempotent(b: Buckets, bucket: Seq<char>)
    ensures
        kv_init(kv_init(b, bucket), bucket) == kv_init(b, bucket),
        b.contains_key(bucket) ==> kv_init(b, bucket) == b,
        forall|any_bucket: Seq<char>, key: Seq<char>| #[trigger]
            kv_get(kv_init(b, bucket), any_bucket, key) == kv_get(b, any_bucket, key),
{
    assert(kv_init(kv_init(b, bucket), bucket) =~= kv_init(b, bucket));
    if b.contains_key(bucket) {
        assert(kv_init(b, bucket) =~= b);
    }
}

} // verus!
