//! The status store of the manager: the records of workers and of their
//! mirrors, kept in two buckets of a key-value backend.
//!
//! A worker's record is stored under the worker's id, a mirror's status
//! under a key made of the worker's id and the mirror's name, with the
//! length of the id in front so that no two mirrors share a key. Records
//! are written in the encoding of `codec`.

use vstd::prelude::*;
use vstd::string::StrSliceExecFns;
use vstd::string::StringExecFns;

use crate::codec::{
    decode_mirror_status, decode_mirror_status_bytes, decode_worker_status,
    decode_worker_status_bytes, enc_mirror_status, enc_worker_status, encode_mirror_status,
    encode_worker_status, mirror_status_fits,
};
use crate::db_redb::RedbAdapter;
use crate::error::AdapterError;
use crate::kv::{
    bucket_entries, failed_write, key_set, kv_delete, kv_delete_many, kv_get, kv_init, kv_put,
    lists_entries, Buckets, KvAdapterTrait,
};
use crate::msg::{MirrorStatus, MirrorStatusView, WorkerStatus, WorkerStatusView};
use crate::status::SyncStatus;
use crate::text::{
    ascii_lowercase, char_is_letter, decimal_digits, is_digit, is_prefix,
    lemma_decimal_digits_are_digits, lemma_decimal_digits_injective, starts_with, trim_bounds,
    trimmed, u64_to_decimal,
};
use vstd::slice::slice_to_vec;
use crate::time::Timestamp;

verus! {

/// The backends that a store can be built on.
#[derive(Debug, Clone, Copy, PartialEq, Eq, Structural)]
pub enum DbType {
    Redb,
}

impl DbType {
    /// The backend that a name in the configuration stands for: white space
    /// around the name and the case of its letters do not count.
    pub open spec fn spec_parse(name: Seq<char>) -> Option<DbType> {
        if ascii_lowercase(trimmed(name)) == seq!['r', 'e', 'd', 'b'] {
            Some(DbType::Redb)
        } else {
            None
        }
    }

    /// Reads the name of a backend. Any name but that of a backend is
    /// refused, with the name as it was given.
    pub fn from_str(name: &str) -> (r: Result<DbType, AdapterError>)
        ensures
            match DbType::spec_parse(name@) {
                Some(db_type) => r == Ok::<DbType, AdapterError>(db_type),
                None => r matches Err(AdapterError::UnsupportedDbType(given)) && given@ == name@,
            },
    {
        let (start, end) = trim_bounds(name);
        let ghost core = trimmed(name@);
        let matches = end - start == 4 && char_is_letter(name.get_char(start), 'r', 'R')
            && char_is_letter(name.get_char(start + 1), 'e', 'E') && char_is_letter(
            name.get_char(start + 2),
            'd',
            'D',
        ) && char_is_letter(name.get_char(start + 3), 'b', 'B');
        proof {
            let lower = ascii_lowercase(core);
            let redb = seq!['r', 'e', 'd', 'b'];
            if matches {
                assert(lower =~= redb);
            } else if lower == redb {
                assert(lower.len() == 4);
                assert(lower[0] == 'r' && lower[1] == 'e' && lower[2] == 'd' && lower[3] == 'b');
                assert(false);
            }
        }
        if matches {
            Ok(DbType::Redb)
        } else {
            Err(AdapterError::UnsupportedDbType(String::from_str(name)))
        }
    }

    /// The name of a backend.
    pub fn name(&self) -> (name: &'static str)
        ensures
            DbType::spec_parse(name@) == Some(*self),
    {
        proof {
            reveal_strlit("Redb");
            let text = "Redb"@;
            assert(trimmed(text) == text) by {
                reveal_with_fuel(crate::text::trim_start, 2);
                reveal_with_fuel(crate::text::trim_end, 2);
            }
            assert(ascii_lowercase(text) =~= seq!['r', 'e', 'd', 'b']);
        }
        "Redb"
    }
}

/// The bucket of the workers' records.
pub open spec fn worker_bucket() -> Seq<char> {
    "workers"@
}

/// The bucket of the mirrors' status records.
pub open spec fn status_bucket() -> Seq<char> {
    "mirror_status"@
}

/// What the keys of a worker's mirrors begin with: the length of the
/// worker's id in characters, a colon, the id, a slash. With the length in
/// front no key can be read in two ways, whatever the id holds.
pub open spec fn worker_prefix(worker: Seq<char>) -> Seq<char> {
    decimal_digits(worker.len()) + seq![':'] + worker + seq!['/']
}

/// The key of a mirror's status: what the keys of the worker's mirrors
/// begin with, then the mirror's name.
pub open spec fn status_key(worker: Seq<char>, mirror: Seq<char>) -> Seq<char> {
    worker_prefix(worker) + mirror
}

/// A key begins with the prefix of one worker only.
pub proof fn lemma_worker_prefix_unique(worker_a: Seq<char>, worker_b: Seq<char>, key: Seq<char>)
    requires
        is_prefix(worker_prefix(worker_a), key),
        is_prefix(worker_prefix(worker_b), key),
    ensures
        worker_a == worker_b,
{
    let da = decimal_digits(worker_a.len());
    let db = decimal_digits(worker_b.len());
    let pa = worker_prefix(worker_a);
    let pb = worker_prefix(worker_b);
    lemma_decimal_digits_are_digits(worker_a.len());
    lemma_decimal_digits_are_digits(worker_b.len());
    assert forall|i: int| 0 <= i < pa.len() implies key[i] == pa[i] by {
        assert(key.subrange(0, pa.len() as int)[i] == pa[i]);
    }
    assert forall|i: int| 0 <= i < pb.len() implies key[i] == pb[i] by {
        assert(key.subrange(0, pb.len() as int)[i] == pb[i]);
    }
    assert(pa[da.len() as int] == ':');
    assert(pb[db.len() as int] == ':');
    if da.len() < db.len() {
        assert(pb[da.len() as int] == db[da.len() as int]);
        assert(is_digit(db[da.len() as int]));
    } else if db.len() < da.len() {
        assert(pa[db.len() as int] == da[db.len() as int]);
        assert(is_digit(da[db.len() as int]));
    }
    assert(da =~= db) by {
        assert forall|i: int| 0 <= i < da.len() implies da[i] == db[i] by {
            assert(pa[i] == da[i]);
            assert(pb[i] == db[i]);
        }
    }
    lemma_decimal_digits_injective(worker_a.len(), worker_b.len());
    assert(worker_a =~= worker_b) by {
        assert forall|i: int| 0 <= i < worker_a.len() implies worker_a[i] == worker_b[i] by {
            assert(pa[da.len() + 1 + i] == worker_a[i]);
            assert(pb[db.len() + 1 + i] == worker_b[i]);
        }
    }
}

/// Different mirrors have different keys.
pub proof fn lemma_status_key_injective(
    worker_a: Seq<char>,
    mirror_a: Seq<char>,
    worker_b: Seq<char>,
    mirror_b: Seq<char>,
)
    requires
        status_key(worker_a, mirror_a) == status_key(worker_b, mirror_b),
    ensures
        worker_a == worker_b,
        mirror_a == mirror_b,
{
    let key = status_key(worker_a, mirror_a);
    let pa = worker_prefix(worker_a);
    let pb = worker_prefix(worker_b);
    assert(key.subrange(0, pa.len() as int) =~= pa);
    assert(key.subrange(0, pb.len() as int) =~= pb);
    lemma_worker_prefix_unique(worker_a, worker_b, key);
    assert(mirror_a =~= key.subrange(pa.len() as int, key.len() as int));
    assert(mirror_b =~= key.subrange(pb.len() as int, key.len() as int));
}

/// The keys that begin with a worker's prefix are the keys of that
/// worker's mirrors.
pub proof fn lemma_keys_of_worker(worker: Seq<char>, key: Seq<char>)
    ensures
        is_prefix(worker_prefix(worker), key) <==> exists|mirror: Seq<char>|
            key == #[trigger] status_key(worker, mirror),
{
    let prefix = worker_prefix(worker);
    if is_prefix(prefix, key) {
        let mirror = key.subrange(prefix.len() as int, key.len() as int);
        assert(key =~= status_key(worker, mirror));
    }
    if exists|mirror: Seq<char>| key == #[trigger] status_key(worker, mirror) {
        let mirror = choose|mirror: Seq<char>| key == #[trigger] status_key(worker, mirror);
        assert(key.subrange(0, prefix.len() as int) =~= prefix);
    }
}

/// Builds what the keys of a worker's mirrors begin with.
pub fn make_worker_prefix(worker_id: &str) -> (prefix: String)
    ensures
        prefix@ == worker_prefix(worker_id@),
{
    proof {
        reveal_strlit(":");
        reveal_strlit("/");
    }
    let length = worker_id.unicode_len() as u64;
    let prefix = u64_to_decimal(length).concat(":").concat(worker_id).concat("/");
    assert(prefix@ =~= worker_prefix(worker_id@));
    prefix
}

/// Builds the key of a mirror's status.
pub fn make_status_key(worker_id: &str, mirror_id: &str) -> (key: String)
    ensures
        key@ == status_key(worker_id@, mirror_id@),
{
    make_worker_prefix(worker_id).concat(mirror_id)
}

// ----------------------------------------------------------------- workers

/// The worker that an entry of the workers' bucket holds.
pub open spec fn spec_worker_of(found: Option<Seq<u8>>) -> Option<WorkerStatusView> {
    match found {
        Some(bytes) => decode_worker_status(bytes),
        None => None,
    }
}

/// The worker registered under an id, if there is one and its entry holds
/// a record.
pub open spec fn spec_lookup_worker(b: Buckets, worker_id: Seq<char>) -> Option<WorkerStatusView> {
    spec_worker_of(kv_get(b, worker_bucket(), worker_id))
}

/// Reads a worker out of what the backend found under the worker's id:
/// nothing found is `WorkerNotFound`, bytes that hold no record are
/// `Corrupt`.
pub fn worker_from_entry(worker_id: &str, found: Option<Vec<u8>>) -> (r: Result<
    WorkerStatus,
    AdapterError,
>)
    ensures
        match found {
            None => r matches Err(AdapterError::WorkerNotFound(id)) && id@ == worker_id@,
            Some(bytes) => match decode_worker_status(bytes@) {
                Some(worker) => r matches Ok(w) && w@ == worker,
                None => r matches Err(AdapterError::Corrupt(key)) && key@ == worker_id@,
            },
        },
{
    match found {
        None => Err(AdapterError::WorkerNotFound(String::from_str(worker_id))),
        Some(bytes) => match decode_worker_status_bytes(bytes.as_slice()) {
            Some(worker) => Ok(worker),
            None => Err(AdapterError::Corrupt(String::from_str(worker_id))),
        },
    }
}

/// Decides a registration from what the backend found under the worker's
/// id: a worker that is there already is refused; for a new worker the
/// bytes of its record are to be stored.
pub fn registration_entry(w: &WorkerStatus, found: &Option<Vec<u8>>) -> (r: Result<
    Vec<u8>,
    AdapterError,
>)
    ensures
        match found {
            Some(_) => r matches Err(AdapterError::WorkerExists(id)) && id@ == w.id@,
            None => r matches Ok(bytes) && bytes@ == enc_worker_status(w@)
                && decode_worker_status(bytes@) == Some(w@),
        },
{
    match found {
        Some(_) => Err(AdapterError::WorkerExists(w.id.clone())),
        None => Ok(encode_worker_status(w)),
    }
}

/// Whether `list` holds, in order, the record of each item.
pub open spec fn workers_of_items(items: Seq<(String, Vec<u8>)>, list: Seq<WorkerStatus>) -> bool {
    &&& list.len() == items.len()
    &&& forall|i: int|
        0 <= i < items.len() ==> decode_worker_status(items[i].1@) == Some(#[trigger] list[i]@)
}

/// Whether item `i` is the first that holds no worker's record, and `e` the
/// error that names its key.
pub open spec fn first_corrupt_worker(
    items: Seq<(String, Vec<u8>)>,
    i: int,
    e: AdapterError,
) -> bool {
    &&& 0 <= i < items.len()
    &&& decode_worker_status(items[i].1@) is None
    &&& e matches AdapterError::Corrupt(key) && key@ == items[i].0@
    &&& forall|j: int| 0 <= j < i ==> decode_worker_status(#[trigger] items[j].1@) is Some
}

/// Reads the workers out of the entries of the workers' bucket. Fails on
/// the first entry that holds no record, with the key of that entry.
pub fn workers_from_entries(items: &Vec<(String, Vec<u8>)>) -> (r: Result<
    Vec<WorkerStatus>,
    AdapterError,
>)
    ensures
        match r {
            Ok(list) => workers_of_items(items@, list@),
            Err(e) => exists|i: int| #[trigger] first_corrupt_worker(items@, i, e),
        },
{
    let mut list: Vec<WorkerStatus> = Vec::new();
    let mut i: usize = 0;
    while i < items.len()
        invariant
            i <= items.len(),
            list.len() == i,
            forall|k: int|
                0 <= k < i ==> decode_worker_status(items[k].1@) == Some(#[trigger] list[k]@),
            forall|k: int| 0 <= k < i ==> decode_worker_status(#[trigger] items[k].1@) is Some,
        decreases items.len() - i,
    {
        match decode_worker_status_bytes(items[i].1.as_slice()) {
            Some(worker) => list.push(worker),
            None => {
                let e = AdapterError::Corrupt(items[i].0.clone());
                assert(first_corrupt_worker(items@, i as int, e));
                return Err(e);
            },
        }
        i += 1;
    }
    Ok(list)
}

/// The record of a worker that has just been seen at `now`.
pub open spec fn refreshed(worker: WorkerStatusView, now: Timestamp) -> WorkerStatusView {
    WorkerStatusView { last_online: now, ..worker }
}

// ----------------------------------------------------------------- mirrors

/// The status that an entry of the status bucket holds.
pub open spec fn spec_status_of(found: Option<Seq<u8>>) -> Option<MirrorStatusView> {
    match found {
        Some(bytes) => decode_mirror_status(bytes),
        None => None,
    }
}

/// The status stored for a mirror of a worker, if there is one and its
/// entry holds a record.
pub open spec fn spec_lookup_status(
    b: Buckets,
    worker_id: Seq<char>,
    mirror_id: Seq<char>,
) -> Option<MirrorStatusView> {
    spec_status_of(kv_get(b, status_bucket(), status_key(worker_id, mirror_id)))
}

/// Reads a status out of what the backend found under the key of a
/// worker's mirror: nothing found is `MirrorNotFound`, bytes that hold no
/// record are `Corrupt`.
pub fn status_from_entry(worker_id: &str, mirror_id: &str, found: Option<Vec<u8>>) -> (r: Result<
    MirrorStatus,
    AdapterError,
>)
    ensures
        match found {
            None => r matches Err(AdapterError::MirrorNotFound(w, m)) && w@ == worker_id@ && m@
                == mirror_id@,
            Some(bytes) => match decode_mirror_status(bytes@) {
                Some(s) => r matches Ok(x) && x@ == s,
                None => r matches Err(AdapterError::Corrupt(key)) && key@ == status_key(
                    worker_id@,
                    mirror_id@,
                ),
            },
        },
{
    match found {
        None => Err(
            AdapterError::MirrorNotFound(String::from_str(worker_id), String::from_str(mirror_id)),
        ),
        Some(bytes) => match decode_mirror_status_bytes(bytes.as_slice()) {
            Some(status) => Ok(status),
            None => Err(AdapterError::Corrupt(make_status_key(worker_id, mirror_id))),
        },
    }
}

/// Whether a report is older than what is stored: its `last_update` lies
/// strictly before that of the stored record.
pub open spec fn is_stale(current: Option<MirrorStatusView>, report: MirrorStatusView) -> bool {
    match current {
        Some(stored) => report.last_update.spec_is_before(stored.last_update),
        None => false,
    }
}

/// The record that is stored once a report has been applied: the report,
/// unless it is stale, in which case the stored record stays.
pub open spec fn spec_accept(
    current: Option<MirrorStatusView>,
    report: MirrorStatusView,
) -> MirrorStatusView {
    if is_stale(current, report) {
        current->0
    } else {
        report
    }
}

/// Decides what is stored when a report arrives: the record to keep, and
/// whether it has to be written. A stale report is discarded.
pub fn accept_report(
    current: Option<MirrorStatus>,
    report: MirrorStatus,
) -> (r: (MirrorStatus, bool))
    ensures
        r.0@ == spec_accept(
            match current {
                Some(stored) => Some(stored@),
                None => None,
            },
            report@,
        ),
        r.1 == !is_stale(
            match current {
                Some(stored) => Some(stored@),
                None => None,
            },
            report@,
        ),
{
    match current {
        Some(stored) => {
            if report.last_update.is_before(stored.last_update) {
                (stored, false)
            } else {
                (report, true)
            }
        },
        None => (report, true),
    }
}

/// The store after a report has been applied to it.
pub open spec fn spec_update(
    b: Buckets,
    worker_id: Seq<char>,
    mirror_id: Seq<char>,
    report: MirrorStatusView,
) -> Buckets {
    if is_stale(spec_lookup_status(b, worker_id, mirror_id), report) {
        b
    } else {
        kv_put(
            b,
            status_bucket(),
            status_key(worker_id, mirror_id),
            enc_mirror_status(report),
        )
    }
}

/// Round trip: after a report has been applied, a lookup of the same
/// mirror gives the record that was kept: the report as it was given, or,
/// where the report was stale, the record that was there.
pub proof fn lemma_lookup_after_update(
    b: Buckets,
    worker_id: Seq<char>,
    mirror_id: Seq<char>,
    report: MirrorStatusView,
)
    requires
        mirror_status_fits(report),
    ensures
        spec_lookup_status(spec_update(b, worker_id, mirror_id, report), worker_id, mirror_id)
            == Some(
            spec_accept(
                spec_lookup_status(b, worker_id, mirror_id),
                report,
            ),
        ),
        !is_stale(spec_lookup_status(b, worker_id, mirror_id), report)
            ==> spec_lookup_status(
            spec_update(b, worker_id, mirror_id, report),
            worker_id,
            mirror_id,
        ) == Some(report),
{
    crate::codec::lemma_mirror_status_round_trip(
        report,
        Seq::empty(),
    );
}

/// Replays: a report that is applied a second time leaves the store as
/// the first time left it.
pub proof fn lemma_update_twice(
    b: Buckets,
    worker_id: Seq<char>,
    mirror_id: Seq<char>,
    report: MirrorStatusView,
)
    requires
        mirror_status_fits(report),
    ensures
        spec_update(spec_update(b, worker_id, mirror_id, report), worker_id, mirror_id, report)
            == spec_update(b, worker_id, mirror_id, report),
{
    let once = spec_update(b, worker_id, mirror_id, report);
    lemma_lookup_after_update(b, worker_id, mirror_id, report);
    if !is_stale(spec_lookup_status(b, worker_id, mirror_id), report) {
        let key = status_key(worker_id, mirror_id);
        let bytes = enc_mirror_status(report);
        assert(once[status_bucket()].insert(key, bytes) =~= once[status_bucket()]);
        assert(kv_put(once, status_bucket(), key, bytes) =~= once);
    }
}

/// Ordering: a report whose `last_update` is older than that of the stored
/// record changes nothing in the store.
pub proof fn lemma_stale_report_changes_nothing(
    b: Buckets,
    worker_id: Seq<char>,
    mirror_id: Seq<char>,
    report: MirrorStatusView,
)
    requires
        spec_lookup_status(b, worker_id, mirror_id) matches Some(stored)
            && report.last_update.spec_is_before(stored.last_update),
    ensures
        spec_update(b, worker_id, mirror_id, report) == b,
{
}

/// An update writes one entry only: every other key and every other
/// bucket reads as before.
pub proof fn lemma_update_leaves_others(
    b: Buckets,
    worker_id: Seq<char>,
    mirror_id: Seq<char>,
    report: MirrorStatusView,
    bucket: Seq<char>,
    key: Seq<char>,
)
    requires
        bucket != status_bucket() || key != status_key(worker_id, mirror_id),
    ensures
        kv_get(spec_update(b, worker_id, mirror_id, report), bucket, key) == kv_get(b, bucket, key),
{
}

/// An update touches the status of one mirror only: the status of every
/// other mirror reads as before.
pub proof fn lemma_update_leaves_other_mirrors(
    b: Buckets,
    worker_id: Seq<char>,
    mirror_id: Seq<char>,
    report: MirrorStatusView,
    other_worker: Seq<char>,
    other_mirror: Seq<char>,
)
    requires
        other_worker != worker_id || other_mirror != mirror_id,
    ensures
        spec_lookup_status(
            spec_update(b, worker_id, mirror_id, report),
            other_worker,
            other_mirror,
        ) == spec_lookup_status(b, other_worker, other_mirror),
{
    if status_key(other_worker, other_mirror) == status_key(worker_id, mirror_id) {
        lemma_status_key_injective(other_worker, other_mirror, worker_id, mirror_id);
    }
}

/// Whether `list` holds, in order, the record of each item.
pub open spec fn statuses_of_items(items: Seq<(String, Vec<u8>)>, list: Seq<MirrorStatus>) -> bool {
    &&& list.len() == items.len()
    &&& forall|i: int|
        0 <= i < items.len() ==> decode_mirror_status(items[i].1@) == Some(#[trigger] list[i]@)
}

/// Whether item `i` is the first that holds no status record, and `e` the
/// error that names its key.
pub open spec fn first_corrupt_status(
    items: Seq<(String, Vec<u8>)>,
    i: int,
    e: AdapterError,
) -> bool {
    &&& 0 <= i < items.len()
    &&& decode_mirror_status(items[i].1@) is None
    &&& e matches AdapterError::Corrupt(key) && key@ == items[i].0@
    &&& forall|j: int| 0 <= j < i ==> decode_mirror_status(#[trigger] items[j].1@) is Some
}

/// Reads the status records out of the entries of the status bucket. Fails
/// on the first entry that holds no record, with the key of that entry.
pub fn statuses_from_entries(items: &Vec<(String, Vec<u8>)>) -> (r: Result<
    Vec<MirrorStatus>,
    AdapterError,
>)
    ensures
        match r {
            Ok(list) => statuses_of_items(items@, list@),
            Err(e) => exists|i: int| #[trigger] first_corrupt_status(items@, i, e),
        },
{
    let mut list: Vec<MirrorStatus> = Vec::new();
    let mut i: usize = 0;
    while i < items.len()
        invariant
            i <= items.len(),
            list.len() == i,
            forall|k: int|
                0 <= k < i ==> decode_mirror_status(items[k].1@) == Some(#[trigger] list[k]@),
            forall|k: int| 0 <= k < i ==> decode_mirror_status(#[trigger] items[k].1@) is Some,
        decreases items.len() - i,
    {
        match decode_mirror_status_bytes(items[i].1.as_slice()) {
            Some(status) => list.push(status),
            None => {
                let e = AdapterError::Corrupt(items[i].0.clone());
                assert(first_corrupt_status(items@, i as int, e));
                return Err(e);
            },
        }
        i += 1;
    }
    Ok(list)
}

/// An entry as plain values: its key and its bytes.
pub open spec fn entry_views(items: Seq<(String, Vec<u8>)>) -> Seq<(Seq<char>, Seq<u8>)> {
    Seq::new(items.len(), |i: int| (items[i].0@, items[i].1@))
}

/// The entries whose key begins with `prefix`, in the order in which they
/// stand.
pub open spec fn entries_with_prefix(
    entries: Seq<(Seq<char>, Seq<u8>)>,
    prefix: Seq<char>,
) -> Seq<(Seq<char>, Seq<u8>)>
    decreases entries.len(),
{
    if entries.len() == 0 {
        Seq::empty()
    } else if is_prefix(prefix, entries.last().0) {
        entries_with_prefix(entries.drop_last(), prefix).push(entries.last())
    } else {
        entries_with_prefix(entries.drop_last(), prefix)
    }
}

/// Every entry that was picked is one of the entries, and its key begins
/// with the prefix.
pub proof fn lemma_entries_with_prefix(entries: Seq<(Seq<char>, Seq<u8>)>, prefix: Seq<char>)
    ensures
        forall|j: int|
            0 <= j < entries_with_prefix(entries, prefix).len() ==> is_prefix(
                prefix,
                (#[trigger] entries_with_prefix(entries, prefix)[j]).0,
            ) && exists|i: int|
                0 <= i < entries.len() && #[trigger] entries[i] == entries_with_prefix(
                    entries,
                    prefix,
                )[j],
    decreases entries.len(),
{
    if entries.len() > 0 {
        let front = entries.drop_last();
        lemma_entries_with_prefix(front, prefix);
        let picked = entries_with_prefix(entries, prefix);
        assert forall|j: int| 0 <= j < picked.len() implies is_prefix(
            prefix,
            (#[trigger] picked[j]).0,
        ) && exists|i: int| 0 <= i < entries.len() && #[trigger] entries[i] == picked[j] by {
            if j < entries_with_prefix(front, prefix).len() {
                let was = entries_with_prefix(front, prefix)[j];
                assert(picked[j] == was);
                let i = choose|i: int| 0 <= i < front.len() && #[trigger] front[i] == was;
                assert(entries[i] == front[i]);
            } else {
                assert(picked[j] == entries[entries.len() - 1]);
            }
        }
    }
}

/// Whether `list` holds the records of a worker's mirrors: `items` are
/// the entries of the bucket, `mine` those of them whose key begins with
/// the worker's prefix, and `list` holds, in order, the record of each of
/// these.
pub open spec fn lists_mirrors_of(
    entries: Map<Seq<char>, Seq<u8>>,
    worker: Seq<char>,
    items: Seq<(String, Vec<u8>)>,
    mine: Seq<(String, Vec<u8>)>,
    list: Seq<MirrorStatus>,
) -> bool {
    &&& lists_entries(items, entries)
    &&& entry_views(mine) == entries_with_prefix(entry_views(items), worker_prefix(worker))
    &&& statuses_of_items(mine, list)
}

/// Picks the entries of one worker's mirrors: those whose key begins with
/// the worker's prefix.
pub fn entries_of_worker(items: &Vec<(String, Vec<u8>)>, worker_id: &str) -> (mine: Vec<
    (String, Vec<u8>),
>)
    ensures
        entry_views(mine@) == entries_with_prefix(entry_views(items@), worker_prefix(worker_id@)),
{
    let prefix = make_worker_prefix(worker_id);
    let ghost views = entry_views(items@);
    let mut mine: Vec<(String, Vec<u8>)> = Vec::new();
    let mut i: usize = 0;
    assert(entry_views(mine@) =~= entries_with_prefix(views.subrange(0, 0), prefix@));
    while i < items.len()
        invariant
            i <= items.len(),
            views == entry_views(items@),
            prefix@ == worker_prefix(worker_id@),
            entry_views(mine@) == entries_with_prefix(views.subrange(0, i as int), prefix@),
        decreases items.len() - i,
    {
        proof {
            let next = views.subrange(0, i + 1);
            assert(next.drop_last() =~= views.subrange(0, i as int));
            assert(next.last() == (items[i as int].0@, items[i as int].1@));
        }
        let ghost before = entry_views(mine@);
        if starts_with(items[i].0.as_str(), prefix.as_str()) {
            let key = items[i].0.clone();
            let value = slice_to_vec(items[i].1.as_slice());
            mine.push((key, value));
            assert(entry_views(mine@) =~= before.push((items[i as int].0@, items[i as int].1@)));
        }
        i += 1;
    }
    assert(views.subrange(0, i as int) =~= views);
    mine
}

/// Whether the bytes hold the record of a disabled mirror.
#[verifier::opaque]
pub open spec fn is_disabled_record(bytes: Seq<u8>) -> bool {
    decode_mirror_status(bytes) matches Some(m) && m.status == SyncStatus::Disabled
}

/// Whether the entry under a key holds the record of a disabled mirror.
pub open spec fn holds_disabled(entries: Map<Seq<char>, Seq<u8>>, key: Seq<char>) -> bool {
    entries.contains_key(key) && is_disabled_record(entries[key])
}

/// The store without the records of disabled mirrors.
pub open spec fn spec_flush(b: Buckets) -> Buckets {
    let entries = bucket_entries(b, status_bucket());
    b.insert(
        status_bucket(),
        entries.restrict(Set::new(|key: Seq<char>| !holds_disabled(entries, key))),
    )
}

/// Whether reads find the same in both.
pub open spec fn same_reads(before: Buckets, after: Buckets) -> bool {
    forall|bucket: Seq<char>, key: Seq<char>|
        #[trigger] kv_get(after, bucket, key) == kv_get(before, bucket, key)
}

/// The status store, on any key-value backend.
pub struct KvDBAdapter<A: KvAdapterTrait> {
    inner: A,
}

impl<A: KvAdapterTrait> KvDBAdapter<A> {
    /// What the backend under the store holds.
    pub closed spec fn buckets(&self) -> Buckets {
        self.inner.buckets()
    }

    /// A store on this backend. The buckets are not created yet: see
    /// `init`.
    pub fn new(inner: A) -> (store: Self)
        ensures
            store.buckets() == inner.buckets(),
    {
        KvDBAdapter { inner }
    }

    /// Creates the two buckets, each in a transaction of its own. Entries
    /// that are there already are kept, whether or not this succeeds.
    pub fn init(&mut self) -> (r: Result<(), AdapterError>)
        ensures
            r is Ok ==> final(self).buckets() == kv_init(
                kv_init(old(self).buckets(), worker_bucket()),
                status_bucket(),
            ),
            r is Err ==> r->Err_0.is_backend_failure(),
            same_reads(old(self).buckets(), final(self).buckets()),
    {
        let ghost b0 = self.inner.buckets();
        proof {
            crate::kv::lemma_init_bucket_idempotent(b0, worker_bucket());
            crate::kv::lemma_init_bucket_idempotent(
                kv_init(b0, worker_bucket()),
                status_bucket(),
            );
            crate::kv::lemma_init_bucket_idempotent(b0, status_bucket());
        }
        match self.inner.init_bucket("workers") {
            Ok(()) => {},
            Err(e) => {
                return Err(e);
            },
        }
        match self.inner.init_bucket("mirror_status") {
            Ok(()) => Ok(()),
            Err(e) => Err(e),
        }
    }

    /// Every registered worker.
    pub fn list_workers(&self) -> (r: Result<Vec<WorkerStatus>, AdapterError>)
        ensures
            match r {
                Ok(list) => self.buckets().contains_key(worker_bucket()) && exists|
                    items: Seq<(String, Vec<u8>)>,
                |
                    lists_entries(items, self.buckets()[worker_bucket()]) && #[trigger] workers_of_items(
                        items,
                        list@,
                    ),
                Err(e) => e.is_backend_failure() || (e matches AdapterError::Corrupt(key)
                    && kv_get(self.buckets(), worker_bucket(), key@) matches Some(bytes)
                    && decode_worker_status(bytes) is None),
            },
    {
        let items = match self.inner.get_all("workers") {
            Ok(items) => items,
            Err(e) => {
                return Err(e);
            },
        };
        match workers_from_entries(&items) {
            Ok(list) => {
                assert(workers_of_items(items@, list@));
                Ok(list)
            },
            Err(e) => {
                proof {
                    let i = choose|i: int| #[trigger] first_corrupt_worker(items@, i, e);
                    assert(self.buckets()[worker_bucket()].contains_key(items@[i].0@));
                }
                Err(e)
            },
        }
    }

    /// The worker registered under this id.
    pub fn get_worker(&self, worker_id: &str) -> (r: Result<WorkerStatus, AdapterError>)
        ensures
            match r {
                Ok(worker) => spec_lookup_worker(self.buckets(), worker_id@) == Some(worker@),
                Err(AdapterError::WorkerNotFound(id)) => id@ == worker_id@ && kv_get(
                    self.buckets(),
                    worker_bucket(),
                    worker_id@,
                ) is None,
                Err(AdapterError::Corrupt(key)) => key@ == worker_id@ && kv_get(
                    self.buckets(),
                    worker_bucket(),
                    worker_id@,
                ) is Some && spec_lookup_worker(self.buckets(), worker_id@) is None,
                Err(e) => e.is_backend_failure(),
            },
    {
        match self.inner.get("workers", worker_id) {
            Ok(found) => worker_from_entry(worker_id, found),
            Err(e) => Err(e),
        }
    }

    /// Removes a worker. To remove a worker that is not registered is no
    /// error.
    pub fn delete_worker(&mut self, worker_id: &str) -> (r: Result<(), AdapterError>)
        ensures
            r is Ok ==> final(self).buckets() == kv_delete(
                old(self).buckets(),
                worker_bucket(),
                worker_id@,
            ),
            r matches Err(e) ==> failed_write(
                e,
                old(self).buckets(),
                final(self).buckets(),
                kv_delete(old(self).buckets(), worker_bucket(), worker_id@),
            ),
    {
        self.inner.delete("workers", worker_id)
    }

    /// Registers a worker. A worker that is registered already is refused,
    /// and its record stays as it is, whatever else happens.
    pub fn create_worker(&mut self, w: WorkerStatus) -> (r: Result<WorkerStatus, AdapterError>)
        ensures
            match r {
                Ok(stored) => stored@ == w@ && kv_get(
                    old(self).buckets(),
                    worker_bucket(),
                    w.id@,
                ) is None && final(self).buckets() == kv_put(
                    old(self).buckets(),
                    worker_bucket(),
                    w.id@,
                    enc_worker_status(w@),
                ) && spec_lookup_worker(final(self).buckets(), w.id@) == Some(w@),
                Err(AdapterError::WorkerExists(id)) => id@ == w.id@ && kv_get(
                    old(self).buckets(),
                    worker_bucket(),
                    w.id@,
                ) is Some && final(self).buckets() == old(self).buckets(),
                Err(e) => failed_write(
                    e,
                    old(self).buckets(),
                    final(self).buckets(),
                    kv_put(old(self).buckets(), worker_bucket(), w.id@, enc_worker_status(w@)),
                ),
            },
            kv_get(old(self).buckets(), worker_bucket(), w.id@) is Some ==> final(self).buckets()
                == old(self).buckets(),
    {
        let found = match self.inner.get("workers", w.id.as_str()) {
            Ok(found) => found,
            Err(e) => {
                return Err(e);
            },
        };
        let bytes = match registration_entry(&w, &found) {
            Ok(bytes) => bytes,
            Err(e) => {
                return Err(e);
            },
        };
        match self.inner.put("workers", w.id.as_str(), bytes.as_slice()) {
            Ok(()) => Ok(w),
            Err(e) => Err(e),
        }
    }

    /// Records that a worker was seen at `now`. A worker that is not
    /// registered is refused.
    pub fn refresh_worker(&mut self, worker_id: &str, now: Timestamp) -> (r: Result<
        WorkerStatus,
        AdapterError,
    >)
        ensures
            match r {
                Ok(stored) => spec_lookup_worker(old(self).buckets(), worker_id@) matches Some(
                    worker,
                ) && stored@ == refreshed(worker, now) && final(self).buckets() == kv_put(
                    old(self).buckets(),
                    worker_bucket(),
                    worker_id@,
                    enc_worker_status(stored@),
                ) && spec_lookup_worker(final(self).buckets(), worker_id@) == Some(stored@),
                Err(AdapterError::WorkerNotFound(id)) => id@ == worker_id@ && kv_get(
                    old(self).buckets(),
                    worker_bucket(),
                    worker_id@,
                ) is None && final(self).buckets() == old(self).buckets(),
                Err(AdapterError::Corrupt(key)) => key@ == worker_id@ && spec_lookup_worker(
                    old(self).buckets(),
                    worker_id@,
                ) is None && final(self).buckets() == old(self).buckets(),
                Err(e) => e.is_backend_failure() && (!(e is Commit) ==> final(self).buckets()
                    == old(self).buckets()) && (final(self).buckets() == old(self).buckets()
                    || (spec_lookup_worker(old(self).buckets(), worker_id@) matches Some(worker)
                    && final(self).buckets() == kv_put(
                    old(self).buckets(),
                    worker_bucket(),
                    worker_id@,
                    enc_worker_status(refreshed(worker, now)),
                ))),
            },
    {
        let found = match self.inner.get("workers", worker_id) {
            Ok(found) => found,
            Err(e) => {
                return Err(e);
            },
        };
        let mut worker = match worker_from_entry(worker_id, found) {
            Ok(worker) => worker,
            Err(e) => {
                return Err(e);
            },
        };
        worker.last_online = now;
        let bytes = encode_worker_status(&worker);
        match self.inner.put("workers", worker_id, bytes.as_slice()) {
            Ok(()) => Ok(worker),
            Err(e) => Err(e),
        }
    }

    /// Applies a status report: the report is stored as it is under the
    /// worker and the mirror, unless its `last_update` is older than that
    /// of the record that is there, which then stays. Returns the record
    /// that is stored afterwards.
    pub fn update_mirror_status(
        &mut self,
        worker_id: &str,
        mirror_id: &str,
        status: MirrorStatus,
    ) -> (r: Result<MirrorStatus, AdapterError>)
        ensures
            match r {
                Ok(stored) => final(self).buckets() == spec_update(
                    old(self).buckets(),
                    worker_id@,
                    mirror_id@,
                    status@,
                ) && stored@ == spec_accept(
                    spec_lookup_status(old(self).buckets(), worker_id@, mirror_id@),
                    status@,
                ) && spec_lookup_status(final(self).buckets(), worker_id@, mirror_id@) == Some(
                    stored@,
                ),
                Err(e) => failed_write(
                    e,
                    old(self).buckets(),
                    final(self).buckets(),
                    spec_update(old(self).buckets(), worker_id@, mirror_id@, status@),
                ),
            },
    {
        let key = make_status_key(worker_id, mirror_id);
        let found = match self.inner.get("mirror_status", key.as_str()) {
            Ok(found) => found,
            Err(e) => {
                return Err(e);
            },
        };
        let current = match found {
            Some(bytes) => decode_mirror_status_bytes(bytes.as_slice()),
            None => None,
        };
        let (stored, write) = accept_report(current, status);
        if write {
            let bytes = encode_mirror_status(&stored);
            match self.inner.put("mirror_status", key.as_str(), bytes.as_slice()) {
                Ok(()) => {},
                Err(e) => {
                    return Err(e);
                },
            }
        }
        Ok(stored)
    }

    /// The status stored for a mirror of a worker.
    pub fn get_mirror_status(&self, worker_id: &str, mirror_id: &str) -> (r: Result<
        MirrorStatus,
        AdapterError,
    >)
        ensures
            match r {
                Ok(status) => spec_lookup_status(
                    self.buckets(),
                    worker_id@,
                    mirror_id@,
                ) == Some(status@),
                Err(AdapterError::MirrorNotFound(worker, mirror)) => worker@ == worker_id@
                    && mirror@ == mirror_id@ && kv_get(
                    self.buckets(),
                    status_bucket(),
                    status_key(worker_id@, mirror_id@),
                ) is None,
                Err(AdapterError::Corrupt(key)) => key@ == status_key(
                    worker_id@,
                    mirror_id@,
                ) && kv_get(self.buckets(), status_bucket(), key@) is Some && spec_lookup_status(
                    self.buckets(),
                    worker_id@,
                    mirror_id@,
                ) is None,
                Err(e) => e.is_backend_failure(),
            },
    {
        let key = make_status_key(worker_id, mirror_id);
        match self.inner.get("mirror_status", key.as_str()) {
            Ok(found) => status_from_entry(worker_id, mirror_id, found),
            Err(e) => Err(e),
        }
    }

    /// The status of every mirror of every worker, as one read transaction
    /// saw them.
    pub fn list_all_mirror_status(&self) -> (r: Result<Vec<MirrorStatus>, AdapterError>)
        ensures
            match r {
                Ok(list) => self.buckets().contains_key(status_bucket()) && exists|
                    items: Seq<(String, Vec<u8>)>,
                |
                    lists_entries(items, self.buckets()[status_bucket()]) && #[trigger] statuses_of_items(
                        items,
                        list@,
                    ),
                Err(e) => e.is_backend_failure() || (e matches AdapterError::Corrupt(key)
                    && kv_get(self.buckets(), status_bucket(), key@) matches Some(bytes)
                    && decode_mirror_status(bytes) is None),
            },
    {
        let items = match self.inner.get_all("mirror_status") {
            Ok(items) => items,
            Err(e) => {
                return Err(e);
            },
        };
        match statuses_from_entries(&items) {
            Ok(list) => {
                assert(statuses_of_items(items@, list@));
                Ok(list)
            },
            Err(e) => {
                proof {
                    let i = choose|i: int| #[trigger] first_corrupt_status(items@, i, e);
                    assert(self.buckets()[status_bucket()].contains_key(items@[i].0@));
                }
                Err(e)
            },
        }
    }

    /// The status of every mirror of one worker, as one read transaction
    /// saw them: the records under the keys that begin with the worker's
    /// prefix.
    pub fn list_mirror_status(
        &self,
        worker_id: &str,
    ) -> (r: Result<Vec<MirrorStatus>, AdapterError>)
        ensures
            match r {
                Ok(list) => self.buckets().contains_key(status_bucket()) && exists|
                    items: Seq<(String, Vec<u8>)>,
                    mine: Seq<(String, Vec<u8>)>,
                | #[trigger]
                    lists_mirrors_of(
                        self.buckets()[status_bucket()],
                        worker_id@,
                        items,
                        mine,
                        list@,
                    ),
                Err(e) => e.is_backend_failure() || (e matches AdapterError::Corrupt(key)
                    && is_prefix(worker_prefix(worker_id@), key@) && spec_status_of(
                    kv_get(self.buckets(), status_bucket(), key@),
                ) is None && kv_get(self.buckets(), status_bucket(), key@) is Some),
            },
    {
        let items = match self.inner.get_all("mirror_status") {
            Ok(items) => items,
            Err(e) => {
                return Err(e);
            },
        };
        let mine = entries_of_worker(&items, worker_id);
        match statuses_from_entries(&mine) {
            Ok(list) => {
                assert(lists_mirrors_of(
                    self.buckets()[status_bucket()],
                    worker_id@,
                    items@,
                    mine@,
                    list@,
                ));
                Ok(list)
            },
            Err(e) => {
                proof {
                    let j = choose|j: int| #[trigger] first_corrupt_status(mine@, j, e);
                    let picked = entry_views(mine@);
                    lemma_entries_with_prefix(entry_views(items@), worker_prefix(worker_id@));
                    assert(picked[j] == (mine@[j].0@, mine@[j].1@));
                    let i = choose|i: int|
                        0 <= i < entry_views(items@).len() && #[trigger] entry_views(items@)[i]
                            == picked[j];
                    assert(entry_views(items@)[i] == (items@[i].0@, items@[i].1@));
                    assert(self.buckets()[status_bucket()].contains_key(items@[i].0@));
                }
                Err(e)
            },
        }
    }

    /// Removes the status records of disabled mirrors: what is left when
    /// mirrors were taken out of a worker's configuration. The records are
    /// read in one transaction and removed in one transaction: where that
    /// fails before its commit, the store is as it was. Nothing else is
    /// touched; entries that hold no record stay.
    pub fn flush_disabled_jobs(&mut self) -> (r: Result<(), AdapterError>)
        ensures
            r is Ok ==> old(self).buckets().contains_key(status_bucket()) && final(self).buckets()
                == spec_flush(old(self).buckets()),
            r matches Err(e) ==> failed_write(
                e,
                old(self).buckets(),
                final(self).buckets(),
                spec_flush(old(self).buckets()),
            ),
    {
        let items = match self.inner.get_all("mirror_status") {
            Ok(items) => items,
            Err(e) => {
                return Err(e);
            },
        };
        let keys = disabled_keys(&items);
        proof {
            lemma_flush_removes_disabled_keys(self.inner.buckets(), items@, keys@);
        }
        if keys.len() == 0 {
            return Ok(());
        }
        self.inner.delete_many("mirror_status", &keys)
    }

    pub fn close(&mut self) -> (r: Result<(), AdapterError>)
        ensures
            final(self).buckets() == old(self).buckets(),
            r is Err ==> r->Err_0.is_backend_failure(),
    {
        self.inner.close()
    }
}

/// Whether one of the items under `key` holds the record of a disabled
/// mirror.
pub open spec fn names_disabled(items: Seq<(String, Vec<u8>)>, key: Seq<char>) -> bool {
    exists|i: int|
        0 <= i < items.len() && (#[trigger] items[i]).0@ == key && is_disabled_record(
            items[i].1@,
        )
}

/// Whether the bytes hold the record of a disabled mirror.
pub fn is_disabled_entry(bytes: &[u8]) -> (disabled: bool)
    ensures
        disabled == is_disabled_record(bytes@),
{
    proof {
        reveal(is_disabled_record);
    }
    match decode_mirror_status_bytes(bytes) {
        Some(status) => status.status == SyncStatus::Disabled,
        None => false,
    }
}

/// The keys of the entries that hold the record of a disabled mirror.
pub fn disabled_keys(items: &Vec<(String, Vec<u8>)>) -> (keys: Vec<String>)
    ensures
        forall|key: Seq<char>| key_set(keys@).contains(key) <==> names_disabled(items@, key),
{
    let mut keys: Vec<String> = Vec::new();
    let mut i: usize = 0;
    while i < items.len()
        invariant
            i <= items.len(),
            forall|key: Seq<char>|
                key_set(keys@).contains(key) <==> names_disabled(items@.subrange(0, i as int), key),
        decreases items.len() - i,
    {
        let ghost before = keys@;
        let ghost seen = items@.subrange(0, i as int);
        let ghost next = items@.subrange(0, i + 1);
        let disabled = is_disabled_entry(items[i].1.as_slice());
        if disabled {
            keys.push(items[i].0.clone());
        }
        proof {
            assert forall|key: Seq<char>| key_set(keys@).contains(key) <==> names_disabled(
                next,
                key,
            ) by {
                if key_set(keys@).contains(key) {
                    let j = choose|j: int| 0 <= j < keys@.len() && #[trigger] keys@[j]@ == key;
                    if j < before.len() {
                        assert(before[j]@ == key);
                        assert(key_set(before).contains(key));
                        assert(names_disabled(seen, key));
                        let k = choose|k: int|
                            0 <= k < seen.len() && (#[trigger] seen[k]).0@ == key
                                && is_disabled_record(seen[k].1@);
                        assert(next[k] == seen[k]);
                    } else {
                        assert(next[i as int].0@ == key);
                    }
                }
                if names_disabled(next, key) {
                    let k = choose|k: int|
                        0 <= k < next.len() && (#[trigger] next[k]).0@ == key
                            && is_disabled_record(next[k].1@);
                    if k < i {
                        assert(seen[k] == next[k]);
                        assert(names_disabled(seen, key));
                        assert(key_set(before).contains(key));
                        let j = choose|j: int|
                            0 <= j < before.len() && #[trigger] before[j]@ == key;
                        assert(keys@[j] == before[j]);
                        assert(keys@[j]@ == key);
                    } else {
                        assert(keys@[keys@.len() - 1]@ == key);
                    }
                }
            }
        }
        i += 1;
    }
    assert(items@.subrange(0, i as int) =~= items@);
    keys
}

/// To remove the keys of the entries that hold the record of a disabled
/// mirror is to flush the store; where there is no such key, the store is
/// flushed as it is.
proof fn lemma_flush_removes_disabled_keys(
    b: Buckets,
    items: Seq<(String, Vec<u8>)>,
    keys: Seq<String>,
)
    requires
        b.contains_key(status_bucket()),
        lists_entries(items, b[status_bucket()]),
        forall|key: Seq<char>| key_set(keys).contains(key) <==> names_disabled(items, key),
    ensures
        kv_delete_many(b, status_bucket(), key_set(keys)) == spec_flush(b),
        keys.len() == 0 ==> spec_flush(b) == b,
{
    let entries = b[status_bucket()];
    let kept = Set::new(|key: Seq<char>| !holds_disabled(entries, key));
    assert forall|key: Seq<char>| entries.contains_key(key) implies (key_set(keys).contains(key)
        <==> holds_disabled(entries, key)) by {
        if key_set(keys).contains(key) {
            assert(names_disabled(items, key));
            let i = choose|i: int|
                0 <= i < items.len() && (#[trigger] items[i]).0@ == key && is_disabled_record(
                    items[i].1@,
                );
            assert(entries[items[i].0@] == items[i].1@);
        }
        if holds_disabled(entries, key) {
            let i = choose|i: int| 0 <= i < items.len() && items[i].0@ == key;
            assert(entries[items[i].0@] == items[i].1@);
            assert(names_disabled(items, key));
        }
    }
    assert(entries.remove_keys(key_set(keys)) =~= entries.restrict(kept));
    if keys.len() == 0 {
        assert(entries.restrict(kept) =~= entries);
        assert(spec_flush(b) =~= b);
    }
}

/// Opens the status store that the configuration names: the backend of
/// type `db_type` on the file `db_file`, with both buckets created.
///
/// A `db_type` that names no backend is refused before anything is opened.
/// Whether the file can be opened and the buckets created is up to the
/// backend.
pub fn make_db_adapter(db_type: &str, db_file: &str) -> (r: Result<
    KvDBAdapter<RedbAdapter>,
    AdapterError,
>)
    ensures
        match DbType::spec_parse(db_type@) {
            None => r matches Err(AdapterError::UnsupportedDbType(given)) && given@ == db_type@,
            Some(_) => match r {
                Ok(store) => store.buckets().contains_key(worker_bucket())
                    && store.buckets().contains_key(status_bucket()),
                Err(e) => e.is_backend_failure(),
            },
        },
{
    let db_type = match DbType::from_str(db_type) {
        Ok(db_type) => db_type,
        Err(e) => {
            return Err(e);
        },
    };
    match db_type {
        DbType::Redb => {
            let backend = match RedbAdapter::open(db_file) {
                Ok(backend) => backend,
                Err(e) => {
                    return Err(e);
                },
            };
            let mut store = KvDBAdapter::new(backend);
            match store.init() {
                Ok(()) => Ok(store),
                Err(e) => Err(e),
            }
        },
    }
}

} // verus!