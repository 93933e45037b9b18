use hustsync::codec::encode_mirror_status;
use hustsync::database::{
    accept_report, disabled_keys, entries_of_worker, is_disabled_entry, make_db_adapter,
    make_status_key, make_worker_prefix, registration_entry, status_from_entry,
    statuses_from_entries, worker_from_entry, workers_from_entries, DbType, KvDBAdapter,
};
use hustsync::db_redb::RedbAdapter;
use hustsync::error::AdapterError;
use hustsync::kv::KvAdapterTrait;
use hustsync::msg::{MirrorStatus, WorkerStatus};
use hustsync::status::SyncStatus;
use hustsync::time::Timestamp;

fn backend() -> RedbAdapter {
    let db = redb::Database::builder()
        .create_with_backend(redb::backends::InMemoryBackend::new())
        .unwrap();
    RedbAdapter::new(db)
}

fn store() -> KvDBAdapter<RedbAdapter> {
    let mut store = KvDBAdapter::new(backend());
    store.init().unwrap();
    store
}

fn worker(id: &str) -> WorkerStatus {
    WorkerStatus {
        id: id.to_string(),
        url: format!("http://{}:6000/", id),
        token: "t".to_string(),
        last_online: Timestamp::new(100, 0),
        last_register: Timestamp::new(100, 0),
    }
}

fn report(name: &str, worker: &str, status: SyncStatus, updated: i64) -> MirrorStatus {
    MirrorStatus {
        name: name.to_string(),
        worker: worker.to_string(),
        upstream: "rsync://upstream/".to_string(),
        size: "5GB".to_string(),
        error_msg: String::new(),
        last_update: Timestamp::new(updated, 0),
        last_started: Timestamp::new(updated - 10, 0),
        lastt_ended: Timestamp::new(updated, 0),
        next_scheduled: Timestamp::new(updated + 120, 0),
        status,
        is_master: true,
    }
}

#[test]
fn db_type_names() {
    assert_eq!(DbType::from_str("redb"), Ok(DbType::Redb));
    assert_eq!(DbType::from_str("  ReDB\t\n"), Ok(DbType::Redb));
    assert_eq!(DbType::from_str("\u{3000}REDB\u{a0}"), Ok(DbType::Redb));
    assert_eq!(DbType::Redb.name(), "Redb");
    assert_eq!(DbType::from_str(DbType::Redb.name()), Ok(DbType::Redb));
    for name in ["bolt", "", "redis", "red b", "redbb", "xredb", "r\u{e9}db", "_redb"] {
        assert_eq!(
            DbType::from_str(name),
            Err(AdapterError::UnsupportedDbType(name.to_string()))
        );
        assert_ne!(name.trim().to_ascii_lowercase(), "redb");
    }
}

#[test]
fn unknown_backend_type_fails_before_anything_is_opened() {
    match make_db_adapter("leveldb", "/nonexistent-directory/never/created.db") {
        Err(AdapterError::UnsupportedDbType(name)) => assert_eq!(name, "leveldb"),
        Err(other) => panic!("unexpected error: {:?}", other),
        Ok(_) => panic!("a store was opened"),
    }
}

#[test]
fn a_file_that_cannot_be_opened_is_an_init_error() {
    match make_db_adapter("redb", "/nonexistent-directory/never/created.db") {
        Err(AdapterError::InitError(_)) => {}
        Err(other) => panic!("unexpected error: {:?}", other),
        Ok(_) => panic!("a store was opened"),
    }
}

#[test]
fn make_db_adapter_opens_a_store_with_both_buckets() {
    let mut store = make_db_adapter(" Redb ", "/tmp/hustsync-test-make-db-adapter.redb").unwrap();
    assert!(store.list_workers().is_ok());
    assert!(store.list_all_mirror_status().is_ok());
    store.close().unwrap();
}

#[test]
fn init_twice_keeps_what_is_stored() {
    let mut store = store();
    store.create_worker(worker("w1")).unwrap();
    store.init().unwrap();
    store.init().unwrap();
    assert_eq!(store.get_worker("w1").unwrap(), worker("w1"));
}

#[test]
fn workers_are_registered_once() {
    let mut store = store();
    assert_eq!(store.create_worker(worker("w1")).unwrap(), worker("w1"));
    assert_eq!(store.get_worker("w1").unwrap(), worker("w1"));
    let mut again = worker("w1");
    again.url = "http://elsewhere/".to_string();
    assert_eq!(
        store.create_worker(again),
        Err(AdapterError::WorkerExists("w1".to_string()))
    );
    assert_eq!(store.get_worker("w1").unwrap(), worker("w1"));
}

#[test]
fn unknown_worker() {
    let mut store = store();
    assert_eq!(store.get_worker("w9"), Err(AdapterError::WorkerNotFound("w9".to_string())));
    assert_eq!(
        store.refresh_worker("w9", Timestamp::new(5, 0)),
        Err(AdapterError::WorkerNotFound("w9".to_string()))
    );
    assert_eq!(store.delete_worker("w9"), Ok(()));
}

#[test]
fn refresh_updates_last_online_only() {
    let mut store = store();
    store.create_worker(worker("w1")).unwrap();
    let mut expected = worker("w1");
    expected.last_online = Timestamp::new(500, 7);
    assert_eq!(store.refresh_worker("w1", Timestamp::new(500, 7)).unwrap(), expected);
    assert_eq!(store.get_worker("w1").unwrap(), expected);
}

#[test]
fn workers_are_listed_and_deleted() {
    let mut store = store();
    assert!(store.list_workers().unwrap().is_empty());
    store.create_worker(worker("w2")).unwrap();
    store.create_worker(worker("w1")).unwrap();
    let mut ids: Vec<String> = store.list_workers().unwrap().into_iter().map(|w| w.id).collect();
    ids.sort();
    assert_eq!(ids, vec!["w1", "w2"]);
    store.delete_worker("w1").unwrap();
    assert_eq!(store.list_workers().unwrap(), vec![worker("w2")]);
    assert_eq!(store.get_worker("w1"), Err(AdapterError::WorkerNotFound("w1".to_string())));
}

#[test]
fn update_then_get_returns_the_record_written() {
    let mut store = store();
    let r = report("elvish", "w1", SyncStatus::Success, 1000);
    assert_eq!(store.update_mirror_status("w1", "elvish", r.clone()).unwrap(), r);
    assert_eq!(store.get_mirror_status("w1", "elvish").unwrap(), r);
    let newer = report("elvish", "w1", SyncStatus::Failed, 2000);
    assert_eq!(store.update_mirror_status("w1", "elvish", newer.clone()).unwrap(), newer);
    assert_eq!(store.get_mirror_status("w1", "elvish").unwrap(), newer);
}

#[test]
fn a_report_is_stored_as_it_is_given() {
    let mut store = store();
    let r = report("some-name", "some-worker", SyncStatus::Success, 1000);
    let stored = store.update_mirror_status("w1", "elvish", r.clone()).unwrap();
    assert_eq!(stored, r);
    assert_eq!(store.get_mirror_status("w1", "elvish").unwrap(), r);
    assert_eq!(store.list_mirror_status("w1").unwrap(), vec![r.clone()]);
    assert!(store.list_mirror_status("some-worker").unwrap().is_empty());
    assert_eq!(store.update_mirror_status("w1", "elvish", r.clone()).unwrap(), r);
    assert_eq!(store.list_all_mirror_status().unwrap(), vec![r]);
}

#[test]
fn a_stale_report_does_not_change_the_stored_record() {
    let mut store = store();
    let current = report("elvish", "w1", SyncStatus::Success, 2000);
    store.update_mirror_status("w1", "elvish", current.clone()).unwrap();
    let stale = report("elvish", "w1", SyncStatus::Syncing, 1999);
    assert_eq!(store.update_mirror_status("w1", "elvish", stale).unwrap(), current);
    assert_eq!(store.get_mirror_status("w1", "elvish").unwrap(), current);
    let mut by_a_nanosecond = report("elvish", "w1", SyncStatus::Failed, 2000);
    by_a_nanosecond.last_update = Timestamp::new(1999, 999_999_999);
    assert_eq!(store.update_mirror_status("w1", "elvish", by_a_nanosecond).unwrap(), current);
    let replay = report("elvish", "w1", SyncStatus::Paused, 2000);
    assert_eq!(store.update_mirror_status("w1", "elvish", replay.clone()).unwrap(), replay);
    assert_eq!(store.get_mirror_status("w1", "elvish").unwrap(), replay);
}

#[test]
fn accept_report_keeps_the_newer_record() {
    let stored = report("m", "w", SyncStatus::Success, 50);
    let older = report("m", "w", SyncStatus::Failed, 49);
    let same = report("m", "w", SyncStatus::Failed, 50);
    assert_eq!(accept_report(Some(stored.clone()), older), (stored.clone(), false));
    assert_eq!(accept_report(Some(stored.clone()), same.clone()), (same.clone(), true));
    assert_eq!(accept_report(None, same.clone()), (same, true));
}

#[test]
fn status_of_an_unknown_mirror() {
    let store = store();
    assert_eq!(
        store.get_mirror_status("w1", "elvish"),
        Err(AdapterError::MirrorNotFound("w1".to_string(), "elvish".to_string()))
    );
}

#[test]
fn status_is_listed_by_worker() {
    let mut store = store();
    store.update_mirror_status("w1", "a", report("a", "w1", SyncStatus::Success, 1)).unwrap();
    store.update_mirror_status("w2", "a", report("a", "w2", SyncStatus::Failed, 2)).unwrap();
    store.update_mirror_status("w1", "b", report("b", "w1", SyncStatus::Paused, 3)).unwrap();
    let mut all: Vec<(String, String)> = store
        .list_all_mirror_status()
        .unwrap()
        .into_iter()
        .map(|m| (m.worker, m.name))
        .collect();
    all.sort();
    assert_eq!(
        all,
        vec![
            ("w1".to_string(), "a".to_string()),
            ("w1".to_string(), "b".to_string()),
            ("w2".to_string(), "a".to_string()),
        ]
    );
    let mut of_w1: Vec<String> =
        store.list_mirror_status("w1").unwrap().into_iter().map(|m| m.name).collect();
    of_w1.sort();
    assert_eq!(of_w1, vec!["a", "b"]);
    assert_eq!(
        store.list_mirror_status("w2").unwrap(),
        vec![report("a", "w2", SyncStatus::Failed, 2)]
    );
    assert!(store.list_mirror_status("w3").unwrap().is_empty());
}

#[test]
fn flush_removes_the_records_of_disabled_mirrors_only() {
    let mut store = store();
    store.create_worker(worker("w1")).unwrap();
    store.update_mirror_status("w1", "a", report("a", "w1", SyncStatus::Disabled, 1)).unwrap();
    store.update_mirror_status("w1", "b", report("b", "w1", SyncStatus::Success, 2)).unwrap();
    store.update_mirror_status("w2", "c", report("c", "w2", SyncStatus::Disabled, 3)).unwrap();
    store.update_mirror_status("w2", "d", report("d", "w2", SyncStatus::Paused, 4)).unwrap();
    store.flush_disabled_jobs().unwrap();
    let mut left: Vec<String> =
        store.list_all_mirror_status().unwrap().into_iter().map(|m| m.name).collect();
    left.sort();
    assert_eq!(left, vec!["b", "d"]);
    assert_eq!(store.get_worker("w1").unwrap(), worker("w1"));
    store.flush_disabled_jobs().unwrap();
    assert_eq!(store.list_all_mirror_status().unwrap().len(), 2);
}

#[test]
fn entries_that_hold_no_record_are_reported() {
    let mut kv = backend();
    kv.init_bucket("workers").unwrap();
    kv.init_bucket("mirror_status").unwrap();
    kv.put("workers", "w1", b"not a record").unwrap();
    kv.put("mirror_status", "2:w1/elvish", b"\x00").unwrap();
    let mut store = KvDBAdapter::new(kv);
    assert_eq!(store.get_worker("w1"), Err(AdapterError::Corrupt("w1".to_string())));
    assert_eq!(store.list_workers(), Err(AdapterError::Corrupt("w1".to_string())));
    assert_eq!(
        store.refresh_worker("w1", Timestamp::new(1, 0)),
        Err(AdapterError::Corrupt("w1".to_string()))
    );
    assert_eq!(
        store.get_mirror_status("w1", "elvish"),
        Err(AdapterError::Corrupt("2:w1/elvish".to_string()))
    );
    assert_eq!(
        store.list_all_mirror_status(),
        Err(AdapterError::Corrupt("2:w1/elvish".to_string()))
    );
    assert_eq!(
        store.list_mirror_status("w1"),
        Err(AdapterError::Corrupt("2:w1/elvish".to_string()))
    );
    store.flush_disabled_jobs().unwrap();
    let r = report("elvish", "w1", SyncStatus::Success, 10);
    assert_eq!(store.update_mirror_status("w1", "elvish", r.clone()).unwrap(), r);
    assert_eq!(store.get_mirror_status("w1", "elvish").unwrap(), r);
}

#[test]
fn a_store_that_was_not_initialised_reports_the_backend() {
    let store = KvDBAdapter::new(backend());
    assert!(matches!(store.list_workers(), Err(AdapterError::Storage(_))));
    assert!(matches!(store.get_worker("w1"), Err(AdapterError::Storage(_))));
    assert!(matches!(store.get_mirror_status("w1", "m"), Err(AdapterError::Storage(_))));
}

#[test]
fn status_keys() {
    assert_eq!(make_status_key("w1", "elvish"), "2:w1/elvish");
    assert_eq!(make_status_key("", ""), "0:/");
    assert_eq!(make_status_key("a/b", "c"), "3:a/b/c");
    assert_eq!(make_status_key("a", "b/c"), "1:a/b/c");
    assert_eq!(make_status_key("worker-eleven", "m"), "13:worker-eleven/m");
    assert_eq!(make_status_key("1:a", "x"), "3:1:a/x");
    assert_eq!(make_status_key("\u{e9}t\u{e9}", "m"), "3:\u{e9}t\u{e9}/m");
    assert_eq!(make_worker_prefix("w1"), "2:w1/");
}

#[test]
fn entries_are_read_in_order() {
    let a = report("a", "w1", SyncStatus::Success, 1);
    let b = report("b", "w2", SyncStatus::Failed, 2);
    let items = vec![
        ("2:w1/a".to_string(), encode_mirror_status(&a)),
        ("2:w2/b".to_string(), encode_mirror_status(&b)),
    ];
    let all = statuses_from_entries(&items).unwrap();
    assert_eq!(all, vec![a.clone(), b.clone()]);
    assert_eq!(entries_of_worker(&items, "w2"), vec![items[1].clone()]);
    assert_eq!(entries_of_worker(&items, "w1"), vec![items[0].clone()]);
    assert!(entries_of_worker(&items, "w").is_empty());
    assert!(entries_of_worker(&items, "w1/a").is_empty());
    let broken = vec![
        items[0].clone(),
        ("x".to_string(), vec![1, 2, 3]),
        ("y".to_string(), Vec::new()),
    ];
    assert_eq!(statuses_from_entries(&broken), Err(AdapterError::Corrupt("x".to_string())));
    assert_eq!(workers_from_entries(&items), Err(AdapterError::Corrupt("2:w1/a".to_string())));
    assert_eq!(workers_from_entries(&Vec::new()), Ok(Vec::new()));
}

#[test]
fn worker_from_what_the_backend_found() {
    assert_eq!(
        worker_from_entry("w1", None),
        Err(AdapterError::WorkerNotFound("w1".to_string()))
    );
    assert_eq!(
        worker_from_entry("w1", Some(vec![0xde, 0xad])),
        Err(AdapterError::Corrupt("w1".to_string()))
    );
    let bytes = hustsync::codec::encode_worker_status(&worker("w1"));
    assert_eq!(worker_from_entry("w1", Some(bytes)), Ok(worker("w1")));
}

#[test]
fn a_refused_registration_leaves_the_stored_worker_as_it_is() {
    let mut store = store();
    let first = worker("w1");
    store.create_worker(first.clone()).unwrap();
    let mut second = worker("w1");
    second.url = "http://other/".to_string();
    second.token = "other".to_string();
    second.last_online = Timestamp::new(999, 9);
    second.last_register = Timestamp::new(999, 9);
    assert_eq!(
        store.create_worker(second),
        Err(AdapterError::WorkerExists("w1".to_string()))
    );
    assert_eq!(store.get_worker("w1").unwrap(), first);
    assert_eq!(store.list_workers().unwrap(), vec![first]);
}

#[test]
fn worker_ids_with_slashes_keep_their_mirrors_apart() {
    let mut store = store();
    store.create_worker(worker("a/b")).unwrap();
    assert_eq!(store.get_worker("a/b").unwrap(), worker("a/b"));
    let first = report("c", "a/b", SyncStatus::Success, 1);
    let second = report("b/c", "a", SyncStatus::Failed, 2);
    store.update_mirror_status("a/b", "c", first.clone()).unwrap();
    store.update_mirror_status("a", "b/c", second.clone()).unwrap();
    assert_eq!(store.get_mirror_status("a/b", "c").unwrap(), first);
    assert_eq!(store.get_mirror_status("a", "b/c").unwrap(), second);
    assert_eq!(store.list_mirror_status("a/b").unwrap(), vec![first]);
    assert_eq!(store.list_mirror_status("a").unwrap(), vec![second]);
    assert_eq!(store.list_all_mirror_status().unwrap().len(), 2);
}

#[test]
fn registration_from_what_the_backend_found() {
    let w = worker("w1");
    assert_eq!(
        registration_entry(&w, &Some(vec![1, 2, 3])),
        Err(AdapterError::WorkerExists("w1".to_string()))
    );
    assert_eq!(
        registration_entry(&w, &Some(Vec::new())),
        Err(AdapterError::WorkerExists("w1".to_string()))
    );
    assert_eq!(
        registration_entry(&w, &None),
        Ok(hustsync::codec::encode_worker_status(&w))
    );
}

#[test]
fn status_from_what_the_backend_found() {
    assert_eq!(
        status_from_entry("w1", "elvish", None),
        Err(AdapterError::MirrorNotFound("w1".to_string(), "elvish".to_string()))
    );
    assert_eq!(
        status_from_entry("w1", "elvish", Some(vec![9, 9])),
        Err(AdapterError::Corrupt("2:w1/elvish".to_string()))
    );
    let r = report("elvish", "w1", SyncStatus::Paused, 7);
    assert_eq!(status_from_entry("w1", "elvish", Some(encode_mirror_status(&r))), Ok(r));
}

#[test]
fn keys_of_disabled_records() {
    let disabled = encode_mirror_status(&report("a", "w1", SyncStatus::Disabled, 1));
    let running = encode_mirror_status(&report("b", "w1", SyncStatus::Syncing, 1));
    assert!(is_disabled_entry(&disabled));
    assert!(!is_disabled_entry(&running));
    assert!(!is_disabled_entry(b"no record"));
    let items = vec![
        ("2:w1/a".to_string(), disabled.clone()),
        ("2:w1/b".to_string(), running),
        ("junk".to_string(), vec![0]),
        ("2:w2/a".to_string(), disabled),
    ];
    assert_eq!(disabled_keys(&items), vec!["2:w1/a", "2:w2/a"]);
    assert!(disabled_keys(&Vec::new()).is_empty());
}
