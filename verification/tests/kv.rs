use hustsync::db_redb::RedbAdapter;
use hustsync::error::AdapterError;
use hustsync::kv::{names_key, stays, KvAdapterTrait};

fn memory() -> RedbAdapter {
    let db = redb::Database::builder()
        .create_with_backend(redb::backends::InMemoryBackend::new())
        .unwrap();
    RedbAdapter::new(db)
}

#[test]
fn get_reflects_the_last_write() {
    let mut kv = memory();
    kv.init_bucket("b").unwrap();
    assert_eq!(kv.get("b", "k").unwrap(), None);
    kv.put("b", "k", b"one").unwrap();
    assert_eq!(kv.get("b", "k").unwrap(), Some(b"one".to_vec()));
    kv.put("b", "k", b"two").unwrap();
    assert_eq!(kv.get("b", "k").unwrap(), Some(b"two".to_vec()));
    kv.delete("b", "k").unwrap();
    assert_eq!(kv.get("b", "k").unwrap(), None);
    kv.put("b", "k", b"").unwrap();
    assert_eq!(kv.get("b", "k").unwrap(), Some(Vec::new()));
    kv.put("b", "k", b"three").unwrap();
    kv.put("b", "other", b"x").unwrap();
    kv.delete("b", "other").unwrap();
    assert_eq!(kv.get("b", "k").unwrap(), Some(b"three".to_vec()));
}

#[test]
fn init_bucket_twice_keeps_the_entries() {
    let mut kv = memory();
    kv.init_bucket("workers").unwrap();
    kv.put("workers", "w1", b"record").unwrap();
    kv.init_bucket("workers").unwrap();
    kv.init_bucket("workers").unwrap();
    assert_eq!(kv.get("workers", "w1").unwrap(), Some(b"record".to_vec()));
    assert_eq!(kv.get_all("workers").unwrap(), vec![("w1".to_string(), b"record".to_vec())]);
}

#[test]
fn delete_of_an_absent_key_is_no_error() {
    let mut kv = memory();
    kv.init_bucket("b").unwrap();
    kv.delete("b", "nothing").unwrap();
    kv.delete("b", "nothing").unwrap();
    assert_eq!(kv.get("b", "nothing").unwrap(), None);
}

#[test]
fn buckets_are_apart() {
    let mut kv = memory();
    kv.init_bucket("a").unwrap();
    kv.init_bucket("b").unwrap();
    kv.put("a", "k", b"in a").unwrap();
    assert_eq!(kv.get("b", "k").unwrap(), None);
    kv.put("b", "k", b"in b").unwrap();
    kv.delete("a", "k").unwrap();
    assert_eq!(kv.get("a", "k").unwrap(), None);
    assert_eq!(kv.get("b", "k").unwrap(), Some(b"in b".to_vec()));
}

#[test]
fn get_all_lists_every_entry_once() {
    let mut kv = memory();
    kv.init_bucket("b").unwrap();
    assert!(kv.get_all("b").unwrap().is_empty());
    kv.put("b", "z", b"26").unwrap();
    kv.put("b", "a", b"1").unwrap();
    kv.put("b", "m", b"13").unwrap();
    kv.put("b", "a", b"one").unwrap();
    let mut all = kv.get_all("b").unwrap();
    all.sort();
    assert_eq!(
        all,
        vec![
            ("a".to_string(), b"one".to_vec()),
            ("m".to_string(), b"13".to_vec()),
            ("z".to_string(), b"26".to_vec()),
        ]
    );
}

#[test]
fn reading_a_bucket_that_does_not_exist_fails() {
    let kv = memory();
    assert!(matches!(kv.get("missing", "k"), Err(AdapterError::Storage(_))));
    assert!(matches!(kv.get_all("missing"), Err(AdapterError::Storage(_))));
}

#[test]
fn writing_creates_the_bucket() {
    let mut kv = memory();
    kv.put("fresh", "k", b"v").unwrap();
    assert_eq!(kv.get("fresh", "k").unwrap(), Some(b"v".to_vec()));
    kv.delete("other", "k").unwrap();
    assert!(kv.get_all("other").unwrap().is_empty());
}

#[test]
fn an_empty_bucket_name_is_refused() {
    let mut kv = memory();
    match kv.init_bucket("") {
        Err(AdapterError::CreateBucketError(bucket, _)) => assert_eq!(bucket, ""),
        other => panic!("unexpected: {:?}", other),
    }
    assert!(matches!(kv.get("", "k"), Err(AdapterError::Storage(_))));
    assert!(matches!(kv.get_all(""), Err(AdapterError::Storage(_))));
    assert!(matches!(kv.put("", "k", b"v"), Err(AdapterError::Storage(_))));
    assert!(matches!(kv.delete("", "k"), Err(AdapterError::Storage(_))));
}

#[test]
fn close_changes_nothing() {
    let mut kv = memory();
    kv.put("b", "k", b"v").unwrap();
    kv.close().unwrap();
    assert_eq!(kv.get("b", "k").unwrap(), Some(b"v".to_vec()));
}

#[test]
fn error_messages() {
    assert_eq!(
        AdapterError::UnsupportedDbType("bolt".to_string()).message(),
        "unsupported db type: bolt"
    );
    assert_eq!(
        AdapterError::InitError("no such directory".to_string()).message(),
        "adapter initialization error: no such directory"
    );
    assert_eq!(
        AdapterError::CreateBucketError("workers".to_string(), "disk full".to_string()).message(),
        "create bucket: workers, error: disk full"
    );
    assert_eq!(AdapterError::Storage("io".to_string()).message(), "storage error: io");
    assert_eq!(AdapterError::Commit("io".to_string()).message(), "commit error: io");

    assert_eq!(
        AdapterError::WorkerExists("w1".to_string()).message(),
        "worker already registered: w1"
    );
    assert_eq!(AdapterError::WorkerNotFound("w1".to_string()).message(), "no such worker: w1");
    assert_eq!(
        AdapterError::MirrorNotFound("w1".to_string(), "elvish".to_string()).message(),
        "no status of mirror elvish on worker w1"
    );
    assert_eq!(
        AdapterError::Corrupt("2:w1/elvish".to_string()).message(),
        "entry holds no record: 2:w1/elvish"
    );
}

#[test]
fn a_backend_is_made_of_what_opening_gave() {
    let opened = redb::Database::builder()
        .create_with_backend(redb::backends::InMemoryBackend::new())
        .map_err(redb::Error::from);
    let mut kv = RedbAdapter::from_opened(opened).unwrap();
    kv.put("b", "k", b"v").unwrap();
    assert_eq!(kv.get("b", "k").unwrap(), Some(b"v".to_vec()));

    let failed = redb::Database::create("/nonexistent-directory/never/created.db")
        .map_err(redb::Error::from);
    assert!(failed.is_err());
    assert!(matches!(RedbAdapter::from_opened(failed), Err(AdapterError::InitError(_))));
    assert!(matches!(
        RedbAdapter::open("/nonexistent-directory/never/created.db"),
        Err(AdapterError::InitError(_))
    ));
}

#[test]
fn the_error_for_an_empty_bucket_name_says_so() {
    let kv = memory();
    assert_eq!(
        kv.get("", "k"),
        Err(AdapterError::Storage("the bucket name is empty".to_string()))
    );
}

#[test]
fn delete_many_removes_the_named_keys_in_one_go() {
    let mut kv = memory();
    kv.put("b", "a", b"1").unwrap();
    kv.put("b", "m", b"13").unwrap();
    kv.put("b", "z", b"26").unwrap();
    kv.put("other", "a", b"stays").unwrap();
    let keys = vec!["z".to_string(), "a".to_string(), "not there".to_string(), "a".to_string()];
    kv.delete_many("b", &keys).unwrap();
    assert_eq!(kv.get_all("b").unwrap(), vec![("m".to_string(), b"13".to_vec())]);
    assert_eq!(kv.get("other", "a").unwrap(), Some(b"stays".to_vec()));
    kv.delete_many("b", &Vec::new()).unwrap();
    assert_eq!(kv.get_all("b").unwrap(), vec![("m".to_string(), b"13".to_vec())]);
    kv.delete_many("fresh", &keys).unwrap();
    assert!(kv.get_all("fresh").unwrap().is_empty());
    assert_eq!(
        kv.delete_many("", &keys),
        Err(AdapterError::Storage("the bucket name is empty".to_string()))
    );
}

#[test]
fn a_list_names_its_keys() {
    let keys = vec!["a".to_string(), "b/c".to_string()];
    assert!(names_key(&keys, "a"));
    assert!(names_key(&keys, "b/c"));
    assert!(!names_key(&keys, "b"));
    assert!(!names_key(&Vec::new(), "a"));
    assert!(stays(&keys, "b"));
    assert!(!stays(&keys, "a"));
}

#[test]
fn the_errors_for_an_empty_bucket_name() {
    let mut kv = memory();
    assert_eq!(
        kv.init_bucket(""),
        Err(AdapterError::CreateBucketError(
            String::new(),
            "the bucket name is empty".to_string()
        ))
    );
    let empty = Err(AdapterError::Storage("the bucket name is empty".to_string()));
    assert_eq!(kv.put("", "k", b"v"), empty.clone());
    assert_eq!(kv.delete("", "k"), empty);
    assert_eq!(
        kv.get_all(""),
        Err(AdapterError::Storage("the bucket name is empty".to_string()))
    );
}

#[test]
fn errors_of_the_database_carry_its_words() {
    let kv = memory();
    match kv.get("missing", "k") {
        Err(AdapterError::Storage(why)) => {
            assert!(why.starts_with("redb: "), "{}", why);
            assert!(why.len() > "redb: ".len());
            assert_ne!(why, "the bucket name is empty");
        }
        other => panic!("unexpected: {:?}", other),
    }
    match RedbAdapter::open("/nonexistent-directory/never/created.db") {
        Err(AdapterError::InitError(why)) => assert!(why.starts_with("redb: "), "{}", why),
        Err(other) => panic!("unexpected: {:?}", other),
        Ok(_) => panic!("a database was opened"),
    }
}
