use hustsync::codec::{
    decode_mirror_status_bytes, decode_worker_status_bytes, encode_mirror_status,
    encode_worker_status, FORMAT_VERSION, KIND_MIRROR, KIND_WORKER,
};
use hustsync::msg::{MirrorStatus, WorkerStatus};
use hustsync::status::SyncStatus;
use hustsync::time::Timestamp;

fn sample() -> MirrorStatus {
    MirrorStatus {
        name: "elvish".to_string(),
        worker: "worker-1".to_string(),
        upstream: "rsync://rsync.elv.sh/elvish/".to_string(),
        size: "1.33T".to_string(),
        error_msg: "类型 error – ünïcödé".to_string(),
        last_update: Timestamp::new(1460848090, 999_999_999),
        last_started: Timestamp::new(-5, 0),
        lastt_ended: Timestamp::new(i64::MAX, u32::MAX),
        next_scheduled: Timestamp::new(i64::MIN, 1),
        status: SyncStatus::PreSyncing,
        is_master: true,
    }
}

#[test]
fn mirror_status_round_trip() {
    let m = sample();
    let bytes = encode_mirror_status(&m);
    assert_eq!(decode_mirror_status_bytes(&bytes), Some(m));
}

#[test]
fn mirror_status_layout() {
    let m = MirrorStatus {
        name: "a".to_string(),
        worker: String::new(),
        upstream: String::new(),
        size: String::new(),
        error_msg: String::new(),
        last_update: Timestamp::new(0, 1),
        last_started: Timestamp::new(-1, 0),
        lastt_ended: Timestamp::new(0, 0),
        next_scheduled: Timestamp::new(0, 0),
        status: SyncStatus::Failed,
        is_master: false,
    };
    let bytes = encode_mirror_status(&m);
    let mut expected: Vec<u8> = vec![FORMAT_VERSION, KIND_MIRROR];
    assert_eq!((FORMAT_VERSION, KIND_WORKER, KIND_MIRROR), (1, 1, 2));
    expected.extend_from_slice(&1u64.to_le_bytes());
    expected.push(b'a');
    for _ in 0..4 {
        expected.extend_from_slice(&0u64.to_le_bytes());
    }
    expected.extend_from_slice(&0x8000_0000_0000_0000u64.to_le_bytes());
    expected.extend_from_slice(&1u32.to_le_bytes());
    expected.extend_from_slice(&0x7fff_ffff_ffff_ffffu64.to_le_bytes());
    expected.extend_from_slice(&0u32.to_le_bytes());
    for _ in 0..2 {
        expected.extend_from_slice(&0x8000_0000_0000_0000u64.to_le_bytes());
        expected.extend_from_slice(&0u32.to_le_bytes());
    }
    expected.push(1);
    expected.push(0);
    assert_eq!(bytes, expected);
}

#[test]
fn every_status_round_trips() {
    for status in [
        SyncStatus::NeverSynced,
        SyncStatus::Failed,
        SyncStatus::Success,
        SyncStatus::Syncing,
        SyncStatus::PreSyncing,
        SyncStatus::Paused,
        SyncStatus::Disabled,
        SyncStatus::Unknown,
    ] {
        let mut m = sample();
        m.status = status;
        m.is_master = false;
        assert_eq!(decode_mirror_status_bytes(&encode_mirror_status(&m)), Some(m));
    }
}

#[test]
fn fields_of_a_later_version_are_ignored() {
    let m = sample();
    let mut bytes = encode_mirror_status(&m);
    bytes[0] = 9;
    bytes.extend_from_slice(b"whatever a later version appends");
    assert_eq!(decode_mirror_status_bytes(&bytes), Some(m));
}

#[test]
fn a_status_tag_of_a_later_version_reads_as_unknown() {
    let mut m = sample();
    let mut bytes = encode_mirror_status(&m);
    let tag = bytes.len() - 2;
    bytes[tag] = 200;
    m.status = SyncStatus::Unknown;
    assert_eq!(decode_mirror_status_bytes(&bytes), Some(m));
}

#[test]
fn bytes_that_hold_no_record_are_refused() {
    let bytes = encode_mirror_status(&sample());
    assert_eq!(decode_mirror_status_bytes(&[]), None);
    assert_eq!(decode_mirror_status_bytes(&bytes[..bytes.len() - 1]), None);
    assert_eq!(decode_mirror_status_bytes(&bytes[..10]), None);
    let mut zero_version = bytes.clone();
    zero_version[0] = 0;
    assert_eq!(decode_mirror_status_bytes(&zero_version), None);
    let mut bad_bool = bytes.clone();
    let last = bad_bool.len() - 1;
    bad_bool[last] = 2;
    assert_eq!(decode_mirror_status_bytes(&bad_bool), None);
    let mut bad_text = bytes.clone();
    bad_text[10] = 0xff;
    assert_eq!(decode_mirror_status_bytes(&bad_text), None);
    let mut long_text = bytes.clone();
    long_text[9] = 0xff;
    assert_eq!(decode_mirror_status_bytes(&long_text), None);
    assert_eq!(decode_mirror_status_bytes(b"{\"name\":\"elvish\"}"), None);
}

#[test]
fn a_record_of_another_kind_is_refused() {
    let m = encode_mirror_status(&sample());
    assert_eq!(decode_worker_status_bytes(&m), None);
    let w = WorkerStatus {
        id: "w".to_string(),
        url: String::new(),
        token: String::new(),
        last_online: Timestamp::new(0, 0),
        last_register: Timestamp::new(0, 0),
    };
    let bytes = encode_worker_status(&w);
    assert_eq!(bytes[..2], [FORMAT_VERSION, KIND_WORKER]);
    assert_eq!(decode_mirror_status_bytes(&bytes), None);
}

#[test]
fn worker_status_round_trip() {
    let w = WorkerStatus {
        id: "worker-1".to_string(),
        url: "https://worker-1.example:6000/".to_string(),
        token: "token-of-worker-1".to_string(),
        last_online: Timestamp::new(1700000000, 5),
        last_register: Timestamp::new(1600000000, 6),
    };
    let mut bytes = encode_worker_status(&w);
    assert_eq!(decode_worker_status_bytes(&bytes), Some(w.clone()));
    bytes.push(42);
    assert_eq!(decode_worker_status_bytes(&bytes), Some(w.clone()));
    assert_eq!(decode_worker_status_bytes(&bytes[..bytes.len() - 2]), None);
    assert_eq!(decode_worker_status_bytes(&[]), None);
    assert_eq!(w.duplicate(), w);
}
