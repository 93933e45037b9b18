use hustsync::status::SyncStatus;

#[test]
fn test_sync_status_json_ser_de() {
    let b = SyncStatus::PreSyncing.to_json().into_bytes();
    assert_eq!(b, b"\"pre-syncing\"");

    let s: SyncStatus = SyncStatus::from_json("\"failed\"").unwrap();
    assert_eq!(s, SyncStatus::Failed);
}

#[test]
fn every_status_survives_json() {
    let all = [
        SyncStatus::NeverSynced,
        SyncStatus::Failed,
        SyncStatus::Success,
        SyncStatus::Syncing,
        SyncStatus::PreSyncing,
        SyncStatus::Paused,
        SyncStatus::Disabled,
        SyncStatus::Unknown,
    ];
    for status in all {
        assert_eq!(SyncStatus::from_json(&status.to_json()), Some(status));
        assert_eq!(SyncStatus::from_name(status.as_str()), status);
    }
}

#[test]
fn unknown_status_name_in_json_is_unknown() {
    assert_eq!(SyncStatus::from_json("\"archived\""), Some(SyncStatus::Unknown));
    assert_eq!(SyncStatus::from_json("\"\""), Some(SyncStatus::Unknown));
}

#[test]
fn json_that_is_no_plain_string_is_refused() {
    assert_eq!(SyncStatus::from_json("failed"), None);
    assert_eq!(SyncStatus::from_json("\""), None);
    assert_eq!(SyncStatus::from_json(""), None);
    assert_eq!(SyncStatus::from_json("\"fai\"led\""), None);
    assert_eq!(SyncStatus::from_json("\"fai\\led\""), None);
    assert_eq!(SyncStatus::from_json("\"fai\nled\""), None);
    assert_eq!(SyncStatus::from_json("12"), None);
}
