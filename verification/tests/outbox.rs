use hustsync::msg::MirrorStatus;
use hustsync::outbox::Outbox;
use hustsync::status::SyncStatus;
use hustsync::time::Timestamp;

fn report(worker: &str, name: &str, status: SyncStatus, updated: i64) -> MirrorStatus {
    MirrorStatus {
        name: name.to_string(),
        worker: worker.to_string(),
        upstream: String::new(),
        size: String::new(),
        error_msg: String::new(),
        last_update: Timestamp::new(updated, 0),
        last_started: Timestamp::new(0, 0),
        lastt_ended: Timestamp::new(0, 0),
        next_scheduled: Timestamp::new(0, 0),
        status,
        is_master: true,
    }
}

#[test]
fn a_failed_report_is_kept_until_it_is_taken() {
    let mut outbox = Outbox::new();
    assert_eq!(outbox.len(), 0);
    assert!(outbox.take().is_empty());
    outbox.defer(report("w", "a", SyncStatus::Success, 10));
    outbox.defer(report("w", "b", SyncStatus::Failed, 11));
    assert_eq!(outbox.len(), 2);
    let taken = outbox.take();
    assert_eq!(
        taken,
        vec![report("w", "a", SyncStatus::Success, 10), report("w", "b", SyncStatus::Failed, 11)]
    );
    assert_eq!(outbox.len(), 0);
    assert!(outbox.take().is_empty());
}

#[test]
fn only_the_newest_report_of_a_mirror_is_kept() {
    let mut outbox = Outbox::new();
    outbox.defer(report("w", "a", SyncStatus::Syncing, 10));
    outbox.defer(report("w", "b", SyncStatus::Syncing, 10));
    outbox.defer(report("w", "a", SyncStatus::Success, 20));
    outbox.defer(report("w", "a", SyncStatus::Failed, 15));
    outbox.defer(report("w2", "a", SyncStatus::Paused, 1));
    outbox.defer(report("w", "b", SyncStatus::Failed, 10));
    assert_eq!(
        outbox.take(),
        vec![
            report("w", "a", SyncStatus::Success, 20),
            report("w", "b", SyncStatus::Failed, 10),
            report("w2", "a", SyncStatus::Paused, 1),
        ]
    );
}
