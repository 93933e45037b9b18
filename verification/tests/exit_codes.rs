use hustsync::exit_codes::classify_exit_code;
use hustsync::exit_codes::rsync_exit_values_map;
use hustsync::exit_codes::translate_rsync_exit_status;
use hustsync::exit_codes::unknown_code;
use hustsync::status::SyncStatus;
use hustsync::text::i32_to_decimal;
use hustsync::text::i64_to_decimal;
use hustsync::text::u64_to_decimal;

#[test]
fn exit_table_holds_the_well_known_codes() {
    let m = rsync_exit_values_map();
    assert_eq!(m.len(), 20);
    assert_eq!(m[&0], "Success");
    assert_eq!(m[&23], "Partial transfer due to error");
    assert_eq!(m[&30], "Timeout in data send/receive");
    assert_eq!(m[&35], "Timeout waiting for daemon connection");
    assert!(!m.contains_key(&7));
    assert!(!m.contains_key(&-1));
}

#[test]
fn translate_known_code() {
    let (code, text) = translate_rsync_exit_status(Some(23));
    assert_eq!(code, Some(23));
    assert_eq!(text.unwrap(), "rsync error: Partial transfer due to error");
}

#[test]
fn translate_unknown_code_passes_through_with_its_number() {
    assert_eq!(
        translate_rsync_exit_status(Some(99)),
        (Some(99), Some("unknown, code 99".to_string()))
    );
    assert_eq!(
        translate_rsync_exit_status(Some(7)),
        (Some(7), Some("unknown, code 7".to_string()))
    );
    assert_eq!(
        translate_rsync_exit_status(Some(255)),
        (Some(255), Some("unknown, code 255".to_string()))
    );
    assert_eq!(
        translate_rsync_exit_status(Some(-1)),
        (Some(-1), Some("unknown, code -1".to_string()))
    );
    assert_eq!(unknown_code(42), "unknown, code 42");
}

#[test]
fn translate_without_code() {
    assert_eq!(translate_rsync_exit_status(None), (None, None));
}

#[test]
fn classify_known_and_unknown_codes() {
    assert_eq!(classify_exit_code(0), "Success");
    assert_eq!(classify_exit_code(23), "Partial transfer due to error");
    assert_eq!(classify_exit_code(30), "Timeout in data send/receive");
    assert_eq!(classify_exit_code(99), "unknown, code 99");
    assert_eq!(classify_exit_code(-7), "unknown, code -7");
}

#[test]
fn decimal_text_of_integers() {
    assert_eq!(u64_to_decimal(0), "0");
    assert_eq!(u64_to_decimal(9), "9");
    assert_eq!(u64_to_decimal(10), "10");
    assert_eq!(u64_to_decimal(u64::MAX), "18446744073709551615");
    assert_eq!(i64_to_decimal(i64::MIN), "-9223372036854775808");
    assert_eq!(i64_to_decimal(-1), "-1");
    assert_eq!(i32_to_decimal(i32::MIN), "-2147483648");
    assert_eq!(i32_to_decimal(120), "120");
}

#[test]
fn status_names() {
    assert_eq!(SyncStatus::PreSyncing.as_str(), "pre-syncing");
    assert_eq!(SyncStatus::NeverSynced.as_str(), "none");
    assert_eq!(SyncStatus::from_name("failed"), SyncStatus::Failed);
    assert_eq!(SyncStatus::from_name("pre-syncing"), SyncStatus::PreSyncing);
    assert_eq!(SyncStatus::from_name("brand-new"), SyncStatus::Unknown);
    assert_eq!(SyncStatus::from_name("none"), SyncStatus::NeverSynced);
}
