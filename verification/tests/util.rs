use hustsync::common::{
    debug_hustsync, error_hustsync, info_hustsync, trace_hustsync, warn_hustsync, LogLevel,
    LogRecord,
};
use hustsync::config::{ManagerConfig, ManagerFileConfig};
use hustsync::error::AdapterError;
use hustsync::logger::{logger_filter, logger_level, logger_settings};
use hustsync::server::get_hustsync_manager;
use hustsync::text::{
    bytes_eq, char_is_whitespace, copy_strings, extend_strings, starts_with, str_eq, trim_bounds,
};
use hustsync::util::{
    check_response_status, content_type, error_status, is_success_status, route, Route,
    HTTP_POOL_IDLE_TIMEOUT_SECS, HTTP_TIMEOUT_SECS,
};

#[test]
fn log_records_carry_level_target_and_message() {
    let expect = |level| LogRecord {
        level,
        target: "hustsync".to_string(),
        message: "manager started".to_string(),
    };
    assert_eq!(info_hustsync("manager started"), expect(LogLevel::Info));
    assert_eq!(debug_hustsync("manager started"), expect(LogLevel::Debug));
    assert_eq!(trace_hustsync("manager started"), expect(LogLevel::Trace));
    assert_eq!(warn_hustsync("manager started"), expect(LogLevel::Warn));
    assert_eq!(error_hustsync("manager started"), expect(LogLevel::Error));
    assert_eq!(info_hustsync("").message, "");
}

#[test]
fn logger_levels() {
    assert_eq!(logger_level(false, false), "warn");
    assert_eq!(logger_level(true, false), "info");
    assert_eq!(logger_level(false, true), "debug");
    assert_eq!(logger_level(true, true), "debug");
}

#[test]
fn logger_filter_names_every_component() {
    assert_eq!(
        logger_filter("info"),
        "tunasync=info,tunasynctl=info,tracing_subscriber=info,rustls=info,info"
    );
}

#[test]
fn logger_settings_follow_the_flags() {
    let quiet = logger_settings(false, false, true);
    assert_eq!(
        quiet.filter,
        "tunasync=warn,tunasynctl=warn,tracing_subscriber=warn,rustls=warn,warn"
    );
    assert!(!quiet.ansi);
    assert!(!quiet.with_file);
    assert!(!quiet.with_line_number);
    let debug = logger_settings(true, true, false);
    assert_eq!(
        debug.filter,
        "tunasync=debug,tunasynctl=debug,tracing_subscriber=debug,rustls=debug,debug"
    );
    assert!(debug.ansi);
    assert!(debug.with_file);
    assert!(debug.with_line_number);
}

#[test]
fn http_status_check() {
    assert!(is_success_status(200));
    assert!(is_success_status(204));
    assert!(is_success_status(299));
    assert!(!is_success_status(199));
    assert!(!is_success_status(300));
    assert!(!is_success_status(404));
    assert_eq!(check_response_status(200, "200 OK"), Ok(()));
    assert_eq!(
        check_response_status(404, "404 Not Found"),
        Err("HTTP status code is not 200: 404 Not Found".to_string())
    );
    assert_eq!(
        check_response_status(500, "500 Internal Server Error"),
        Err("HTTP status code is not 200: 500 Internal Server Error".to_string())
    );
    assert_eq!(content_type(), "application/json; charset=utf-8");
    assert_eq!(HTTP_TIMEOUT_SECS, 5);
    assert_eq!(HTTP_POOL_IDLE_TIMEOUT_SECS, 20);
}

#[test]
fn manager_keeps_its_configuration() {
    let manager = get_hustsync_manager(ManagerConfig::default()).ok().unwrap();
    assert_eq!(*manager.config(), ManagerConfig::default());
    assert_eq!(manager.db_type(), "bolt");
    assert_eq!(manager.db_file(), "/tmp/tunasync/manager.db");
}

#[test]
fn manager_without_file_settings_uses_the_defaults() {
    let config = ManagerConfig { server: None, files: None, debug: None };
    let manager = get_hustsync_manager(config).ok().unwrap();
    assert_eq!(manager.db_type(), "bolt");
    assert_eq!(manager.db_file(), "/tmp/tunasync/manager.db");
    let config = ManagerConfig {
        server: None,
        files: Some(ManagerFileConfig { db_type: None, db_file: None, ca_cert: None }),
        debug: None,
    };
    let manager = get_hustsync_manager(config).ok().unwrap();
    assert_eq!(manager.db_type(), "bolt");
    assert_eq!(manager.db_file(), "/tmp/tunasync/manager.db");
}

#[test]
fn unrecognized_backend_type_in_configuration_fails_store_initialization() {
    let manager = get_hustsync_manager(ManagerConfig::default()).ok().unwrap();
    match manager.open_store() {
        Err(AdapterError::UnsupportedDbType(name)) => assert_eq!(name, "bolt"),
        Err(other) => panic!("unexpected error: {:?}", other),
        Ok(_) => panic!("a store was opened"),
    }
}

#[test]
fn manager_opens_the_store_that_its_configuration_names() {
    let config = ManagerConfig {
        server: None,
        files: Some(ManagerFileConfig {
            db_type: Some("redb".to_string()),
            db_file: Some("/tmp/hustsync-test-manager-open-store.redb".to_string()),
            ca_cert: None,
        }),
        debug: None,
    };
    let manager = get_hustsync_manager(config).ok().unwrap();
    assert_eq!(manager.db_type(), "redb");
    let store = manager.open_store().unwrap();
    assert!(store.list_workers().is_ok());
}

#[test]
fn whitespace_is_what_the_standard_library_says() {
    for code in 0..0x3100u32 {
        if let Some(c) = char::from_u32(code) {
            assert_eq!(char_is_whitespace(c), c.is_whitespace(), "U+{:04X}", code);
        }
    }
    assert!(!char_is_whitespace('\u{feff}'));
    assert!(!char_is_whitespace('\u{10ffff}'));
}

#[test]
fn trim_bounds_match_trim() {
    for text in ["", " ", "a", "  a b  ", "\t\nredb\r\n", "\u{3000}x\u{2003}", "no-space", " é "] {
        let (start, end) = trim_bounds(text);
        let inner: String = text.chars().skip(start).take(end - start).collect();
        assert_eq!(inner, text.trim(), "{:?}", text);
    }
}

#[test]
fn text_comparisons() {
    assert!(str_eq("redb", "redb"));
    assert!(!str_eq("redb", "redB"));
    assert!(!str_eq("redb", "redbb"));
    assert!(str_eq("", ""));
    assert!(bytes_eq(b"abc", b"abc"));
    assert!(!bytes_eq(b"abc", b"abd"));
    assert!(!bytes_eq(b"abc", b"ab"));
}

#[test]
fn lists_of_strings() {
    let a = vec!["x".to_string(), "y".to_string()];
    let mut b = vec!["w".to_string()];
    extend_strings(&mut b, &a);
    assert_eq!(b, vec!["w", "x", "y"]);
    assert_eq!(copy_strings(&a), a);
    assert!(copy_strings(&Vec::new()).is_empty());
}

#[test]
fn requests_are_routed_by_method_and_path() {
    assert_eq!(route("POST", "/register"), Route::Register);
    assert_eq!(route("POST", "/heartbeat"), Route::Heartbeat);
    assert_eq!(route("POST", "/deregister"), Route::Deregister);
    assert_eq!(route("POST", "/status"), Route::PushStatus);
    assert_eq!(route("POST", "/jobs"), Route::Jobs);
    assert_eq!(route("POST", "/schedules"), Route::Schedules);
    assert_eq!(route("POST", "/commands"), Route::Commands);
    assert_eq!(route("POST", "/cmd"), Route::ClientCommand);
    assert_eq!(route("GET", "/overview"), Route::Overview);
    assert_eq!(route("POST", "/overview"), Route::NotFound);
    assert_eq!(route("GET", "/status"), Route::NotFound);
    assert_eq!(route("post", "/status"), Route::NotFound);
    assert_eq!(route("POST", "/status/"), Route::NotFound);
    assert_eq!(route("POST", ""), Route::NotFound);
    assert_eq!(route("DELETE", "/register"), Route::NotFound);
}

#[test]
fn refusals_of_the_store_have_their_http_status() {
    assert_eq!(error_status(&AdapterError::WorkerNotFound("w".to_string())), 404);
    assert_eq!(
        error_status(&AdapterError::MirrorNotFound("w".to_string(), "m".to_string())),
        404
    );
    assert_eq!(error_status(&AdapterError::WorkerExists("w".to_string())), 409);
    assert_eq!(error_status(&AdapterError::Storage("io".to_string())), 500);
    assert_eq!(error_status(&AdapterError::Commit("io".to_string())), 500);
    assert_eq!(error_status(&AdapterError::Corrupt("k".to_string())), 500);
    assert_eq!(error_status(&AdapterError::InitError("x".to_string())), 500);
    assert_eq!(error_status(&AdapterError::UnsupportedDbType("x".to_string())), 500);
    assert_eq!(
        error_status(&AdapterError::CreateBucketError("b".to_string(), "x".to_string())),
        500
    );
}

#[test]
fn a_text_begins_with_its_prefixes() {
    assert!(starts_with("2:w1/elvish", "2:w1/"));
    assert!(starts_with("2:w1/elvish", ""));
    assert!(starts_with("abc", "abc"));
    assert!(!starts_with("abc", "abcd"));
    assert!(!starts_with("12:w1/x", "2:w1/"));
    assert!(!starts_with("", "a"));
    assert!(starts_with("\u{e9}t\u{e9}", "\u{e9}t"));
    assert!(!starts_with("\u{e9}t\u{e9}", "et"));
}
