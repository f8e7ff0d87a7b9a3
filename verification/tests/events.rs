use std::path::PathBuf;
use std::time::SystemTime;

use dhara_storage::builder::{SyncEmbeddedOutcome, SyncEmbeddedStatus};
use dhara_storage::logging::{console_max_level, file_max_level, LogLevel};
use dhara_storage::native::{DharaOperationState, DharaStatus};
use dhara_storage::report::{sync_report, verify_report, ReportStatus};
use dhara_storage::watch::{
    map_raw_event, Debouncer, RawEventKind, StorageChangeType, StorageWatchConfig, WatchSignal,
    WatchStep,
};
use dhara_storage::error::StorageError;
use dhara_storage::ffi_error::FfiFailure;

#[test]
fn watch_config_defaults() {
    let config = StorageWatchConfig::default();
    assert!(config.recursive);
    assert_eq!(config.debounce_window_ms, 500);
}

#[test]
fn raw_events_map_to_storage_events() {
    let now = SystemTime::now();
    let created = map_raw_event(
        RawEventKind::Create,
        vec![PathBuf::from("/a"), PathBuf::from("/b")],
        now,
    );
    assert_eq!(created.len(), 2);
    assert_eq!(created[1].change_type, StorageChangeType::Created);
    assert_eq!(created[1].path, PathBuf::from("/b"));
    assert!(created[0].previous_path.is_none());

    let moved = map_raw_event(
        RawEventKind::RenameBoth,
        vec![PathBuf::from("/old"), PathBuf::from("/new")],
        now,
    );
    assert_eq!(moved.len(), 1);
    assert_eq!(moved[0].change_type, StorageChangeType::Relocated);
    assert_eq!(moved[0].path, PathBuf::from("/new"));
    assert_eq!(moved[0].previous_path, Some(PathBuf::from("/old")));

    let half_rename = map_raw_event(RawEventKind::RenameOther, vec![PathBuf::from("/x")], now);
    assert_eq!(half_rename.len(), 1);
    assert_eq!(half_rename[0].change_type, StorageChangeType::Modified);

    assert!(map_raw_event(RawEventKind::Other, vec![PathBuf::from("/x")], now).is_empty());
}

#[test]
fn native_codes_roundtrip() {
    assert_eq!(DharaStatus::Success.code(), 0);
    assert_eq!(DharaStatus::Panic.code(), 3);
    for state in [
        DharaOperationState::Running,
        DharaOperationState::Completed,
        DharaOperationState::Failed,
        DharaOperationState::Cancelled,
    ] {
        assert_eq!(DharaOperationState::from_code(state.code()), state);
    }
    assert_eq!(DharaOperationState::from_code(9), DharaOperationState::Failed);
    assert_eq!(DharaOperationState::after_failure("cancelled"), DharaOperationState::Cancelled);
    assert_eq!(DharaOperationState::after_failure("io"), DharaOperationState::Failed);
}

#[test]
fn reports_carry_exit_codes() {
    let same = verify_report("a.rpkg", "b.rpkg", true, "log.txt");
    assert_eq!(same.exit_code, 0);
    assert_eq!(same.status, ReportStatus::Success);
    assert_eq!(same.fields[2].value, "match");
    let different = verify_report("a.rpkg", "b.rpkg", false, "log.txt");
    assert_eq!(different.exit_code, 1);
    assert_eq!(different.fields[2].value, "different");

    let outcome = SyncEmbeddedOutcome {
        input: PathBuf::from("in.7z"),
        output: PathBuf::from("out.rpkg"),
        status: SyncEmbeddedStatus::NeedsUpdate,
        package_version: Some("trid-2.00+rpkg.1".to_string()),
        detail: "stale".to_string(),
    };
    let report = sync_report(outcome, "in.7z", "out.rpkg", "log.txt");
    assert_eq!(report.exit_code, 1);
    assert_eq!(report.status, ReportStatus::Warning);
    let labels: Vec<&str> = report.fields.iter().map(|f| f.label.as_str()).collect();
    assert_eq!(labels, vec!["Input", "Output", "Result", "Package Version", "Detail", "Log"]);
    assert_eq!(report.fields[2].value, "update required");
}

#[test]
fn storage_errors_map_to_payloads() {

    let missing = FfiFailure::from_storage_error(StorageError::NotFound {
        path: "/data/missing.bin".to_string(),
    });
    assert_eq!(missing.status, DharaStatus::Error);
    assert_eq!(missing.payload.code, "not_found");
    assert_eq!(missing.payload.message, "path does not exist: /data/missing.bin");
    assert_eq!(missing.payload.path.as_deref(), Some("/data/missing.bin"));

    let name = FfiFailure::from_storage_error(StorageError::InvalidName {
        kind: "file",
        value: "a/b".to_string(),
    });
    assert_eq!(name.payload.code, "invalid_name");
    assert_eq!(name.payload.message, "invalid file name: a/b");
    assert_eq!(name.payload.kind.as_deref(), Some("file"));
    assert_eq!(name.payload.value.as_deref(), Some("a/b"));

    let conflict = FfiFailure::from_storage_error(StorageError::PathConflict {
        path: "/x".to_string(),
        message: "source and destination are the same directory",
    });
    assert_eq!(
        conflict.payload.message,
        "path conflict at '/x': source and destination are the same directory"
    );

    let cancelled = FfiFailure::from_storage_error(StorageError::Cancelled { operation: "copy file" });
    assert_eq!(cancelled.payload.message, "operation cancelled while attempting to copy file");
    assert_eq!(
        DharaOperationState::after_failure(cancelled.payload.code),
        DharaOperationState::Cancelled
    );

    let io = FfiFailure::from_storage_error(StorageError::io(
        "read",
        "/y".to_string(),
        std::io::Error::new(std::io::ErrorKind::Other, "disk on fire"),
    ));
    assert_eq!(io.payload.code, "io");
    assert_eq!(io.payload.message, "disk on fire");
    assert_eq!(io.payload.path.as_deref(), Some("/y"));
    assert_eq!(io.payload.operation.as_deref(), Some("read"));

    let reader = FfiFailure::from_storage_error(StorageError::reader_io(
        "rewind",
        std::io::Error::new(std::io::ErrorKind::Other, "seek failed"),
    ));
    assert_eq!(reader.payload.code, "reader_io");
    assert_eq!(reader.payload.message, "seek failed");
    assert_eq!(reader.payload.path, None);

    let direct = FfiFailure::io(
        "read file",
        "/data/a.txt",
        std::io::Error::new(std::io::ErrorKind::Other, "disk gone"),
    );
    assert_eq!(direct.payload.message, "disk gone");
    assert_eq!(direct.payload.path.as_deref(), Some("/data/a.txt"));

    let invalid = FfiFailure::invalid_argument("path", "path must not be null".to_string());
    assert_eq!(invalid.status, DharaStatus::InvalidArgument);
    assert_eq!(invalid.payload.code, "invalid_argument");
}

#[test]
fn log_file_name_uses_iso_local_date_format() {
    assert_eq!(
        dhara_storage::logging::dated_log_file_name(2026, 4, 10),
        "2026-04-10_def_builder.log"
    );
}

#[test]
fn log_levels_follow_verbosity() {
    assert_eq!(console_max_level(true, false, 3), LogLevel::Error);
    assert_eq!(console_max_level(false, true, 0), LogLevel::Error);
    assert_eq!(console_max_level(false, false, 0), LogLevel::Warn);
    assert_eq!(console_max_level(false, false, 2), LogLevel::Debug);
    assert_eq!(console_max_level(false, false, 9), LogLevel::Trace);
    assert_eq!(file_max_level(0), LogLevel::Info);
    assert_eq!(file_max_level(1), LogLevel::Debug);
    assert_eq!(file_max_level(5), LogLevel::Trace);
    assert_eq!(dhara_storage::logging::dated_log_file_name(7, 1, 2), "0007-01-02_def_builder.log");
    assert_eq!(dhara_storage::logging::dated_log_file_name(-44, 3, 15), "-0044-03-15_def_builder.log");
    assert_eq!(dhara_storage::logging::dated_log_file_name(12345, 12, 31), "+12345-12-31_def_builder.log");
}

#[test]
fn debouncer_batches_until_the_window_passes() {
    let mut worker: Debouncer<u32> = Debouncer::new();
    assert!(matches!(worker.step(WatchSignal::Received(Some(1))), WatchStep::Wait));
    assert!(matches!(worker.step(WatchSignal::Received(None)), WatchStep::Wait));
    assert!(matches!(worker.step(WatchSignal::Received(Some(2))), WatchStep::Wait));
    match worker.step(WatchSignal::Quiet) {
        WatchStep::Flush(batch) => assert_eq!(batch, vec![1, 2]),
        _ => panic!("a quiet window flushes the batch"),
    }
    assert!(!worker.collecting);
    assert!(worker.batch.is_empty());
}

#[test]
fn debouncer_flushes_the_open_batch_when_the_watcher_closes() {
    let mut worker: Debouncer<u32> = Debouncer::new();
    worker.step(WatchSignal::Received(Some(7)));
    match worker.step(WatchSignal::Closed) {
        WatchStep::Stop(batch) => assert_eq!(batch, vec![7]),
        _ => panic!("a closed watcher stops the worker"),
    }
    let mut idle: Debouncer<u32> = Debouncer::new();
    match idle.step(WatchSignal::Closed) {
        WatchStep::Stop(batch) => assert!(batch.is_empty()),
        _ => panic!("a closed watcher stops the worker"),
    }
}
