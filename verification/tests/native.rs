use dhara_storage::ffi_error::FfiFailure;
use dhara_storage::native::{
    CompleteStep, DharaOperationState, OperationProgress, OperationRecord, OperationResult,
    WriteSessionState,
};

#[test]
fn operation_record_starts_running_and_reports_progress() {
    let mut record = OperationRecord::new();
    assert_eq!(record.state(), DharaOperationState::Running);
    let snapshot = record.snapshot();
    assert_eq!(snapshot.has_total_bytes, 0);
    assert_eq!(snapshot.total_bytes, 0);
    record.report(OperationProgress { total_bytes: Some(100), bytes_transferred: 40 });
    let snapshot = record.snapshot();
    assert_eq!(snapshot.state, DharaOperationState::Running);
    assert_eq!(snapshot.has_total_bytes, 1);
    assert_eq!(snapshot.total_bytes, 100);
    assert_eq!(snapshot.bytes_transferred, 40);
}

#[test]
fn completed_string_result_is_taken_once() {
    let mut record = OperationRecord::new();
    record.set_completed(OperationResult::String("done".to_string()));
    assert_eq!(record.state(), DharaOperationState::Completed);
    assert_eq!(record.take_string_result().ok(), Some(Some("done".to_string())));
    assert_eq!(record.take_string_result().ok(), Some(None));
    assert_eq!(record.take_bytes_result().ok(), Some(None));
}

#[test]
fn mismatched_result_kind_fails_and_empties_the_slot() {
    let mut record = OperationRecord::new();
    record.set_completed(OperationResult::Bytes(vec![1, 2]));
    let error = record.take_string_result().expect_err("bytes are not a string");
    assert_eq!(error.payload.code, "storage_error");
    assert_eq!(error.payload.message, "operation result contained bytes, not a string");
    assert_eq!(record.take_bytes_result().ok(), Some(None));

    record.set_completed(OperationResult::String("x".to_string()));
    let error = record.take_bytes_result().expect_err("a string is not bytes");
    assert_eq!(error.payload.message, "operation result contained a string, not bytes");

    record.set_completed(OperationResult::Empty);
    assert_eq!(record.take_bytes_result().ok(), Some(None));
}

#[test]
fn failures_set_failed_or_cancelled() {
    let mut record = OperationRecord::new();
    record.set_failure(FfiFailure::error("boom".to_string()));
    assert_eq!(record.state(), DharaOperationState::Failed);
    let copy = record.clone_error().expect("an error was stored");
    assert_eq!(copy.payload.message, "boom");

    let mut record = OperationRecord::new();
    record.set_failure(FfiFailure::cancelled("copy file"));
    assert_eq!(record.state(), DharaOperationState::Cancelled);
    assert_eq!(record.clone_error().map(|f| f.payload.code), Some("cancelled"));
    assert!(OperationRecord::new().clone_error().is_none());
}

#[test]
fn write_session_completes_once_and_refuses_later_chunks() {
    let mut session = WriteSessionState::new();
    assert!(session.write_chunk().is_ok());
    assert!(matches!(session.complete(), CompleteStep::Flush));
    assert!(matches!(session.complete(), CompleteStep::AlreadyCompleted));
    let error = session.write_chunk().expect_err("completed sessions take no chunks");
    assert_eq!(error.payload.message, "write session has already completed");
    assert!(!session.abort());
}

#[test]
fn aborted_write_session_removes_its_file_and_cannot_complete() {
    let mut session = WriteSessionState::new();
    assert!(session.abort());
    let error = session.write_chunk().expect_err("an aborted session is closed");
    assert_eq!(error.payload.message, "write session is not open");
    match session.complete() {
        CompleteStep::NotOpen(failure) => assert_eq!(failure.payload.code, "storage_error"),
        _ => panic!("a closed session cannot be completed"),
    }
    assert!(matches!(session.complete(), CompleteStep::AlreadyCompleted));
}

#[test]
fn invalid_arguments_produce_error_payload() {
    // A null path argument is refused as the native interface refuses it.
    let failure = FfiFailure::invalid_argument("path", "string pointer must not be null".to_string());
    assert_eq!(failure.status, dhara_storage::native::DharaStatus::InvalidArgument);
    assert_eq!(failure.payload.code, "invalid_argument");
    assert_eq!(failure.payload.message, "string pointer must not be null");
}
