//! Status and lifecycle codes of the native interface, how an operation's state is read
//! back from its stored code, the record a background operation keeps (its state,
//! progress, result and failure), and the decisions of a streaming write session. The host
//! shares these behind locks, keeps the transfer rate (a float) and the session's file and
//! path beside them, and does the file work they call for.
use vstd::prelude::*;

use crate::ffi_error::{plain_payload, ErrorPayload, FfiFailure};

verus! {

/// Status code returned by every exported native function.
#[derive(Debug, Clone, Copy, PartialEq, Eq, Structural)]
pub enum DharaStatus {
    /// The call completed successfully.
    Success,
    /// The call failed and an error payload may be available in the provided output buffer.
    Error,
    /// The caller supplied an invalid pointer, flag, or argument value.
    InvalidArgument,
    /// The native call panicked before it could produce a normal status code.
    Panic,
}

/// Current lifecycle state of a background native operation.
#[derive(Debug, Clone, Copy, PartialEq, Eq, Structural)]
pub enum DharaOperationState {
    /// The worker thread is still processing the requested operation.
    Running,
    /// The operation completed successfully and a result may be available.
    Completed,
    /// The operation terminated with an error payload.
    Failed,
    /// The operation observed cooperative cancellation before completion.
    Cancelled,
}

impl DharaStatus {
    /// The status's code on the wire.
    pub open spec fn spec_code(self) -> u8 {
        match self {
            DharaStatus::Success => 0,
            DharaStatus::Error => 1,
            DharaStatus::InvalidArgument => 2,
            DharaStatus::Panic => 3,
        }
    }

    /// The status's code on the wire.
    pub fn code(self) -> (r: u8)
        ensures
            r == self.spec_code(),
    {
        match self {
            DharaStatus::Success => 0,
            DharaStatus::Error => 1,
            DharaStatus::InvalidArgument => 2,
            DharaStatus::Panic => 3,
        }
    }
}

impl DharaOperationState {
    /// The state's stored code.
    pub open spec fn spec_code(self) -> u8 {
        match self {
            DharaOperationState::Running => 0,
            DharaOperationState::Completed => 1,
            DharaOperationState::Failed => 2,
            DharaOperationState::Cancelled => 3,
        }
    }

    /// The state's stored code.
    pub fn code(self) -> (r: u8)
        ensures
            r == self.spec_code(),
    {
        match self {
            DharaOperationState::Running => 0,
            DharaOperationState::Completed => 1,
            DharaOperationState::Failed => 2,
            DharaOperationState::Cancelled => 3,
        }
    }

    /// The state a stored code stands for; an unknown code reads as failed.
    pub open spec fn spec_from_code(code: u8) -> DharaOperationState {
        match code {
            0 => DharaOperationState::Running,
            1 => DharaOperationState::Completed,
            3 => DharaOperationState::Cancelled,
            _ => DharaOperationState::Failed,
        }
    }

    /// The state a stored code stands for; an unknown code reads as failed.
    pub fn from_code(code: u8) -> (r: DharaOperationState)
        ensures
            r == Self::spec_from_code(code),
    {
        match code {
            0 => DharaOperationState::Running,
            1 => DharaOperationState::Completed,
            2 => DharaOperationState::Failed,
            3 => DharaOperationState::Cancelled,
            _ => DharaOperationState::Failed,
        }
    }

    /// The state a failure with error code `error_code` leaves: cancelled for the
    /// `cancelled` code, failed otherwise.
    pub fn after_failure(error_code: &str) -> (r: DharaOperationState)
        ensures
            r == (if error_code@ == "cancelled"@ {
                DharaOperationState::Cancelled
            } else {
                DharaOperationState::Failed
            }),
    {
        let expected = crate::text::chars_of("cancelled");
        let actual = crate::text::chars_of(error_code);
        if crate::text::chars_equal(actual.as_slice(), expected.as_slice()) {
            DharaOperationState::Cancelled
        } else {
            DharaOperationState::Failed
        }
    }
}

/// Reading back the code a state is stored as gives that state.
pub proof fn lemma_state_code_roundtrip(s: DharaOperationState)
    ensures
        DharaOperationState::spec_from_code(s.spec_code()) == s,
{
}

/// What a finished background operation produced.
#[derive(Debug)]
pub enum OperationResult {
    /// The operation produced no value.
    Empty,
    String(String),
    Bytes(Vec<u8>),
}

/// The progress an operation last reported: the expected byte count when it is known, and
/// the bytes moved so far.
#[derive(Debug, Clone, Copy, PartialEq, Eq, Structural)]
pub struct OperationProgress {
    pub total_bytes: Option<u64>,
    pub bytes_transferred: u64,
}

/// A snapshot of an operation as the native interface reports it.
#[derive(Debug, Clone, Copy, PartialEq, Eq, Structural)]
pub struct OperationSnapshot {
    pub state: DharaOperationState,
    /// 1 when `total_bytes` holds the expected byte count, 0 otherwise.
    pub has_total_bytes: u8,
    pub total_bytes: u64,
    pub bytes_transferred: u64,
}

/// The record a background operation keeps.
#[derive(Debug)]
pub struct OperationRecord {
    pub state: DharaOperationState,
    pub progress: OperationProgress,
    pub result: Option<OperationResult>,
    pub error: Option<FfiFailure>,
}

/// What taking a string result gives for slot `slot`: a string, nothing, or (as `None`) the
/// mismatch of a byte result.
pub open spec fn string_taken(slot: Option<OperationResult>) -> Option<Option<String>> {
    match slot {
        Some(OperationResult::String(s)) => Some(Some(s)),
        Some(OperationResult::Bytes(_)) => None,
        _ => Some(None),
    }
}

/// What taking a byte result gives for slot `slot`: bytes, nothing, or (as `None`) the
/// mismatch of a string result.
pub open spec fn bytes_taken(slot: Option<OperationResult>) -> Option<Option<Vec<u8>>> {
    match slot {
        Some(OperationResult::Bytes(b)) => Some(Some(b)),
        Some(OperationResult::String(_)) => None,
        _ => Some(None),
    }
}

fn copy_text(s: &Option<String>) -> (r: Option<String>)
    ensures
        r == *s,
{
    match s {
        Some(t) => Some(t.clone()),
        None => None,
    }
}

impl OperationRecord {
    /// A running operation with nothing reported, no result and no failure.
    pub fn new() -> (r: OperationRecord)
        ensures
            r.state == DharaOperationState::Running,
            r.progress == (OperationProgress { total_bytes: None, bytes_transferred: 0 }),
            r.result is None,
            r.error is None,
    {
        OperationRecord {
            state: DharaOperationState::Running,
            progress: OperationProgress { total_bytes: None, bytes_transferred: 0 },
            result: None,
            error: None,
        }
    }

    /// The operation's lifecycle state.
    pub fn state(&self) -> (r: DharaOperationState)
        ensures
            r == self.state,
    {
        self.state
    }

    /// Records the progress the operation reported.
    pub fn report(&mut self, progress: OperationProgress)
        ensures
            final(self).progress == progress,
            final(self).state == old(self).state,
            final(self).result == old(self).result,
            final(self).error == old(self).error,
    {
        self.progress = progress;
    }

    /// Stores the result the operation finished with and marks it completed.
    pub fn set_completed(&mut self, result: OperationResult)
        ensures
            final(self).result == Some(result),
            final(self).state == DharaOperationState::Completed,
            final(self).progress == old(self).progress,
            final(self).error == old(self).error,
    {
        self.result = Some(result);
        self.state = DharaOperationState::Completed;
    }

    /// Stores the failure the operation ended in; it is cancelled when the failure's code is
    /// `cancelled`, failed otherwise.
    pub fn set_failure(&mut self, failure: FfiFailure)
        ensures
            final(self).state == (if failure.payload.code@ == "cancelled"@ {
                DharaOperationState::Cancelled
            } else {
                DharaOperationState::Failed
            }),
            final(self).error == Some(failure),
            final(self).progress == old(self).progress,
            final(self).result == old(self).result,
    {
        let state = DharaOperationState::after_failure(failure.payload.code);
        self.error = Some(failure);
        self.state = state;
    }

    /// The operation's state and progress as a snapshot.
    pub fn snapshot(&self) -> (r: OperationSnapshot)
        ensures
            r.state == self.state,
            r.has_total_bytes == (if self.progress.total_bytes is Some { 1u8 } else { 0u8 }),
            r.total_bytes == (match self.progress.total_bytes {
                Some(t) => t,
                None => 0,
            }),
            r.bytes_transferred == self.progress.bytes_transferred,
    {
        OperationSnapshot {
            state: self.state,
            has_total_bytes: if self.progress.total_bytes.is_some() { 1 } else { 0 },
            total_bytes: match self.progress.total_bytes {
                Some(t) => t,
                None => 0,
            },
            bytes_transferred: self.progress.bytes_transferred,
        }
    }

    /// Takes the result as a string, leaving the slot empty: a string result gives the
    /// string, an empty slot or an empty result gives nothing, and a byte result fails.
    pub fn take_string_result(&mut self) -> (r: Result<Option<String>, FfiFailure>)
        ensures
            final(self).result is None,
            final(self).state == old(self).state,
            final(self).progress == old(self).progress,
            final(self).error == old(self).error,
            match string_taken(old(self).result) {
                Some(v) => r == Ok::<Option<String>, FfiFailure>(v),
                None => r matches Err(f) && f.status == DharaStatus::Error && plain_payload(
                    f.payload,
                    "storage_error"@,
                    "operation result contained bytes, not a string"@,
                ),
            },
    {
        let slot = self.result.take();
        match slot {
            Some(OperationResult::String(value)) => Ok(Some(value)),
            Some(OperationResult::Bytes(_)) => Err(
                FfiFailure::error("operation result contained bytes, not a string".to_owned()),
            ),
            _ => Ok(None),
        }
    }

    /// Takes the result as bytes, leaving the slot empty: a byte result gives the bytes, an
    /// empty slot or an empty result gives nothing, and a string result fails.
    pub fn take_bytes_result(&mut self) -> (r: Result<Option<Vec<u8>>, FfiFailure>)
        ensures
            final(self).result is None,
            final(self).state == old(self).state,
            final(self).progress == old(self).progress,
            final(self).error == old(self).error,
            match bytes_taken(old(self).result) {
                Some(v) => r == Ok::<Option<Vec<u8>>, FfiFailure>(v),
                None => r matches Err(f) && f.status == DharaStatus::Error && plain_payload(
                    f.payload,
                    "storage_error"@,
                    "operation result contained a string, not bytes"@,
                ),
            },
    {
        let slot = self.result.take();
        match slot {
            Some(OperationResult::Bytes(value)) => Ok(Some(value)),
            Some(OperationResult::String(_)) => Err(
                FfiFailure::error("operation result contained a string, not bytes".to_owned()),
            ),
            _ => Ok(None),
        }
    }

    /// A copy of the failure the operation ended in, if any.
    pub fn clone_error(&self) -> (r: Option<FfiFailure>)
        ensures
            r == self.error,
    {
        match &self.error {
            None => None,
            Some(f) => Some(
                FfiFailure {
                    status: f.status,
                    payload: ErrorPayload {
                        code: f.payload.code,
                        message: f.payload.message.clone(),
                        path: copy_text(&f.payload.path),
                        operation: copy_text(&f.payload.operation),
                        kind: copy_text(&f.payload.kind),
                        value: copy_text(&f.payload.value),
                    },
                },
            ),
        }
    }
}

/// A result is handed out once: after either take, the slot is empty, and taking from an
/// empty slot gives nothing, as a string or as bytes.
pub proof fn lemma_result_taken_once()
    ensures
        string_taken(None) == Some(None::<String>),
        bytes_taken(None) == Some(None::<Vec<u8>>),
{
}

/// What completing a write session does.
pub enum CompleteStep {
    /// The session had already completed: report its path again.
    AlreadyCompleted,
    /// The session has no open file: fail with this failure.
    NotOpen(FfiFailure),
    /// Flush the session's file, then report its path.
    Flush,
}

/// The state of a streaming write session: whether its file is still open, and whether
/// it has completed. The host holds the file and its path beside it.
#[derive(Debug, Clone, Copy, PartialEq, Eq, Structural)]
pub struct WriteSessionState {
    pub open: bool,
    pub completed: bool,
}

/// Whether `f` is a plain storage error with message `message`.
pub open spec fn storage_error(f: FfiFailure, message: Seq<char>) -> bool {
    f.status == DharaStatus::Error && plain_payload(f.payload, "storage_error"@, message)
}

impl WriteSessionState {
    /// A session whose file was just created.
    pub fn new() -> (r: WriteSessionState)
        ensures
            r == (WriteSessionState { open: true, completed: false }),
    {
        WriteSessionState { open: true, completed: false }
    }

    /// Whether a chunk may be written: not after completion, and only while the file is
    /// open.
    pub fn write_chunk(&self) -> (r: Result<(), FfiFailure>)
        ensures
            self.completed ==> (r matches Err(f) && storage_error(f, "write session has already completed"@)),
            !self.completed && !self.open ==> (r matches Err(f) && storage_error(f, "write session is not open"@)),
            !self.completed && self.open ==> r is Ok,
    {
        if self.completed {
            return Err(FfiFailure::error("write session has already completed".to_owned()));
        }
        if !self.open {
            return Err(FfiFailure::error("write session is not open".to_owned()));
        }
        Ok(())
    }

    /// Marks the session completed and says what completing it takes; the file is handed
    /// over to be flushed only on the first completion of an open session.
    pub fn complete(&mut self) -> (r: CompleteStep)
        ensures
            final(self).completed,
            old(self).completed ==> r is AlreadyCompleted && final(self).open == old(self).open,
            !old(self).completed && !old(self).open ==> (r matches CompleteStep::NotOpen(f)
                && storage_error(f, "write session is not open"@) && !final(self).open),
            !old(self).completed && old(self).open ==> r is Flush && !final(self).open,
    {
        if self.completed {
            return CompleteStep::AlreadyCompleted;
        }
        self.completed = true;
        if !self.open {
            return CompleteStep::NotOpen(FfiFailure::error("write session is not open".to_owned()));
        }
        self.open = false;
        CompleteStep::Flush
    }

    /// Closes the session's file and says whether the partly written file is to be removed:
    /// only when the session never completed.
    pub fn abort(&mut self) -> (r: bool)
        ensures
            r == !old(self).completed,
            !final(self).open,
            final(self).completed == old(self).completed,
    {
        self.open = false;
        !self.completed
    }
}

} // verus!
