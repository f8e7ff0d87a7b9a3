//! The error payloads the native interface hands to its callers: a stable code, a
//! message, and the path, operation, name kind and value an error concerns.
use vstd::prelude::*;

use crate::container::io_error_text;
use crate::error::StorageError;
use crate::native::DharaStatus;
use crate::text::{push_str, string_from_chars};

verus! {

/// What a failed native call reports.
#[derive(Debug, Clone)]
pub struct ErrorPayload {
    pub code: &'static str,
    pub message: String,
    pub path: Option<String>,
    pub operation: Option<String>,
    pub kind: Option<String>,
    pub value: Option<String>,
}

/// A failed native call: its status code and its payload.
#[derive(Debug, Clone)]
pub struct FfiFailure {
    pub status: DharaStatus,
    pub payload: ErrorPayload,
}

/// The texts of an optional string.
pub open spec fn opt_text(s: Option<String>) -> Option<Seq<char>> {
    match s {
        Some(t) => Some(t@),
        None => None,
    }
}

/// Whether `p` has code `code`, no path, operation, kind or value, and message `message`.
pub open spec fn plain_payload(p: ErrorPayload, code: Seq<char>, message: Seq<char>) -> bool {
    p.code@ == code && p.message@ == message && p.path is None && p.operation is None && p.kind is None
        && p.value is None
}

/// Whether `p` has code `code`, path `path`, message `prefix` followed by `path`, and no
/// operation, kind or value.
pub open spec fn path_payload(p: ErrorPayload, code: Seq<char>, prefix: Seq<char>, path: Seq<char>) -> bool {
    &&& p.code@ == code
    &&& opt_text(p.path) == Some(path)
    &&& p.message@ == prefix + path
    &&& p.operation is None && p.kind is None && p.value is None
}

/// Whether `f` reports `e`, as the native interface maps storage errors to payloads.
pub open spec fn reports(e: StorageError, f: FfiFailure) -> bool {
    &&& f.status == DharaStatus::Error
    &&& match e {
        StorageError::NotFound { path } => path_payload(f.payload, "not_found"@, "path does not exist: "@, path@),
        StorageError::AlreadyExists { path } => path_payload(f.payload, "already_exists"@, "path already exists: "@, path@),
        StorageError::NotAFile { path } => path_payload(f.payload, "not_a_file"@, "path is not a file: "@, path@),
        StorageError::NotADirectory { path } => path_payload(f.payload, "not_a_directory"@, "path is not a directory: "@, path@),
        StorageError::InvalidName { kind, value } => {
            &&& f.payload.code@ == "invalid_name"@
            &&& f.payload.message@ == "invalid "@ + kind@ + " name: "@ + value@
            &&& f.payload.path is None && f.payload.operation is None
            &&& opt_text(f.payload.kind) == Some(kind@)
            &&& opt_text(f.payload.value) == Some(value@)
        },
        StorageError::PathConflict { path, message } => {
            &&& f.payload.code@ == "path_conflict"@
            &&& opt_text(f.payload.path) == Some(path@)
            &&& f.payload.message@ == "path conflict at '"@ + path@ + "': "@ + message@
            &&& f.payload.operation is None && f.payload.kind is None && f.payload.value is None
        },
        StorageError::Io { operation, path, message } => {
            &&& f.payload.code@ == "io"@
            &&& f.payload.message@ == message@
            &&& opt_text(f.payload.path) == Some(path@)
            &&& opt_text(f.payload.operation) == Some(operation@)
            &&& f.payload.kind is None && f.payload.value is None
        },
        StorageError::ReaderIo { operation, message } => {
            &&& f.payload.code@ == "reader_io"@
            &&& f.payload.message@ == message@
            &&& f.payload.path is None
            &&& opt_text(f.payload.operation) == Some(operation@)
            &&& f.payload.kind is None && f.payload.value is None
        },
        StorageError::DefinitionsLoad { message } => plain_payload(f.payload, "definitions_load"@, message@),
        StorageError::Cancelled { operation } => {
            &&& f.payload.code@ == "cancelled"@
            &&& f.payload.message@ == "operation cancelled while attempting to "@ + operation@
            &&& opt_text(f.payload.operation) == Some(operation@)
            &&& f.payload.path is None && f.payload.kind is None && f.payload.value is None
        },
        StorageError::AsyncRuntime { operation, message } => {
            &&& f.payload.code@ == "async_runtime"@
            &&& f.payload.message@ == message@
            &&& opt_text(f.payload.operation) == Some(operation@)
            &&& f.payload.path is None && f.payload.kind is None && f.payload.value is None
        },
        StorageError::Watch { operation, message } => {
            &&& f.payload.code@ == "watch"@
            &&& f.payload.message@ == message@
            &&& opt_text(f.payload.operation) == Some(operation@)
            &&& f.payload.path is None && f.payload.kind is None && f.payload.value is None
        },
    }
}

fn join2(a: &str, b: &str) -> (r: String)
    ensures
        r@ == a@ + b@,
{
    let mut out: Vec<char> = Vec::new();
    push_str(&mut out, a);
    push_str(&mut out, b);
    string_from_chars(out.as_slice())
}

fn join4(a: &str, b: &str, c: &str, d: &str) -> (r: String)
    ensures
        r@ == a@ + b@ + c@ + d@,
{
    let mut out: Vec<char> = Vec::new();
    push_str(&mut out, a);
    push_str(&mut out, b);
    push_str(&mut out, c);
    push_str(&mut out, d);
    assert(out@ =~= a@ + b@ + c@ + d@);
    string_from_chars(out.as_slice())
}

fn path_failure(code: &'static str, prefix: &str, path: String) -> (f: FfiFailure)
    ensures
        f.status == DharaStatus::Error,
        path_payload(f.payload, code@, prefix@, path@),
{
    let message = join2(prefix, path.as_str());
    let text = path;
    FfiFailure {
        status: DharaStatus::Error,
        payload: ErrorPayload { code, message, path: Some(text), operation: None, kind: None, value: None },
    }
}

fn owned(s: &str) -> (r: String)
    ensures
        r@ == s@,
{
    s.to_owned()
}

impl FfiFailure {
    /// A general storage failure with `message`.
    pub fn error(message: String) -> (f: FfiFailure)
        ensures
            f.status == DharaStatus::Error,
            plain_payload(f.payload, "storage_error"@, message@),
    {
        FfiFailure {
            status: DharaStatus::Error,
            payload: ErrorPayload {
                code: "storage_error",
                message,
                path: None,
                operation: None,
                kind: None,
                value: None,
            },
        }
    }

    /// A failed path-based I/O operation on `path`; the message is `source`'s `Display`
    /// text, which is not stated here.
    pub fn io(operation: &'static str, path: &str, source: std::io::Error) -> (f: FfiFailure)
        ensures
            f.status == DharaStatus::Error,
            f.payload.code@ == "io"@,
            opt_text(f.payload.path) == Some(path@),
            opt_text(f.payload.operation) == Some(operation@),
            f.payload.kind is None && f.payload.value is None,
    {
        FfiFailure {
            status: DharaStatus::Error,
            payload: ErrorPayload {
                code: "io",
                message: io_error_text(&source),
                path: Some(owned(path)),
                operation: Some(owned(operation)),
                kind: None,
                value: None,
            },
        }
    }

    /// An operation that observed cancellation.
    pub fn cancelled(operation: &'static str) -> (f: FfiFailure)
        ensures
            reports(StorageError::Cancelled { operation }, f),
    {
        FfiFailure {
            status: DharaStatus::Error,
            payload: ErrorPayload {
                code: "cancelled",
                message: join2("operation cancelled while attempting to ", operation),
                path: None,
                operation: Some(owned(operation)),
                kind: None,
                value: None,
            },
        }
    }

    /// An invalid argument: its field name and what is wrong with it.
    pub fn invalid_argument(field: &'static str, message: String) -> (f: FfiFailure)
        ensures
            f.status == DharaStatus::InvalidArgument,
            f.payload.code@ == "invalid_argument"@,
            f.payload.message@ == message@,
            opt_text(f.payload.kind) == Some(field@),
            f.payload.path is None && f.payload.operation is None && f.payload.value is None,
    {
        FfiFailure {
            status: DharaStatus::InvalidArgument,
            payload: ErrorPayload {
                code: "invalid_argument",
                message,
                path: None,
                operation: None,
                kind: Some(owned(field)),
                value: None,
            },
        }
    }

    /// The payload that reports a storage error.
    pub fn from_storage_error(error: StorageError) -> (f: FfiFailure)
        ensures
            reports(error, f),
    {
        match error {
            StorageError::NotFound { path } => path_failure("not_found", "path does not exist: ", path),
            StorageError::AlreadyExists { path } => path_failure("already_exists", "path already exists: ", path),
            StorageError::NotAFile { path } => path_failure("not_a_file", "path is not a file: ", path),
            StorageError::NotADirectory { path } => path_failure("not_a_directory", "path is not a directory: ", path),
            StorageError::InvalidName { kind, value } => {
                let message = join4("invalid ", kind, " name: ", value.as_str());
                FfiFailure {
                    status: DharaStatus::Error,
                    payload: ErrorPayload {
                        code: "invalid_name",
                        message,
                        path: None,
                        operation: None,
                        kind: Some(owned(kind)),
                        value: Some(value),
                    },
                }
            },
            StorageError::PathConflict { path, message } => {
                let full = join4("path conflict at '", path.as_str(), "': ", message);
                let text = path;
                FfiFailure {
                    status: DharaStatus::Error,
                    payload: ErrorPayload {
                        code: "path_conflict",
                        message: full,
                        path: Some(text),
                        operation: None,
                        kind: None,
                        value: None,
                    },
                }
            },
            StorageError::Io { operation, path, message } => FfiFailure {
                status: DharaStatus::Error,
                payload: ErrorPayload {
                    code: "io",
                    message,
                    path: Some(path),
                    operation: Some(owned(operation)),
                    kind: None,
                    value: None,
                },
            },
            StorageError::ReaderIo { operation, message } => FfiFailure {
                status: DharaStatus::Error,
                payload: ErrorPayload {
                    code: "reader_io",
                    message,
                    path: None,
                    operation: Some(owned(operation)),
                    kind: None,
                    value: None,
                },
            },
            StorageError::DefinitionsLoad { message } => FfiFailure {
                status: DharaStatus::Error,
                payload: ErrorPayload {
                    code: "definitions_load",
                    message,
                    path: None,
                    operation: None,
                    kind: None,
                    value: None,
                },
            },
            StorageError::Cancelled { operation } => FfiFailure::cancelled(operation),
            StorageError::AsyncRuntime { operation, message } => FfiFailure {
                status: DharaStatus::Error,
                payload: ErrorPayload {
                    code: "async_runtime",
                    message,
                    path: None,
                    operation: Some(owned(operation)),
                    kind: None,
                    value: None,
                },
            },
            StorageError::Watch { operation, message } => FfiFailure {
                status: DharaStatus::Error,
                payload: ErrorPayload {
                    code: "watch",
                    message,
                    path: None,
                    operation: Some(owned(operation)),
                    kind: None,
                    value: None,
                },
            },
        }
    }
}

} // verus!
