//! Errors produced by storage analysis, metadata and file operations. An error carries its
//! path as the path's text, and the cause of a failed I/O call as that cause's message.
use vstd::prelude::*;

verus! {

/// `std::path::PathBuf`, carried through as the path an error or a handle speaks of.
#[verifier::external_type_specification]
#[verifier::external_body]
pub struct ExPathBuf(std::path::PathBuf);

/// `std::time::SystemTime`, carried through as a file-system timestamp.
#[verifier::external_type_specification]
#[verifier::external_body]
pub struct ExSystemTime(std::time::SystemTime);

/// Errors produced by storage analysis and metadata operations.
#[derive(Debug)]
pub enum StorageError {
    /// The supplied path did not exist at the time of access.
    NotFound {
        /// The absolute or caller-supplied path that could not be resolved.
        path: String,
    },
    /// The destination path already existed and overwrite was disabled.
    AlreadyExists {
        /// The destination path that prevented the operation from continuing.
        path: String,
    },
    /// The supplied path existed but did not refer to a file.
    NotAFile {
        /// The path that failed the file-only contract.
        path: String,
    },
    /// The supplied path existed but did not refer to a directory.
    NotADirectory {
        /// The path that failed the directory-only contract.
        path: String,
    },
    /// A file-system name argument was invalid for the requested operation.
    InvalidName {
        /// A short label describing the name slot that failed validation.
        kind: &'static str,
        /// The raw value supplied by the caller.
        value: String,
    },
    /// The path shape conflicted with the API contract.
    PathConflict {
        /// The path whose file-versus-directory shape conflicted with the operation.
        path: String,
        /// A stable description of the contract violation.
        message: &'static str,
    },
    /// A path-based I/O operation failed.
    Io {
        /// The high-level operation that was in progress when the error occurred.
        operation: &'static str,
        /// The path associated with the failed filesystem call.
        path: String,
        /// The message of the underlying operating-system or standard-library I/O error.
        message: String,
    },
    /// A reader-based I/O operation failed.
    ReaderIo {
        /// The high-level read or write phase that failed.
        operation: &'static str,
        /// The message of the underlying reader or writer error.
        message: String,
    },
    /// The embedded definitions package could not be decoded.
    DefinitionsLoad {
        /// The decode or validation failure message returned by the package loader.
        message: String,
    },
    /// The requested operation was cancelled before completion.
    Cancelled {
        /// The high-level operation that observed cancellation.
        operation: &'static str,
    },
    /// An async runtime task failed before the storage operation completed.
    AsyncRuntime {
        /// The high-level operation that depended on the async runtime.
        operation: &'static str,
        /// The runtime failure details surfaced by the async wrapper.
        message: String,
    },
    /// A storage watcher failed to initialize or deliver events.
    Watch {
        /// The watch lifecycle phase that failed.
        operation: &'static str,
        /// The watcher or debouncer failure details.
        message: String,
    },
}

impl StorageError {
    /// A failed path-based I/O operation on `path`; the error keeps `source`'s message (its
    /// `Display` text, which is not stated here).
    pub fn io(operation: &'static str, path: String, source: std::io::Error) -> (r: StorageError)
        ensures
            r matches StorageError::Io { operation: o, path: p, .. } && o == operation && p == path,
    {
        StorageError::Io { operation, path, message: crate::container::io_error_text(&source) }
    }

    /// A failed reader-based I/O operation; the error keeps `source`'s message (its
    /// `Display` text, which is not stated here).
    pub fn reader_io(operation: &'static str, source: std::io::Error) -> (r: StorageError)
        ensures
            r matches StorageError::ReaderIo { operation: o, .. } && o == operation,
    {
        StorageError::ReaderIo { operation, message: crate::container::io_error_text(&source) }
    }

    /// A destination that already exists.
    pub fn already_exists(path: String) -> (r: StorageError)
        ensures
            r == (StorageError::AlreadyExists { path }),
    {
        StorageError::AlreadyExists { path }
    }

    /// An invalid name argument.
    pub fn invalid_name(kind: &'static str, value: String) -> (r: StorageError)
        ensures
            r == (StorageError::InvalidName { kind, value }),
    {
        StorageError::InvalidName { kind, value }
    }

    /// A path whose shape conflicts with the requested operation.
    pub fn path_conflict(path: String, message: &'static str) -> (r: StorageError)
        ensures
            r == (StorageError::PathConflict { path, message }),
    {
        StorageError::PathConflict { path, message }
    }

    /// An operation that observed cancellation.
    pub fn cancelled(operation: &'static str) -> (r: StorageError)
        ensures
            r == (StorageError::Cancelled { operation }),
    {
        StorageError::Cancelled { operation }
    }

    /// An async runtime failure.
    pub fn async_runtime(operation: &'static str, message: String) -> (r: StorageError)
        ensures
            r == (StorageError::AsyncRuntime { operation, message }),
    {
        StorageError::AsyncRuntime { operation, message }
    }

    /// A watcher failure.
    pub fn watch(operation: &'static str, message: String) -> (r: StorageError)
        ensures
            r == (StorageError::Watch { operation, message }),
    {
        StorageError::Watch { operation, message }
    }
}

} // verus!
