//! Storage runtime core: the versioned binary package containers, the
//! file-definition database and the content analysis engine, path-based storage
//! handles and watch events, and the definition builder and repository tooling
//! built on them.

// Encoding primitives and the package containers.
pub mod bytes;
pub mod codec;
pub mod container;
pub mod container_laws;
pub mod dhbin;
pub mod rpkg;
pub mod rpkg_trailer;

// Text helpers and errors.
pub mod text;
pub mod error;

// File definitions and content analysis.
pub mod definitions;
pub mod database;
pub mod analysis;
pub mod legacy;

// File-system facing records and handles.
pub mod info;
pub mod storage;
pub mod watch;
pub mod native;
pub mod ffi_error;

// The definition builder.
pub mod builder;
pub mod trid;
pub mod mime;
pub mod sluice;
pub mod shell;
pub mod shell_app;
pub mod report;
pub mod logging;

// The repository tool.
pub mod repo;
pub mod csproj;
