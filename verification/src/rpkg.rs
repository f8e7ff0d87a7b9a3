//! The `RPKG` container: the version-2 container opened by the `RPKG` magic.
use vstd::prelude::*;

pub use crate::container::{
    CompressionKind, DecodeError as RpkgDecodeError, DecodedPackage, EncodeError as RpkgEncodeError,
    IntegrityKind, PackageHeader, PackagePurpose, SectionDescriptor, SectionKind,
    METADATA_FORMAT_MESSAGEPACK,
};
use crate::container::{
    bytes_result_view, opt_bytes_view, package_result_view, read_header, read_package,
    read_package_default, read_payload_bytes, read_sections, spec_container_bytes,
    spec_parse_header, spec_parse_sections, spec_payload_section, spec_read_package,
    spec_read_payload, spec_write_fits, write_payload_bytes, DecodeFailure, HeaderView,
    ReadOptions, SectionDescriptor as Descriptor, WriteOptionsView, PackageView,
};
use crate::container_laws::{lemma_read_back, spec_read_back};

verus! {

/// The four-byte magic header that identifies a `RPKG` container (`RPKG`).
pub const RPKG_MAGIC: [u8; 4] = [0x52, 0x50, 0x4b, 0x47];

/// The currently supported on-disk wire-format version.
pub const RPKG_WIRE_VERSION: u8 = 2;

/// Controls optional integrity and metadata loading during package reads.
#[derive(Debug, Clone, Copy, PartialEq, Eq, Structural)]
pub struct RpkgReadOptions {
    /// Whether the reader should verify the integrity section when present.
    pub verify_integrity: bool,
    /// Whether the reader should materialize metadata bytes when present.
    pub load_metadata: bool,
}

impl View for RpkgReadOptions {
    type V = ReadOptions;

    open spec fn view(&self) -> ReadOptions {
        ReadOptions { verify_integrity: self.verify_integrity, load_metadata: self.load_metadata }
    }
}

impl Default for RpkgReadOptions {
    fn default() -> (r: RpkgReadOptions)
        ensures
            r == (RpkgReadOptions { verify_integrity: true, load_metadata: true }),
    {
        RpkgReadOptions { verify_integrity: true, load_metadata: true }
    }
}

impl RpkgReadOptions {
    /// The options that carry the given read policy.
    pub fn from_policy(policy: ReadOptions) -> (r: RpkgReadOptions)
        ensures
            r@ == policy,
    {
        RpkgReadOptions {
            verify_integrity: policy.verify_integrity,
            load_metadata: policy.load_metadata,
        }
    }
}

/// Configures how a new `RPKG` package should be written.
#[derive(Debug, Clone, PartialEq, Eq)]
pub struct RpkgWriteOptions {
    /// Four-byte application-level package identifier.
    pub package_id: [u8; 4],
    /// Intended package purpose for downstream readers.
    pub purpose: PackagePurpose,
    /// Compression algorithm to use for the payload section.
    pub compression: CompressionKind,
    /// Writer-controlled flags reserved for higher-level consumers.
    pub flags: u8,
    /// Optional MessagePack metadata bytes to emit as a metadata section.
    pub metadata: Option<Vec<u8>>,
    /// Integrity section policy for the written package.
    pub integrity: IntegrityKind,
}

impl View for RpkgWriteOptions {
    type V = WriteOptionsView;

    open spec fn view(&self) -> WriteOptionsView {
        WriteOptionsView {
            package_id: self.package_id@,
            purpose: self.purpose,
            compression: self.compression,
            flags: self.flags,
            metadata: opt_bytes_view(self.metadata),
            integrity: self.integrity,
        }
    }
}

/// Reader utilities for parsing `RPKG` package headers, sections, and payloads.
pub struct RpkgReader;

impl RpkgReader {
    /// Parse the fixed-size package header from raw container bytes.
    pub fn read_header(bytes: &[u8]) -> (r: Result<PackageHeader, RpkgDecodeError>)
        ensures
            match r {
                Ok(h) => spec_parse_header(RPKG_MAGIC@, bytes@) == Ok::<HeaderView, DecodeFailure>(
                    h@,
                ),
                Err(e) => spec_parse_header(RPKG_MAGIC@, bytes@) == Err::<
                    HeaderView,
                    DecodeFailure,
                >(e@),
            },
    {
        read_header(RPKG_MAGIC, bytes)
    }

    /// Parse the section table described by a previously decoded header.
    pub fn read_sections(bytes: &[u8], header: &PackageHeader) -> (r: Result<
        Vec<SectionDescriptor>,
        RpkgDecodeError,
    >)
        ensures
            match r {
                Ok(ds) => spec_parse_sections(bytes@, header@) == Ok::<
                    Seq<Descriptor>,
                    DecodeFailure,
                >(ds@),
                Err(e) => spec_parse_sections(bytes@, header@) == Err::<
                    Seq<Descriptor>,
                    DecodeFailure,
                >(e@),
            },
    {
        read_sections(bytes, header)
    }

    /// Read and decompress the payload section from a raw container.
    pub fn read_payload_bytes(bytes: &[u8]) -> (r: Result<Vec<u8>, RpkgDecodeError>)
        ensures
            bytes_result_view(r) == spec_read_payload(RPKG_MAGIC@, bytes@),
    {
        read_payload_bytes(RPKG_MAGIC, bytes)
    }

    /// Read a full package with caller-controlled metadata and integrity behavior.
    pub fn read_package(bytes: &[u8], options: &RpkgReadOptions) -> (r: Result<
        DecodedPackage,
        RpkgDecodeError,
    >)
        ensures
            package_result_view(r) == spec_read_package(RPKG_MAGIC@, bytes@, options@),
    {
        let policy = ReadOptions {
            verify_integrity: options.verify_integrity,
            load_metadata: options.load_metadata,
        };
        read_package(RPKG_MAGIC, bytes, &policy)
    }

    /// Read a package using the default policy advertised by its [`PackagePurpose`].
    pub fn read_package_default(bytes: &[u8]) -> (r: Result<DecodedPackage, RpkgDecodeError>)
        ensures
            package_result_view(r) == match spec_parse_header(RPKG_MAGIC@, bytes@) {
                Err(e) => Err(e),
                Ok(h) => spec_read_package(
                    RPKG_MAGIC@,
                    bytes@,
                    h.purpose.spec_default_read_options(),
                ),
            },
    {
        read_package_default(RPKG_MAGIC, bytes)
    }
}

/// Writer utilities for creating `RPKG` packages from raw MessagePack payloads.
pub struct RpkgWriter;

impl RpkgWriter {
    /// Write a `RPKG` package from raw MessagePack payload bytes.
    pub fn write_payload_bytes(payload: &[u8], options: &RpkgWriteOptions) -> (r: Result<
        Vec<u8>,
        RpkgEncodeError,
    >)
        ensures
            r matches Ok(b) ==> spec_write_fits(
                spec_payload_section(payload@, options.compression).len(),
                options@,
            ) && b@ == spec_container_bytes(
                RPKG_MAGIC@,
                spec_payload_section(payload@, options.compression),
                options@,
            ),
            r matches Ok(b) ==> forall|opts: ReadOptions|
                spec_read_package(RPKG_MAGIC@, b@, opts) == Ok::<PackageView, DecodeFailure>(
                    spec_read_back(
                        options@,
                        spec_payload_section(payload@, options.compression).len(),
                        payload@,
                        opts,
                    ),
                ),
            r matches Ok(b) ==> spec_read_payload(RPKG_MAGIC@, b@) == Ok::<Seq<u8>, DecodeFailure>(
                payload@,
            ),
            r is Ok <==> spec_write_fits(
                spec_payload_section(payload@, options.compression).len(),
                options@,
            ),
            r matches Err(e) ==> e is SectionTooLarge,
    {
        let metadata = match &options.metadata {
            Some(m) => Some(m.as_slice()),
            None => None,
        };
        let r = write_payload_bytes(
            RPKG_MAGIC,
            payload,
            options.package_id,
            options.purpose,
            options.compression,
            options.flags,
            metadata,
            options.integrity,
        );
        proof {
            if r is Ok {
                lemma_read_back(
                    RPKG_MAGIC,
                    spec_payload_section(payload@, options.compression),
                    payload@,
                    options@,
                );
            }
        }
        r
    }
}

} // verus!
