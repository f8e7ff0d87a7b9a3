//! The `DHBIN` container: the version-2 container opened by the `DHBN` magic.
use vstd::prelude::*;

pub use crate::container::{
    CompressionKind, DecodeError as DhbinDecodeError, DecodedPackage, EncodeError as DhbinEncodeError,
    IntegrityKind, PackageHeader, PackagePurpose, SectionDescriptor, SectionKind,
    METADATA_FORMAT_MESSAGEPACK,
};
use crate::container::{
    bytes_result_view, opt_bytes_view, package_result_view, read_header, read_package,
    read_package_default, read_payload_bytes, read_sections, spec_container_bytes,
    spec_parse_header, spec_parse_sections, spec_payload_section, spec_read_package,
    spec_read_payload, spec_write_fits, write_payload_bytes, DecodeFailure, HeaderView,
    ReadOptions, SectionDescriptor as Descriptor, WriteOptionsView, PackageView,
};
use crate::container_laws::{lemma_read_back, spec_read_back};

verus! {

/// The four-byte magic header that identifies a `DHBIN` container (`DHBN`).
pub const DHBIN_MAGIC: [u8; 4] = [0x44, 0x48, 0x42, 0x4e];

/// The currently supported on-disk wire-format version.
pub const DHBIN_WIRE_VERSION: u8 = 2;

/// Controls optional integrity and metadata loading during package reads.
#[derive(Debug, Clone, Copy, PartialEq, Eq, Structural)]
pub struct DhbinReadOptions {
    /// Whether the reader should verify the integrity section when present.
    pub verify_integrity: bool,
    /// Whether the reader should materialize metadata bytes when present.
    pub load_metadata: bool,
}

impl View for DhbinReadOptions {
    type V = ReadOptions;

    open spec fn view(&self) -> ReadOptions {
        ReadOptions { verify_integrity: self.verify_integrity, load_metadata: self.load_metadata }
    }
}

impl Default for DhbinReadOptions {
    fn default() -> (r: DhbinReadOptions)
        ensures
            r == (DhbinReadOptions { verify_integrity: true, load_metadata: true }),
    {
        DhbinReadOptions { verify_integrity: true, load_metadata: true }
    }
}

impl DhbinReadOptions {
    /// The options that carry the given read policy.
    pub fn from_policy(policy: ReadOptions) -> (r: DhbinReadOptions)
        ensures
            r@ == policy,
    {
        DhbinReadOptions {
            verify_integrity: policy.verify_integrity,
            load_metadata: policy.load_metadata,
        }
    }
}

/// Configures how a new `DHBIN` package should be written.
#[derive(Debug, Clone, PartialEq, Eq)]
pub struct DhbinWriteOptions {
    /// Four-byte application-level package identifier.
    pub package_id: [u8; 4],
    /// Intended package purpose for downstream readers.
    pub purpose: PackagePurpose,
    /// Compression algorithm to use for the payload section.
    pub compression: CompressionKind,
    /// Writer-controlled flags reserved for higher-level consumers.
    pub flags: u8,
    /// Optional MessagePack metadata bytes to emit as a metadata section.
    pub metadata: Option<Vec<u8>>,
    /// Integrity section policy for the written package.
    pub integrity: IntegrityKind,
}

impl View for DhbinWriteOptions {
    type V = WriteOptionsView;

    open spec fn view(&self) -> WriteOptionsView {
        WriteOptionsView {
            package_id: self.package_id@,
            purpose: self.purpose,
            compression: self.compression,
            flags: self.flags,
            metadata: opt_bytes_view(self.metadata),
            integrity: self.integrity,
        }
    }
}

/// Reader utilities for parsing `DHBIN` package headers, sections, and payloads.
pub struct DhbinReader;

impl DhbinReader {
    /// Parse the fixed-size package header from raw container bytes.
    pub fn read_header(bytes: &[u8]) -> (r: Result<PackageHeader, DhbinDecodeError>)
        ensures
            match r {
                Ok(h) => spec_parse_header(DHBIN_MAGIC@, bytes@) == Ok::<HeaderView, DecodeFailure>(
                    h@,
                ),
                Err(e) => spec_parse_header(DHBIN_MAGIC@, bytes@) == Err::<
                    HeaderView,
                    DecodeFailure,
                >(e@),
            },
    {
        read_header(DHBIN_MAGIC, bytes)
    }

    /// Parse the section table described by a previously decoded header.
    pub fn read_sections(bytes: &[u8], header: &PackageHeader) -> (r: Result<
        Vec<SectionDescriptor>,
        DhbinDecodeError,
    >)
        ensures
            match r {
                Ok(ds) => spec_parse_sections(bytes@, header@) == Ok::<
                    Seq<Descriptor>,
                    DecodeFailure,
                >(ds@),
                Err(e) => spec_parse_sections(bytes@, header@) == Err::<
                    Seq<Descriptor>,
                    DecodeFailure,
                >(e@),
            },
    {
        read_sections(bytes, header)
    }

    /// Read and decompress the payload section from a raw container.
    pub fn read_payload_bytes(bytes: &[u8]) -> (r: Result<Vec<u8>, DhbinDecodeError>)
        ensures
            bytes_result_view(r) == spec_read_payload(DHBIN_MAGIC@, bytes@),
    {
        read_payload_bytes(DHBIN_MAGIC, bytes)
    }

    /// Read a full package with caller-controlled metadata and integrity behavior.
    pub fn read_package(bytes: &[u8], options: &DhbinReadOptions) -> (r: Result<
        DecodedPackage,
        DhbinDecodeError,
    >)
        ensures
            package_result_view(r) == spec_read_package(DHBIN_MAGIC@, bytes@, options@),
    {
        let policy = ReadOptions {
            verify_integrity: options.verify_integrity,
            load_metadata: options.load_metadata,
        };
        read_package(DHBIN_MAGIC, bytes, &policy)
    }

    /// Read a package using the default policy advertised by its [`PackagePurpose`].
    pub fn read_package_default(bytes: &[u8]) -> (r: Result<DecodedPackage, DhbinDecodeError>)
        ensures
            package_result_view(r) == match spec_parse_header(DHBIN_MAGIC@, bytes@) {
                Err(e) => Err(e),
                Ok(h) => spec_read_package(
                    DHBIN_MAGIC@,
                    bytes@,
                    h.purpose.spec_default_read_options(),
                ),
            },
    {
        read_package_default(DHBIN_MAGIC, bytes)
    }
}

/// Writer utilities for creating `DHBIN` packages from raw MessagePack payloads.
pub struct DhbinWriter;

impl DhbinWriter {
    /// Write a `DHBIN` package from raw MessagePack payload bytes.
    pub fn write_payload_bytes(payload: &[u8], options: &DhbinWriteOptions) -> (r: Result<
        Vec<u8>,
        DhbinEncodeError,
    >)
        ensures
            r matches Ok(b) ==> spec_write_fits(
                spec_payload_section(payload@, options.compression).len(),
                options@,
            ) && b@ == spec_container_bytes(
                DHBIN_MAGIC@,
                spec_payload_section(payload@, options.compression),
                options@,
            ),
            r matches Ok(b) ==> forall|opts: ReadOptions|
                spec_read_package(DHBIN_MAGIC@, b@, opts) == Ok::<PackageView, DecodeFailure>(
                    spec_read_back(
                        options@,
                        spec_payload_section(payload@, options.compression).len(),
                        payload@,
                        opts,
                    ),
                ),
            r matches Ok(b) ==> spec_read_payload(DHBIN_MAGIC@, b@) == Ok::<Seq<u8>, DecodeFailure>(
                payload@,
            ),
            r is Ok <==> spec_write_fits(
                spec_payload_section(payload@, options.compression).len(),
                options@,
            ),
            r matches Err(e) ==> e is SectionTooLarge,
    {
        let metadata = match &options.metadata {
            Some(m) => Some(m.as_slice()),
            None => None,
        };
        let r = write_payload_bytes(
            DHBIN_MAGIC,
            payload,
            options.package_id,
            options.purpose,
            options.compression,
            options.flags,
            metadata,
            options.integrity,
        );
        proof {
            if r is Ok {
                lemma_read_back(
                    DHBIN_MAGIC,
                    spec_payload_section(payload@, options.compression),
                    payload@,
                    options@,
                );
            }
        }
        r
    }
}

} // verus!
