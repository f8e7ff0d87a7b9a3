//! The version-2 package container shared by the `DHBIN` and `RPKG` formats.
//!
//! A container is a 28-byte header, a table of 24-byte section descriptors and
//! the section contents: a payload (optionally LZ4-framed), optional metadata and
//! an optional SHA-256 integrity section over header, table and payload.
use vstd::prelude::*;
use vstd::slice::slice_subrange;

use crate::text::{push_decimal, push_str, spec_decimal, string_from_chars};
use crate::codec::{
    lz4_frame_compress, lz4_frame_decoded, lz4_frame_decompress, lz4_frame_encoded, sha256,
    sha256_digest,
};

use crate::bytes::{bytes_equal, copy_range, extend_bytes, push_u16_le, push_u32_le, push_u64_le, le_u16, le_u32, le_u64, read_u16_le, read_u32_le, read_u64_le, u16_at, u32_at, u64_at};

verus! {

/// The on-disk wire-format version this library reads and writes.
pub const WIRE_VERSION: u8 = 2;

/// Length of the fixed header.
pub const HEADER_LEN: usize = 28;

/// Length of one section-table entry.
pub const SECTION_DESCRIPTOR_LEN: usize = 24;

/// Format discriminator of a MessagePack payload section.
pub const PAYLOAD_FORMAT_MESSAGEPACK: u8 = 1;

/// Format discriminator of a MessagePack metadata section.
pub const METADATA_FORMAT_MESSAGEPACK: u8 = 1;

/// Format discriminator of a SHA-256 integrity section.
pub const INTEGRITY_FORMAT_SHA256: u8 = 1;

/// Describes how readers should treat the package by default.
#[derive(Debug, Clone, Copy, PartialEq, Eq, Structural)]
pub enum PackagePurpose {
    /// Fully featured package intended for standard read paths.
    Standard,
    /// Package optimized for fast payload reads where metadata is usually optional.
    FastPayload,
    /// Package optimized for embedded runtime assets with minimal startup overhead.
    Embedded,
}

/// Compression algorithm applied to the payload section.
#[derive(Debug, Clone, Copy, PartialEq, Eq, Structural)]
pub enum CompressionKind {
    /// The payload is stored without compression.
    Uncompressed,
    /// The payload is compressed using an LZ4 frame.
    Lz4Frame,
}

/// Integrity algorithm used for the package integrity section.
#[derive(Debug, Clone, Copy, PartialEq, Eq, Structural)]
pub enum IntegrityKind {
    /// No integrity section is stored.
    NoIntegrity,
    /// The integrity section stores a SHA-256 digest.
    Sha256,
}

/// Logical section type stored in the package section table.
#[derive(Debug, Clone, Copy, PartialEq, Eq, Structural)]
pub enum SectionKind {
    /// The primary MessagePack payload section.
    Payload,
    /// Optional MessagePack metadata section.
    Metadata,
    /// Optional integrity section.
    Integrity,
    /// Reserved section kind for future chunk index support.
    ChunkIndex,
}

/// What went wrong while reading a container, as the contracts speak of it.
#[derive(Debug, Clone, Copy, PartialEq, Eq, Structural)]
pub enum DecodeFailure {
    UnsupportedFormat,
    TruncatedHeader,
    UnsupportedWireVersion(u8),
    UnsupportedPurpose(u8),
    UnsupportedCompression(u8),
    UnsupportedIntegrity(u8),
    UnsupportedSectionKind(u8),
    InvalidSectionTable,
    MissingPayloadSection,
    InvalidMetadataSection,
    InvalidIntegritySection,
    InvalidSectionRange,
    InvalidPayloadFormat,
    InvalidMetadataFormat,
    ChecksumMismatch,
    Compression,
    MessagePack,
}

/// `rmp_serde::decode::Error`, carried by a failed payload deserialization.
#[verifier::external_type_specification]
#[verifier::external_body]
pub struct ExRmpDecodeError(rmp_serde::decode::Error);

/// `rmp_serde::encode::Error`, carried by a failed payload serialization.
#[verifier::external_type_specification]
#[verifier::external_body]
pub struct ExRmpEncodeError(rmp_serde::encode::Error);

/// Errors that can occur while decoding a container.
#[derive(Debug)]
pub enum DecodeError {
    /// The input did not begin with the container magic.
    UnsupportedFormat,
    /// The input ended before the fixed-size header could be read fully.
    TruncatedHeader,
    /// The container advertised a wire-format version that is not supported.
    UnsupportedWireVersion(u8),
    /// The package purpose byte did not map to a known [`PackagePurpose`].
    UnsupportedPurpose(u8),
    /// The payload compression byte did not map to a known [`CompressionKind`].
    UnsupportedCompression(u8),
    /// The integrity-section format byte did not map to a known [`IntegrityKind`].
    UnsupportedIntegrity(u8),
    /// A section-table entry used an unknown [`SectionKind`] discriminator.
    UnsupportedSectionKind(u8),
    /// The section table offset, length, or entry count was internally inconsistent.
    InvalidSectionTable,
    /// No payload section was present in the section table.
    MissingPayloadSection,
    /// The metadata section length or format was invalid.
    InvalidMetadataSection,
    /// The integrity section length or format was invalid.
    InvalidIntegritySection,
    /// A section offset or length pointed outside the container byte range.
    InvalidSectionRange,
    /// The payload section did not use the MessagePack format discriminator.
    InvalidPayloadFormat,
    /// The metadata section did not use the MessagePack format discriminator.
    InvalidMetadataFormat,
    /// The stored integrity digest did not match the recomputed digest.
    ChecksumMismatch,
    /// Decompression of the payload section failed.
    Compression(std::io::Error),
    /// MessagePack deserialization of the payload failed.
    MessagePack(rmp_serde::decode::Error),
}

impl View for DecodeError {
    type V = DecodeFailure;

    open spec fn view(&self) -> DecodeFailure {
        match self {
            DecodeError::UnsupportedFormat => DecodeFailure::UnsupportedFormat,
            DecodeError::TruncatedHeader => DecodeFailure::TruncatedHeader,
            DecodeError::UnsupportedWireVersion(v) => DecodeFailure::UnsupportedWireVersion(*v),
            DecodeError::UnsupportedPurpose(v) => DecodeFailure::UnsupportedPurpose(*v),
            DecodeError::UnsupportedCompression(v) => DecodeFailure::UnsupportedCompression(*v),
            DecodeError::UnsupportedIntegrity(v) => DecodeFailure::UnsupportedIntegrity(*v),
            DecodeError::UnsupportedSectionKind(v) => DecodeFailure::UnsupportedSectionKind(*v),
            DecodeError::InvalidSectionTable => DecodeFailure::InvalidSectionTable,
            DecodeError::MissingPayloadSection => DecodeFailure::MissingPayloadSection,
            DecodeError::InvalidMetadataSection => DecodeFailure::InvalidMetadataSection,
            DecodeError::InvalidIntegritySection => DecodeFailure::InvalidIntegritySection,
            DecodeError::InvalidSectionRange => DecodeFailure::InvalidSectionRange,
            DecodeError::InvalidPayloadFormat => DecodeFailure::InvalidPayloadFormat,
            DecodeError::InvalidMetadataFormat => DecodeFailure::InvalidMetadataFormat,
            DecodeError::ChecksumMismatch => DecodeFailure::ChecksumMismatch,
            DecodeError::Compression(_) => DecodeFailure::Compression,
            DecodeError::MessagePack(_) => DecodeFailure::MessagePack,
        }
    }
}

/// Errors that can occur while encoding a container.
#[derive(Debug)]
pub enum EncodeError {
    /// MessagePack serialization of the payload or metadata failed.
    MessagePack(rmp_serde::encode::Error),
    /// Compression of the payload section failed.
    Compression(std::io::Error),
    /// Finalization of the LZ4 frame failed after compression.
    CompressionFrame(lz4_flex::frame::Error),
    /// The sections together are longer than an in-memory buffer can address.
    SectionTooLarge,
    /// The length of a checksummed metadata trailer never matched the length its header
    /// announces.
    UnsettledMetadata,
}

impl PackagePurpose {
    /// The header byte that stands for this purpose.
    pub open spec fn spec_byte(self) -> u8 {
        match self {
            PackagePurpose::Standard => 0,
            PackagePurpose::FastPayload => 1,
            PackagePurpose::Embedded => 2,
        }
    }

    /// The purpose a header byte stands for, if any.
    pub open spec fn spec_from_byte(v: u8) -> Option<PackagePurpose> {
        if v == 0 {
            Some(PackagePurpose::Standard)
        } else if v == 1 {
            Some(PackagePurpose::FastPayload)
        } else if v == 2 {
            Some(PackagePurpose::Embedded)
        } else {
            None
        }
    }

    /// The header byte that stands for this purpose.
    pub fn to_byte(self) -> (r: u8)
        ensures
            r == self.spec_byte(),
            PackagePurpose::spec_from_byte(r) == Some(self),
    {
        match self {
            PackagePurpose::Standard => 0,
            PackagePurpose::FastPayload => 1,
            PackagePurpose::Embedded => 2,
        }
    }

    /// Decodes a header byte; unknown values are rejected.
    pub fn from_byte(value: u8) -> (r: Result<PackagePurpose, DecodeError>)
        ensures
            match r {
                Ok(p) => PackagePurpose::spec_from_byte(value) == Some(p),
                Err(e) => PackagePurpose::spec_from_byte(value) is None && e@
                    == DecodeFailure::UnsupportedPurpose(value),
            },
    {
        match value {
            0 => Ok(PackagePurpose::Standard),
            1 => Ok(PackagePurpose::FastPayload),
            2 => Ok(PackagePurpose::Embedded),
            _ => Err(DecodeError::UnsupportedPurpose(value)),
        }
    }

    /// The read policy this purpose recommends: a standard package verifies its
    /// integrity section and loads metadata; the fast and embedded profiles skip both.
    pub open spec fn spec_default_read_options(self) -> ReadOptions {
        match self {
            PackagePurpose::Standard => ReadOptions { verify_integrity: true, load_metadata: true },
            _ => ReadOptions { verify_integrity: false, load_metadata: false },
        }
    }

    /// Returns the default read options recommended for this package purpose.
    pub fn default_read_options(self) -> (r: ReadOptions)
        ensures
            r == self.spec_default_read_options(),
    {
        match self {
            PackagePurpose::Standard => ReadOptions::default(),
            PackagePurpose::FastPayload | PackagePurpose::Embedded => ReadOptions {
                verify_integrity: false,
                load_metadata: false,
            },
        }
    }
}

impl CompressionKind {
    /// The header byte that stands for this compression.
    pub open spec fn spec_byte(self) -> u8 {
        match self {
            CompressionKind::Uncompressed => 0,
            CompressionKind::Lz4Frame => 1,
        }
    }

    /// The compression a header byte stands for, if any.
    pub open spec fn spec_from_byte(v: u8) -> Option<CompressionKind> {
        if v == 0 {
            Some(CompressionKind::Uncompressed)
        } else if v == 1 {
            Some(CompressionKind::Lz4Frame)
        } else {
            None
        }
    }

    /// The header byte that stands for this compression.
    pub fn to_byte(self) -> (r: u8)
        ensures
            r == self.spec_byte(),
            CompressionKind::spec_from_byte(r) == Some(self),
    {
        match self {
            CompressionKind::Uncompressed => 0,
            CompressionKind::Lz4Frame => 1,
        }
    }

    /// Decodes a header byte; unknown values are rejected.
    pub fn from_byte(value: u8) -> (r: Result<CompressionKind, DecodeError>)
        ensures
            match r {
                Ok(c) => CompressionKind::spec_from_byte(value) == Some(c),
                Err(e) => CompressionKind::spec_from_byte(value) is None && e@
                    == DecodeFailure::UnsupportedCompression(value),
            },
    {
        match value {
            0 => Ok(CompressionKind::Uncompressed),
            1 => Ok(CompressionKind::Lz4Frame),
            _ => Err(DecodeError::UnsupportedCompression(value)),
        }
    }
}

impl IntegrityKind {
    /// The integrity kind a section-format byte stands for, if any.
    pub open spec fn spec_from_byte(v: u8) -> Option<IntegrityKind> {
        if v == 0 {
            Some(IntegrityKind::NoIntegrity)
        } else if v == 1 {
            Some(IntegrityKind::Sha256)
        } else {
            None
        }
    }

    /// Decodes a section-format byte; unknown values are rejected.
    pub fn from_byte(value: u8) -> (r: Result<IntegrityKind, DecodeError>)
        ensures
            match r {
                Ok(k) => IntegrityKind::spec_from_byte(value) == Some(k),
                Err(e) => IntegrityKind::spec_from_byte(value) is None && e@
                    == DecodeFailure::UnsupportedIntegrity(value),
            },
    {
        match value {
            0 => Ok(IntegrityKind::NoIntegrity),
            1 => Ok(IntegrityKind::Sha256),
            _ => Err(DecodeError::UnsupportedIntegrity(value)),
        }
    }
}

impl SectionKind {
    /// The table byte that stands for this section kind.
    pub open spec fn spec_byte(self) -> u8 {
        match self {
            SectionKind::Payload => 1,
            SectionKind::Metadata => 2,
            SectionKind::Integrity => 3,
            SectionKind::ChunkIndex => 4,
        }
    }

    /// The section kind a table byte stands for, if any.
    pub open spec fn spec_from_byte(v: u8) -> Option<SectionKind> {
        if v == 1 {
            Some(SectionKind::Payload)
        } else if v == 2 {
            Some(SectionKind::Metadata)
        } else if v == 3 {
            Some(SectionKind::Integrity)
        } else if v == 4 {
            Some(SectionKind::ChunkIndex)
        } else {
            None
        }
    }

    /// The table byte that stands for this section kind.
    pub fn to_byte(self) -> (r: u8)
        ensures
            r == self.spec_byte(),
            SectionKind::spec_from_byte(r) == Some(self),
    {
        match self {
            SectionKind::Payload => 1,
            SectionKind::Metadata => 2,
            SectionKind::Integrity => 3,
            SectionKind::ChunkIndex => 4,
        }
    }

    /// Decodes a table byte; unknown values are rejected.
    pub fn from_byte(value: u8) -> (r: Result<SectionKind, DecodeError>)
        ensures
            match r {
                Ok(k) => SectionKind::spec_from_byte(value) == Some(k),
                Err(e) => SectionKind::spec_from_byte(value) is None && e@
                    == DecodeFailure::UnsupportedSectionKind(value),
            },
    {
        match value {
            1 => Ok(SectionKind::Payload),
            2 => Ok(SectionKind::Metadata),
            3 => Ok(SectionKind::Integrity),
            4 => Ok(SectionKind::ChunkIndex),
            _ => Err(DecodeError::UnsupportedSectionKind(value)),
        }
    }
}

/// Parsed header values from the fixed-size package header.
#[derive(Debug, Clone, Copy, PartialEq, Eq)]
pub struct PackageHeader {
    /// Wire-format version stored in the header.
    pub wire_version: u8,
    /// Four-byte application-level package identifier.
    pub package_id: [u8; 4],
    /// Package purpose advertised by the writer.
    pub purpose: PackagePurpose,
    /// Compression applied to the payload section.
    pub compression: CompressionKind,
    /// Writer-controlled flags reserved for higher-level packages.
    pub flags: u8,
    /// Number of section descriptors in the section table.
    pub section_count: u16,
    /// Byte offset of the section table from the start of the container.
    pub section_table_offset: u32,
    /// Total length in bytes of the section table.
    pub section_table_len: u32,
}

/// The header's values, with the package identifier as a byte sequence.
pub struct HeaderView {
    pub wire_version: u8,
    pub package_id: Seq<u8>,
    pub purpose: PackagePurpose,
    pub compression: CompressionKind,
    pub flags: u8,
    pub section_count: u16,
    pub section_table_offset: u32,
    pub section_table_len: u32,
}

impl View for PackageHeader {
    type V = HeaderView;

    open spec fn view(&self) -> HeaderView {
        HeaderView {
            wire_version: self.wire_version,
            package_id: self.package_id@,
            purpose: self.purpose,
            compression: self.compression,
            flags: self.flags,
            section_count: self.section_count,
            section_table_offset: self.section_table_offset,
            section_table_len: self.section_table_len,
        }
    }
}

/// Single section-table entry describing one payload, metadata, or integrity section.
#[derive(Debug, Clone, Copy, PartialEq, Eq, Structural)]
pub struct SectionDescriptor {
    /// Logical section type.
    pub kind: SectionKind,
    /// Format discriminator for the section contents.
    pub format: u8,
    /// Byte offset of the section contents from the start of the package.
    pub offset: u64,
    /// Length in bytes of the section contents.
    pub length: u64,
}

/// Controls optional integrity and metadata loading during package reads.
#[derive(Debug, Clone, Copy, PartialEq, Eq, Structural)]
pub struct ReadOptions {
    /// Whether the reader should verify the integrity section when present.
    pub verify_integrity: bool,
    /// Whether the reader should materialize metadata bytes when present.
    pub load_metadata: bool,
}

impl Default for ReadOptions {
    fn default() -> (r: ReadOptions)
        ensures
            r == (ReadOptions { verify_integrity: true, load_metadata: true }),
    {
        ReadOptions { verify_integrity: true, load_metadata: true }
    }
}

/// The bytes `magic` opens the input with.
pub open spec fn starts_with(b: Seq<u8>, magic: Seq<u8>) -> bool {
    b.len() >= magic.len() && b.take(magic.len() as int) == magic
}

/// The header `b` holds, or why it is refused.
pub open spec fn spec_parse_header(magic: Seq<u8>, b: Seq<u8>) -> Result<HeaderView, DecodeFailure> {
    if b.len() < HEADER_LEN {
        if starts_with(b, magic) {
            Err(DecodeFailure::TruncatedHeader)
        } else {
            Err(DecodeFailure::UnsupportedFormat)
        }
    } else if b.take(4) != magic {
        Err(DecodeFailure::UnsupportedFormat)
    } else if b[4] != WIRE_VERSION {
        Err(DecodeFailure::UnsupportedWireVersion(b[4]))
    } else if PackagePurpose::spec_from_byte(b[5]) is None {
        Err(DecodeFailure::UnsupportedPurpose(b[5]))
    } else if CompressionKind::spec_from_byte(b[6]) is None {
        Err(DecodeFailure::UnsupportedCompression(b[6]))
    } else {
        Ok(
            HeaderView {
                wire_version: b[4],
                package_id: b.subrange(8, 12),
                purpose: PackagePurpose::spec_from_byte(b[5]).unwrap(),
                compression: CompressionKind::spec_from_byte(b[6]).unwrap(),
                flags: b[7],
                section_count: u16_at(b, 12),
                section_table_offset: u32_at(b, 16),
                section_table_len: u32_at(b, 20),
            },
        )
    }
}

/// The 28 header bytes that describe `h`.
pub open spec fn spec_header_bytes(magic: Seq<u8>, h: HeaderView) -> Seq<u8> {
    magic + seq![h.wire_version, h.purpose.spec_byte(), h.compression.spec_byte(), h.flags]
        + h.package_id + le_u16(h.section_count) + seq![0u8, 0u8] + le_u32(h.section_table_offset)
        + le_u32(h.section_table_len) + seq![0u8, 0u8, 0u8, 0u8]
}

/// The 24 table bytes that describe `d`.
pub open spec fn spec_descriptor_bytes(d: SectionDescriptor) -> Seq<u8> {
    seq![d.kind.spec_byte(), d.format, 0u8, 0u8] + le_u64(d.offset) + le_u64(d.length) + seq![
        0u8,
        0u8,
        0u8,
        0u8,
    ]
}

/// The section table that describes `ds`, entry after entry.
pub open spec fn spec_table_bytes(ds: Seq<SectionDescriptor>) -> Seq<u8>
    decreases ds.len(),
{
    if ds.len() == 0 {
        Seq::empty()
    } else {
        spec_table_bytes(ds.drop_last()) + spec_descriptor_bytes(ds.last())
    }
}

/// The descriptor stored at `b[at..at + 24]`, taking its kind as given.
pub open spec fn spec_descriptor_at(b: Seq<u8>, at: int) -> SectionDescriptor {
    SectionDescriptor {
        kind: SectionKind::spec_from_byte(b[at]).unwrap(),
        format: b[at + 1],
        offset: u64_at(b, at + 4),
        length: u64_at(b, at + 12),
    }
}

/// The first `n` table entries that start at `start`, or the first unknown kind among them.
pub open spec fn spec_parse_entries(b: Seq<u8>, start: int, n: nat) -> Result<
    Seq<SectionDescriptor>,
    DecodeFailure,
>
    decreases n,
{
    if n == 0 {
        Ok(Seq::empty())
    } else {
        match spec_parse_entries(b, start, (n - 1) as nat) {
            Err(e) => Err(e),
            Ok(ds) => {
                let at = start + 24 * (n - 1);
                if SectionKind::spec_from_byte(b[at]) is None {
                    Err(DecodeFailure::UnsupportedSectionKind(b[at]))
                } else {
                    Ok(ds.push(spec_descriptor_at(b, at)))
                }
            },
        }
    }
}

/// The section table that header `h` describes in `b`, or why it is refused.
pub open spec fn spec_parse_sections(b: Seq<u8>, h: HeaderView) -> Result<
    Seq<SectionDescriptor>,
    DecodeFailure,
> {
    let offset = h.section_table_offset as int;
    let len = h.section_table_len as int;
    if offset + len > b.len() || offset < HEADER_LEN {
        Err(DecodeFailure::InvalidSectionTable)
    } else if len != h.section_count * SECTION_DESCRIPTOR_LEN {
        Err(DecodeFailure::InvalidSectionTable)
    } else {
        spec_parse_entries(b, offset, h.section_count as nat)
    }
}

proof fn lemma_parse_entries_shape(b: Seq<u8>, start: int, n: nat)
    ensures
        spec_parse_entries(b, start, n) matches Ok(ds) ==> ds.len() == n && forall|i: int|
            0 <= i < n ==> SectionKind::spec_from_byte(b[start + 24 * i]) is Some && #[trigger] ds[i]
                == spec_descriptor_at(b, start + 24 * i),
        (forall|i: int| 0 <= i < n ==> #[trigger] SectionKind::spec_from_byte(b[start + 24 * i]) is Some)
            ==> spec_parse_entries(b, start, n) is Ok,
        forall|j: int|
            0 <= j < n && #[trigger] SectionKind::spec_from_byte(b[start + 24 * j]) is None && (forall|
                i: int,
            | 0 <= i < j ==> #[trigger] SectionKind::spec_from_byte(b[start + 24 * i]) is Some)
                ==> spec_parse_entries(b, start, n) == Err::<Seq<SectionDescriptor>, DecodeFailure>(
                DecodeFailure::UnsupportedSectionKind(b[start + 24 * j]),
            ),
    decreases n,
{
    if n > 0 {
        lemma_parse_entries_shape(b, start, (n - 1) as nat);
        let m = (n - 1) as nat;
        assert forall|j: int|
            0 <= j < n && #[trigger] SectionKind::spec_from_byte(b[start + 24 * j]) is None && (forall|
                i: int,
            | 0 <= i < j ==> #[trigger] SectionKind::spec_from_byte(b[start + 24 * i]) is Some)
            implies spec_parse_entries(b, start, n) == Err::<Seq<SectionDescriptor>, DecodeFailure>(
            DecodeFailure::UnsupportedSectionKind(b[start + 24 * j]),
        ) by {
            if j < m {
                assert(spec_parse_entries(b, start, m) == Err::<Seq<SectionDescriptor>, DecodeFailure>(
                    DecodeFailure::UnsupportedSectionKind(b[start + 24 * j]),
                ));
            } else {
                assert forall|i: int| 0 <= i < m implies #[trigger] SectionKind::spec_from_byte(
                    b[start + 24 * i],
                ) is Some by {
                    assert(0 <= i < j);
                }
                assert(spec_parse_entries(b, start, m) is Ok);
            }
        }
    }
}

/// A section table is refused as malformed when it starts inside the header, runs past
/// the bytes, or its length is not 24 bytes per announced section. Otherwise, when every
/// entry's kind byte names a known kind, the table reads as one descriptor per announced
/// section, each read from its 24 bytes (kind byte, format byte, little-endian offset at +4
/// and length at +12); when one does not, the first unknown kind byte is reported.
pub proof fn lemma_section_table_entries(b: Seq<u8>, h: HeaderView)
    ensures
        (h.section_table_offset < HEADER_LEN || h.section_table_offset + h.section_table_len > b.len()
            || h.section_table_len != h.section_count * SECTION_DESCRIPTOR_LEN) ==> spec_parse_sections(b, h)
            == Err::<Seq<SectionDescriptor>, DecodeFailure>(DecodeFailure::InvalidSectionTable),
        spec_parse_sections(b, h) matches Ok(ds) ==> ds.len() == h.section_count && forall|i: int|
            0 <= i < h.section_count ==> SectionKind::spec_from_byte(
                b[h.section_table_offset + 24 * i],
            ) is Some && #[trigger] ds[i] == spec_descriptor_at(b, h.section_table_offset + 24 * i),
        !(h.section_table_offset < HEADER_LEN || h.section_table_offset + h.section_table_len > b.len()
            || h.section_table_len != h.section_count * SECTION_DESCRIPTOR_LEN) ==> {
            &&& (forall|i: int|
                0 <= i < h.section_count ==> #[trigger] SectionKind::spec_from_byte(
                    b[h.section_table_offset + 24 * i],
                ) is Some) ==> spec_parse_sections(b, h) is Ok
            &&& forall|j: int|
                0 <= j < h.section_count && #[trigger] SectionKind::spec_from_byte(
                    b[h.section_table_offset + 24 * j],
                ) is None && (forall|i: int|
                    0 <= i < j ==> #[trigger] SectionKind::spec_from_byte(
                        b[h.section_table_offset + 24 * i],
                    ) is Some) ==> spec_parse_sections(b, h) == Err::<
                    Seq<SectionDescriptor>,
                    DecodeFailure,
                >(DecodeFailure::UnsupportedSectionKind(b[h.section_table_offset + 24 * j]))
        },
{
    lemma_parse_entries_shape(b, h.section_table_offset as int, h.section_count as nat);
}

proof fn lemma_parse_entries_err_persists(b: Seq<u8>, start: int, m: nat, n: nat)
    requires
        m <= n,
        spec_parse_entries(b, start, m) is Err,
    ensures
        spec_parse_entries(b, start, n) == spec_parse_entries(b, start, m),
    decreases n - m,
{
    if m < n {
        lemma_parse_entries_err_persists(b, start, m, (n - 1) as nat);
    }
}

/// Parse the fixed-size package header that opens with `magic`.
pub fn read_header(magic: [u8; 4], bytes: &[u8]) -> (r: Result<PackageHeader, DecodeError>)
    ensures
        match r {
            Ok(h) => spec_parse_header(magic@, bytes@) == Ok::<HeaderView, DecodeFailure>(h@),
            Err(e) => spec_parse_header(magic@, bytes@) == Err::<HeaderView, DecodeFailure>(e@),
        },
{
    let ghost b = bytes@;
    if bytes.len() < HEADER_LEN {
        if bytes.len() >= 4 && bytes[0] == magic[0] && bytes[1] == magic[1] && bytes[2] == magic[2]
            && bytes[3] == magic[3] {
            assert(b.take(4) =~= magic@);
            return Err(DecodeError::TruncatedHeader);
        }
        proof {
            if starts_with(b, magic@) {
                assert(b.take(4)[0] == magic@[0]);
                assert(b.take(4)[1] == magic@[1]);
                assert(b.take(4)[2] == magic@[2]);
                assert(b.take(4)[3] == magic@[3]);
            }
        }
        return Err(DecodeError::UnsupportedFormat);
    }
    if !(bytes[0] == magic[0] && bytes[1] == magic[1] && bytes[2] == magic[2] && bytes[3]
        == magic[3]) {
        proof {
            if b.take(4) == magic@ {
                assert(b.take(4)[0] == magic@[0]);
                assert(b.take(4)[1] == magic@[1]);
                assert(b.take(4)[2] == magic@[2]);
                assert(b.take(4)[3] == magic@[3]);
            }
        }
        return Err(DecodeError::UnsupportedFormat);
    }
    assert(b.take(4) =~= magic@);
    let wire_version = bytes[4];
    if wire_version != WIRE_VERSION {
        return Err(DecodeError::UnsupportedWireVersion(wire_version));
    }
    let purpose = match PackagePurpose::from_byte(bytes[5]) {
        Ok(p) => p,
        Err(e) => return Err(e),
    };
    let compression = match CompressionKind::from_byte(bytes[6]) {
        Ok(c) => c,
        Err(e) => return Err(e),
    };
    let package_id = [bytes[8], bytes[9], bytes[10], bytes[11]];
    assert(package_id@ =~= b.subrange(8, 12));
    Ok(
        PackageHeader {
            wire_version,
            purpose,
            compression,
            flags: bytes[7],
            package_id,
            section_count: read_u16_le(bytes, 12),
            section_table_offset: read_u32_le(bytes, 16),
            section_table_len: read_u32_le(bytes, 20),
        },
    )
}

/// Parse the section table described by a previously decoded header.
pub fn read_sections(bytes: &[u8], header: &PackageHeader) -> (r: Result<
    Vec<SectionDescriptor>,
    DecodeError,
>)
    ensures
        match r {
            Ok(ds) => spec_parse_sections(bytes@, header@) == Ok::<
                Seq<SectionDescriptor>,
                DecodeFailure,
            >(ds@),
            Err(e) => spec_parse_sections(bytes@, header@) == Err::<
                Seq<SectionDescriptor>,
                DecodeFailure,
            >(e@),
        },
{
    let ghost b = bytes@;
    let offset = header.section_table_offset as usize;
    let len = header.section_table_len as usize;
    if offset > bytes.len() || len > bytes.len() - offset || offset < HEADER_LEN {
        return Err(DecodeError::InvalidSectionTable);
    }
    let count = header.section_count as usize;
    if len != count * SECTION_DESCRIPTOR_LEN {
        return Err(DecodeError::InvalidSectionTable);
    }
    let mut sections: Vec<SectionDescriptor> = Vec::new();
    let mut cursor = offset;
    let mut i: usize = 0;
    while i < count
        invariant
            i <= count,
            count == header.section_count,
            cursor == offset + 24 * i,
            offset + count * 24 <= b.len(),
            offset == header.section_table_offset,
            len == header.section_table_len,
            offset >= HEADER_LEN,
            len == count * 24,
            b == bytes@,
            spec_parse_entries(b, offset as int, i as nat) == Ok::<
                Seq<SectionDescriptor>,
                DecodeFailure,
            >(sections@),
        decreases count - i,
    {
        let kind = match SectionKind::from_byte(bytes[cursor]) {
            Ok(k) => k,
            Err(e) => {
                assert(cursor == offset + 24 * ((i + 1) - 1));
                assert(spec_parse_entries(b, offset as int, (i + 1) as nat) == Err::<
                    Seq<SectionDescriptor>,
                    DecodeFailure,
                >(DecodeFailure::UnsupportedSectionKind(b[cursor as int])));
                proof {
                    lemma_parse_entries_err_persists(b, offset as int, (i + 1) as nat, count as nat);
                }
                return Err(e);
            },
        };
        let d = SectionDescriptor {
            kind,
            format: bytes[cursor + 1],
            offset: read_u64_le(bytes, cursor + 4),
            length: read_u64_le(bytes, cursor + 12),
        };
        sections.push(d);
        cursor = cursor + SECTION_DESCRIPTOR_LEN;
        i = i + 1;
    }
    Ok(sections)
}


/// Fully decoded container with payload bytes and optional metadata.
#[derive(Debug, Clone, PartialEq, Eq)]
pub struct DecodedPackage {
    /// Parsed header values.
    pub header: PackageHeader,
    /// Parsed section descriptors from the section table.
    pub sections: Vec<SectionDescriptor>,
    /// Decompressed payload bytes.
    pub payload: Vec<u8>,
    /// Optional metadata bytes when metadata loading was enabled.
    pub metadata: Option<Vec<u8>>,
    /// Integrity kind reported by the container.
    pub integrity: IntegrityKind,
    /// Whether the integrity section was verified successfully during the read.
    pub integrity_verified: bool,
}

/// A decoded container as sequences.
pub struct PackageView {
    pub header: HeaderView,
    pub sections: Seq<SectionDescriptor>,
    pub payload: Seq<u8>,
    pub metadata: Option<Seq<u8>>,
    pub integrity: IntegrityKind,
    pub integrity_verified: bool,
}

/// The bytes of an optional byte buffer.
pub open spec fn opt_bytes_view(v: Option<Vec<u8>>) -> Option<Seq<u8>> {
    match v {
        Some(b) => Some(b@),
        None => None,
    }
}

impl View for DecodedPackage {
    type V = PackageView;

    open spec fn view(&self) -> PackageView {
        PackageView {
            header: self.header@,
            sections: self.sections@,
            payload: self.payload@,
            metadata: opt_bytes_view(self.metadata),
            integrity: self.integrity,
            integrity_verified: self.integrity_verified,
        }
    }
}

/// A read's outcome as the contracts speak of it.
pub open spec fn package_result_view(r: Result<DecodedPackage, DecodeError>) -> Result<
    PackageView,
    DecodeFailure,
> {
    match r {
        Ok(p) => Ok(p@),
        Err(e) => Err(e@),
    }
}

/// A payload read's outcome as the contracts speak of it.
pub open spec fn bytes_result_view(r: Result<Vec<u8>, DecodeError>) -> Result<Seq<u8>, DecodeFailure> {
    match r {
        Ok(p) => Ok(p@),
        Err(e) => Err(e@),
    }
}

/// The first descriptor of `kind` in table order.
pub open spec fn spec_find_section(ds: Seq<SectionDescriptor>, kind: SectionKind) -> Option<
    SectionDescriptor,
>
    decreases ds.len(),
{
    if ds.len() == 0 {
        None
    } else if ds[0].kind == kind {
        Some(ds[0])
    } else {
        spec_find_section(ds.drop_first(), kind)
    }
}

/// Whether `d` points inside `b`.
pub open spec fn range_ok(b: Seq<u8>, d: SectionDescriptor) -> bool {
    d.offset + d.length <= b.len()
}

/// The contents of section `d` in `b`.
pub open spec fn section_data(b: Seq<u8>, d: SectionDescriptor) -> Seq<u8> {
    b.subrange(d.offset as int, d.offset + d.length)
}

/// The payload that a stored payload section decodes to.
pub open spec fn spec_decompress(data: Seq<u8>, compression: CompressionKind) -> Option<Seq<u8>> {
    match compression {
        CompressionKind::Uncompressed => Some(data),
        CompressionKind::Lz4Frame => lz4_frame_decoded(data),
    }
}

/// The 32 bytes that hold digest `d` (a SHA-256 digest is exactly that long).
pub open spec fn digest_bytes(d: Seq<u8>) -> Seq<u8> {
    Seq::new(
        32,
        |i: int|
            if i < d.len() {
                d[i]
            } else {
                0u8
            },
    )
}

/// The digest an integrity section holds: SHA-256 over the re-encoded header,
/// the re-encoded section table and the stored payload section.
pub open spec fn spec_integrity_digest(
    magic: Seq<u8>,
    h: HeaderView,
    ds: Seq<SectionDescriptor>,
    payload_data: Seq<u8>,
) -> Seq<u8> {
    digest_bytes(sha256_digest(spec_header_bytes(magic, h) + spec_table_bytes(ds) + payload_data))
}

/// Why integrity section `i` fails verification, if it does.
pub open spec fn spec_integrity_failure(
    magic: Seq<u8>,
    b: Seq<u8>,
    h: HeaderView,
    ds: Seq<SectionDescriptor>,
    p: SectionDescriptor,
    i: SectionDescriptor,
) -> Option<DecodeFailure> {
    if i.format != INTEGRITY_FORMAT_SHA256 || i.length != 32 {
        Some(DecodeFailure::InvalidIntegritySection)
    } else if !range_ok(b, i) {
        Some(DecodeFailure::InvalidSectionRange)
    } else if section_data(b, i) != spec_integrity_digest(magic, h, ds, section_data(b, p)) {
        Some(DecodeFailure::ChecksumMismatch)
    } else {
        None
    }
}

/// The integrity kind the table advertises.
pub open spec fn spec_integrity_kind(ds: Seq<SectionDescriptor>) -> Result<IntegrityKind, DecodeFailure> {
    match spec_find_section(ds, SectionKind::Integrity) {
        None => Ok(IntegrityKind::NoIntegrity),
        Some(i) => match IntegrityKind::spec_from_byte(i.format) {
            Some(k) => Ok(k),
            None => Err(DecodeFailure::UnsupportedIntegrity(i.format)),
        },
    }
}

/// The metadata a read returns, or why it is refused.
pub open spec fn spec_metadata(b: Seq<u8>, ds: Seq<SectionDescriptor>, load: bool) -> Result<
    Option<Seq<u8>>,
    DecodeFailure,
> {
    if !load {
        Ok(None)
    } else {
        match spec_find_section(ds, SectionKind::Metadata) {
            None => Ok(None),
            Some(m) => if m.format != METADATA_FORMAT_MESSAGEPACK {
                Err(DecodeFailure::InvalidMetadataFormat)
            } else if !range_ok(b, m) {
                Err(DecodeFailure::InvalidSectionRange)
            } else {
                Ok(Some(section_data(b, m)))
            },
        }
    }
}

/// The payload section the table describes, or why it is refused.
pub open spec fn spec_payload_descriptor(b: Seq<u8>, ds: Seq<SectionDescriptor>) -> Result<
    SectionDescriptor,
    DecodeFailure,
> {
    match spec_find_section(ds, SectionKind::Payload) {
        None => Err(DecodeFailure::MissingPayloadSection),
        Some(p) => if p.format != PAYLOAD_FORMAT_MESSAGEPACK {
            Err(DecodeFailure::InvalidPayloadFormat)
        } else if !range_ok(b, p) {
            Err(DecodeFailure::InvalidSectionRange)
        } else {
            Ok(p)
        },
    }
}

/// The decoded payload of the container `b`, or why it is refused.
pub open spec fn spec_read_payload(magic: Seq<u8>, b: Seq<u8>) -> Result<Seq<u8>, DecodeFailure> {
    match spec_parse_header(magic, b) {
        Err(e) => Err(e),
        Ok(h) => match spec_parse_sections(b, h) {
            Err(e) => Err(e),
            Ok(ds) => match spec_payload_descriptor(b, ds) {
                Err(e) => Err(e),
                Ok(p) => match spec_decompress(section_data(b, p), h.compression) {
                    None => Err(DecodeFailure::Compression),
                    Some(payload) => Ok(payload),
                },
            },
        },
    }
}

/// What reading the container `b` under `opts` gives, or why it is refused.
pub open spec fn spec_read_package(magic: Seq<u8>, b: Seq<u8>, opts: ReadOptions) -> Result<
    PackageView,
    DecodeFailure,
> {
    match spec_parse_header(magic, b) {
        Err(e) => Err(e),
        Ok(h) => match spec_parse_sections(b, h) {
            Err(e) => Err(e),
            Ok(ds) => match spec_payload_descriptor(b, ds) {
                Err(e) => Err(e),
                Ok(p) => match spec_integrity_kind(ds) {
                    Err(e) => Err(e),
                    Ok(integrity) => {
                        let verify = opts.verify_integrity && integrity == IntegrityKind::Sha256;
                        let check = if verify {
                            spec_integrity_failure(
                                magic,
                                b,
                                h,
                                ds,
                                p,
                                spec_find_section(ds, SectionKind::Integrity).unwrap(),
                            )
                        } else {
                            None
                        };
                        match check {
                            Some(e) => Err(e),
                            None => match spec_metadata(b, ds, opts.load_metadata) {
                                Err(e) => Err(e),
                                Ok(metadata) => match spec_decompress(
                                    section_data(b, p),
                                    h.compression,
                                ) {
                                    None => Err(DecodeFailure::Compression),
                                    Some(payload) => Ok(
                                        PackageView {
                                            header: h,
                                            sections: ds,
                                            payload,
                                            metadata,
                                            integrity,
                                            integrity_verified: verify,
                                        },
                                    ),
                                },
                            },
                        }
                    },
                },
            },
        },
    }
}

/// The first descriptor of `kind` in table order.
pub fn find_section(sections: &[SectionDescriptor], kind: SectionKind) -> (r: Option<
    SectionDescriptor,
>)
    ensures
        r == spec_find_section(sections@, kind),
{
    let mut i: usize = 0;
    assert(sections@.skip(0) =~= sections@);
    while i < sections.len()
        invariant
            i <= sections@.len(),
            spec_find_section(sections@, kind) == spec_find_section(sections@.skip(i as int), kind),
        decreases sections@.len() - i,
    {
        let ghost rest = sections@.skip(i as int);
        assert(rest[0] == sections@[i as int]);
        assert(rest.drop_first() =~= sections@.skip(i + 1));
        if sections[i].kind == kind {
            return Some(sections[i]);
        }
        i = i + 1;
    }
    assert(sections@.skip(i as int).len() == 0);
    None
}

/// The contents of section `descriptor`, refused when it points outside `bytes`.
pub fn read_section_bytes<'a>(bytes: &'a [u8], descriptor: &SectionDescriptor) -> (r: Result<
    &'a [u8],
    DecodeError,
>)
    ensures
        match r {
            Ok(s) => range_ok(bytes@, *descriptor) && s@ == section_data(bytes@, *descriptor),
            Err(e) => !range_ok(bytes@, *descriptor) && e@ == DecodeFailure::InvalidSectionRange,
        },
{
    let len = bytes.len() as u64;
    if descriptor.offset > len || descriptor.length > len - descriptor.offset {
        return Err(DecodeError::InvalidSectionRange);
    }
    let start = descriptor.offset as usize;
    let end = (descriptor.offset + descriptor.length) as usize;
    Ok(slice_subrange(bytes, start, end))
}

/// The payload a stored payload section decodes to.
pub fn decompress_payload(data: &[u8], compression: CompressionKind) -> (r: Result<
    Vec<u8>,
    DecodeError,
>)
    ensures
        match r {
            Ok(v) => spec_decompress(data@, compression) == Some(v@),
            Err(e) => spec_decompress(data@, compression) is None && e@ == DecodeFailure::Compression,
        },
{
    match compression {
        CompressionKind::Uncompressed => Ok(copy_range(data, 0, data.len())),
        CompressionKind::Lz4Frame => match lz4_frame_decompress(data) {
            Ok(v) => Ok(v),
            Err(e) => Err(DecodeError::Compression(e)),
        },
    }
}

/// The 28 header bytes that describe `header`.
pub fn encode_header(magic: [u8; 4], header: &PackageHeader) -> (r: Vec<u8>)
    ensures
        r@ == spec_header_bytes(magic@, header@),
        r@.len() == HEADER_LEN,
{
    let mut bytes: Vec<u8> = Vec::new();
    bytes.push(magic[0]);
    bytes.push(magic[1]);
    bytes.push(magic[2]);
    bytes.push(magic[3]);
    assert(bytes@ =~= magic@);
    bytes.push(header.wire_version);
    bytes.push(header.purpose.to_byte());
    bytes.push(header.compression.to_byte());
    bytes.push(header.flags);
    let ghost b1 = bytes@;
    bytes.push(header.package_id[0]);
    bytes.push(header.package_id[1]);
    bytes.push(header.package_id[2]);
    bytes.push(header.package_id[3]);
    assert(bytes@ =~= b1 + header.package_id@);
    push_u16_le(&mut bytes, header.section_count);
    bytes.push(0);
    bytes.push(0);
    let ghost b2 = bytes@;
    push_u32_le(&mut bytes, header.section_table_offset);
    push_u32_le(&mut bytes, header.section_table_len);
    bytes.push(0);
    bytes.push(0);
    bytes.push(0);
    bytes.push(0);
    assert(bytes@ =~= spec_header_bytes(magic@, header@));
    bytes
}

proof fn lemma_table_bytes_len(ds: Seq<SectionDescriptor>)
    ensures
        spec_table_bytes(ds).len() == 24 * ds.len(),
    decreases ds.len(),
{
    if ds.len() > 0 {
        lemma_table_bytes_len(ds.drop_last());
    }
}

/// The section table that describes `descriptors`.
pub fn encode_sections(descriptors: &[SectionDescriptor]) -> (r: Vec<u8>)
    ensures
        r@ == spec_table_bytes(descriptors@),
        r@.len() == 24 * descriptors@.len(),
{
    let mut bytes: Vec<u8> = Vec::new();
    let mut i: usize = 0;
    while i < descriptors.len()
        invariant
            i <= descriptors@.len(),
            bytes@ == spec_table_bytes(descriptors@.take(i as int)),
        decreases descriptors@.len() - i,
    {
        let d = descriptors[i];
        let ghost before = bytes@;
        bytes.push(d.kind.to_byte());
        bytes.push(d.format);
        bytes.push(0);
        bytes.push(0);
        push_u64_le(&mut bytes, d.offset);
        push_u64_le(&mut bytes, d.length);
        bytes.push(0);
        bytes.push(0);
        bytes.push(0);
        bytes.push(0);
        assert(bytes@ =~= before + spec_descriptor_bytes(d));
        assert(descriptors@.take(i + 1).drop_last() =~= descriptors@.take(i as int));
        i = i + 1;
    }
    assert(descriptors@.take(i as int) =~= descriptors@);
    proof {
        lemma_table_bytes_len(descriptors@);
    }
    bytes
}

/// The digest an integrity section holds for a package: SHA-256 over the encoded header,
/// the encoded section table and the payload section's bytes.
pub fn compute_integrity_digest(
    magic: [u8; 4],
    header: &PackageHeader,
    sections: &[SectionDescriptor],
    payload: &[u8],
) -> (r: Vec<u8>)
    ensures
        r@ == spec_integrity_digest(magic@, header@, sections@, payload@),
{
    let mut data = encode_header(magic, header);
    let table = encode_sections(sections);
    extend_bytes(&mut data, table.as_slice());
    extend_bytes(&mut data, payload);
    let digest = sha256(data.as_slice());
    assert(digest_bytes(digest@) =~= digest@);
    digest
}

/// Checks integrity section `integrity` against the recomputed digest.
pub fn verify_integrity(
    magic: [u8; 4],
    bytes: &[u8],
    header: &PackageHeader,
    sections: &[SectionDescriptor],
    payload: &SectionDescriptor,
    integrity: &SectionDescriptor,
) -> (r: Result<(), DecodeError>)
    requires
        range_ok(bytes@, *payload),
    ensures
        match r {
            Ok(()) => spec_integrity_failure(
                magic@,
                bytes@,
                header@,
                sections@,
                *payload,
                *integrity,
            ) is None,
            Err(e) => spec_integrity_failure(
                magic@,
                bytes@,
                header@,
                sections@,
                *payload,
                *integrity,
            ) == Some(e@),
        },
{
    if integrity.format != INTEGRITY_FORMAT_SHA256 || integrity.length != 32 {
        return Err(DecodeError::InvalidIntegritySection);
    }
    let expected = match read_section_bytes(bytes, integrity) {
        Ok(s) => s,
        Err(e) => return Err(e),
    };
    let payload_bytes = match read_section_bytes(bytes, payload) {
        Ok(s) => s,
        Err(e) => return Err(e),
    };
    let actual = compute_integrity_digest(magic, header, sections, payload_bytes);
    if !bytes_equal(actual.as_slice(), expected) {
        return Err(DecodeError::ChecksumMismatch);
    }
    Ok(())
}


/// The payload section the table describes, refused when it is missing, does not use
/// the MessagePack format or points outside `bytes`.
fn payload_descriptor(bytes: &[u8], sections: &[SectionDescriptor]) -> (r: Result<
    SectionDescriptor,
    DecodeError,
>)
    ensures
        match r {
            Ok(p) => spec_payload_descriptor(bytes@, sections@) == Ok::<
                SectionDescriptor,
                DecodeFailure,
            >(p),
            Err(e) => spec_payload_descriptor(bytes@, sections@) == Err::<
                SectionDescriptor,
                DecodeFailure,
            >(e@),
        },
{
    let payload = match find_section(sections, SectionKind::Payload) {
        Some(p) => p,
        None => return Err(DecodeError::MissingPayloadSection),
    };
    if payload.format != PAYLOAD_FORMAT_MESSAGEPACK {
        return Err(DecodeError::InvalidPayloadFormat);
    }
    let len = bytes.len() as u64;
    if payload.offset > len || payload.length > len - payload.offset {
        return Err(DecodeError::InvalidSectionRange);
    }
    Ok(payload)
}

/// Read and decompress the payload section of a container that opens with `magic`.
pub fn read_payload_bytes(magic: [u8; 4], bytes: &[u8]) -> (r: Result<Vec<u8>, DecodeError>)
    ensures
        bytes_result_view(r) == spec_read_payload(magic@, bytes@),
{
    let header = match read_header(magic, bytes) {
        Ok(h) => h,
        Err(e) => return Err(e),
    };
    let sections = match read_sections(bytes, &header) {
        Ok(s) => s,
        Err(e) => return Err(e),
    };
    let payload = match payload_descriptor(bytes, sections.as_slice()) {
        Ok(p) => p,
        Err(e) => return Err(e),
    };
    let payload_slice = match read_section_bytes(bytes, &payload) {
        Ok(s) => s,
        Err(e) => return Err(e),
    };
    decompress_payload(payload_slice, header.compression)
}

/// The integrity kind the table advertises, refused when its format byte is unknown.
fn integrity_kind(sections: &[SectionDescriptor]) -> (r: Result<IntegrityKind, DecodeError>)
    ensures
        match r {
            Ok(k) => spec_integrity_kind(sections@) == Ok::<IntegrityKind, DecodeFailure>(k),
            Err(e) => spec_integrity_kind(sections@) == Err::<IntegrityKind, DecodeFailure>(e@),
        },
{
    match find_section(sections, SectionKind::Integrity) {
        Some(section) => IntegrityKind::from_byte(section.format),
        None => Ok(IntegrityKind::NoIntegrity),
    }
}

/// Read a full container with caller-controlled metadata and integrity behavior.
pub fn read_package(magic: [u8; 4], bytes: &[u8], options: &ReadOptions) -> (r: Result<
    DecodedPackage,
    DecodeError,
>)
    ensures
        package_result_view(r) == spec_read_package(magic@, bytes@, *options),
{
    let header = match read_header(magic, bytes) {
        Ok(h) => h,
        Err(e) => return Err(e),
    };
    let sections = match read_sections(bytes, &header) {
        Ok(s) => s,
        Err(e) => return Err(e),
    };
    let payload_desc = match payload_descriptor(bytes, sections.as_slice()) {
        Ok(p) => p,
        Err(e) => return Err(e),
    };
    let load_metadata = options.load_metadata;
    let verify = options.verify_integrity;
    let payload_slice = match read_section_bytes(bytes, &payload_desc) {
        Ok(s) => s,
        Err(e) => return Err(e),
    };
    let integrity = match integrity_kind(sections.as_slice()) {
        Ok(k) => k,
        Err(e) => return Err(e),
    };
    let verified = verify && integrity == IntegrityKind::Sha256;
    if verified {
        let integrity_desc = match find_section(sections.as_slice(), SectionKind::Integrity) {
            Some(d) => d,
            None => {
                assert(false);
                return Err(DecodeError::InvalidIntegritySection);
            },
        };
        match verify_integrity(
            magic,
            bytes,
            &header,
            sections.as_slice(),
            &payload_desc,
            &integrity_desc,
        ) {
            Ok(()) => {},
            Err(e) => return Err(e),
        }
    }
    let metadata = if load_metadata {
        match find_section(sections.as_slice(), SectionKind::Metadata) {
            Some(section) => {
                if section.format != METADATA_FORMAT_MESSAGEPACK {
                    return Err(DecodeError::InvalidMetadataFormat);
                }
                match read_section_bytes(bytes, &section) {
                    Ok(s) => {
                        let m = copy_range(s, 0, s.len());
                        assert(m@ =~= s@);
                        Some(m)
                    },
                    Err(e) => return Err(e),
                }
            },
            None => None,
        }
    } else {
        None
    };
    assert(spec_metadata(bytes@, sections@, load_metadata) == Ok::<
        Option<Seq<u8>>,
        DecodeFailure,
    >(opt_bytes_view(metadata)));
    let payload = match decompress_payload(payload_slice, header.compression) {
        Ok(p) => p,
        Err(e) => return Err(e),
    };
    let r = DecodedPackage {
        header,
        sections,
        payload,
        metadata,
        integrity,
        integrity_verified: verified,
    };
    assert(spec_read_package(magic@, bytes@, *options) == Ok::<PackageView, DecodeFailure>(r@));
    Ok(r)
}

/// Read a container using the default policy advertised by its [`PackagePurpose`].
pub fn read_package_default(magic: [u8; 4], bytes: &[u8]) -> (r: Result<
    DecodedPackage,
    DecodeError,
>)
    ensures
        package_result_view(r) == match spec_parse_header(magic@, bytes@) {
            Err(e) => Err(e),
            Ok(h) => spec_read_package(magic@, bytes@, h.purpose.spec_default_read_options()),
        },
{
    let header = match read_header(magic, bytes) {
        Ok(h) => h,
        Err(e) => return Err(e),
    };
    let options = header.purpose.default_read_options();
    read_package(magic, bytes, &options)
}


/// Write options as sequences.
pub struct WriteOptionsView {
    pub package_id: Seq<u8>,
    pub purpose: PackagePurpose,
    pub compression: CompressionKind,
    pub flags: u8,
    pub metadata: Option<Seq<u8>>,
    pub integrity: IntegrityKind,
}

/// The bytes of an optional borrowed byte slice.
pub open spec fn opt_slice_view(v: Option<&[u8]>) -> Option<Seq<u8>> {
    match v {
        Some(b) => Some(b@),
        None => None,
    }
}

/// The write options made of these fields.
pub open spec fn write_view(
    package_id: [u8; 4],
    purpose: PackagePurpose,
    compression: CompressionKind,
    flags: u8,
    metadata: Option<&[u8]>,
    integrity: IntegrityKind,
) -> WriteOptionsView {
    WriteOptionsView {
        package_id: package_id@,
        purpose,
        compression,
        flags,
        metadata: opt_slice_view(metadata),
        integrity,
    }
}

/// The payload section stored for `payload` under `compression`.
pub open spec fn spec_payload_section(payload: Seq<u8>, compression: CompressionKind) -> Seq<u8> {
    match compression {
        CompressionKind::Uncompressed => payload,
        CompressionKind::Lz4Frame => lz4_frame_encoded(payload),
    }
}

/// The length of the metadata section `o` asks for (zero without one).
pub open spec fn spec_metadata_len(o: WriteOptionsView) -> nat {
    match o.metadata {
        Some(m) => m.len(),
        None => 0,
    }
}

/// The bytes of the metadata section `o` asks for (none without one).
pub open spec fn spec_metadata_bytes(o: WriteOptionsView) -> Seq<u8> {
    match o.metadata {
        Some(m) => m,
        None => Seq::empty(),
    }
}

/// How many sections a written container has: the payload, then metadata and
/// integrity when asked for.
pub open spec fn spec_section_count(o: WriteOptionsView) -> nat {
    1 + (if o.metadata is Some {
        1nat
    } else {
        0nat
    }) + (if o.integrity == IntegrityKind::Sha256 {
        1nat
    } else {
        0nat
    })
}

/// The integrity bytes a written container ends with (none without integrity).
pub open spec fn spec_integrity_len(o: WriteOptionsView) -> nat {
    if o.integrity == IntegrityKind::Sha256 {
        32
    } else {
        0
    }
}

/// Where the section contents begin: after the header and the table.
pub open spec fn spec_data_start(o: WriteOptionsView) -> nat {
    (HEADER_LEN + SECTION_DESCRIPTOR_LEN * spec_section_count(o)) as nat
}

/// Whether a container with a payload section of `section_len` bytes can be held in memory.
pub open spec fn spec_write_fits(section_len: nat, o: WriteOptionsView) -> bool {
    spec_data_start(o) + section_len + spec_metadata_len(o) + spec_integrity_len(o) <= usize::MAX
}

/// The section table of a written container: payload, then metadata, then integrity,
/// laid out back to back after the table.
pub open spec fn spec_written_descriptors(section_len: nat, o: WriteOptionsView) -> Seq<
    SectionDescriptor,
> {
    let start = spec_data_start(o);
    let payload = SectionDescriptor {
        kind: SectionKind::Payload,
        format: PAYLOAD_FORMAT_MESSAGEPACK,
        offset: start as u64,
        length: section_len as u64,
    };
    let after_payload = start + section_len;
    let with_metadata = match o.metadata {
        Some(m) => seq![
            payload,
            SectionDescriptor {
                kind: SectionKind::Metadata,
                format: METADATA_FORMAT_MESSAGEPACK,
                offset: after_payload as u64,
                length: m.len() as u64,
            },
        ],
        None => seq![payload],
    };
    if o.integrity == IntegrityKind::Sha256 {
        with_metadata.push(
            SectionDescriptor {
                kind: SectionKind::Integrity,
                format: INTEGRITY_FORMAT_SHA256,
                offset: (after_payload + spec_metadata_len(o)) as u64,
                length: 32,
            },
        )
    } else {
        with_metadata
    }
}

/// The header of a written container.
pub open spec fn spec_written_header(o: WriteOptionsView) -> HeaderView {
    HeaderView {
        wire_version: WIRE_VERSION,
        package_id: o.package_id,
        purpose: o.purpose,
        compression: o.compression,
        flags: o.flags,
        section_count: spec_section_count(o) as u16,
        section_table_offset: HEADER_LEN as u32,
        section_table_len: (SECTION_DESCRIPTOR_LEN * spec_section_count(o)) as u32,
    }
}

/// The container written for payload section `section` under `o`: header, table,
/// payload section, metadata, and the SHA-256 integrity digest when asked for.
pub open spec fn spec_container_bytes(magic: Seq<u8>, section: Seq<u8>, o: WriteOptionsView) -> Seq<
    u8,
> {
    let h = spec_written_header(o);
    let ds = spec_written_descriptors(section.len(), o);
    spec_header_bytes(magic, h) + spec_table_bytes(ds) + section + spec_metadata_bytes(o) + (
    if o.integrity == IntegrityKind::Sha256 {
        spec_integrity_digest(magic, h, ds, section)
    } else {
        Seq::empty()
    })
}

/// Lays out a container around an already encoded payload section.
pub fn assemble_container(
    magic: [u8; 4],
    section: &[u8],
    package_id: [u8; 4],
    purpose: PackagePurpose,
    compression: CompressionKind,
    flags: u8,
    metadata: Option<&[u8]>,
    integrity: IntegrityKind,
) -> (r: Result<Vec<u8>, EncodeError>)
    ensures
        ({
            let o = write_view(package_id, purpose, compression, flags, metadata, integrity);
            match r {
                Ok(b) => spec_write_fits(section@.len(), o) && b@ == spec_container_bytes(
                    magic@,
                    section@,
                    o,
                ),
                Err(e) => !spec_write_fits(section@.len(), o) && e is SectionTooLarge,
            }
        }),
{
    let ghost o = write_view(package_id, purpose, compression, flags, metadata, integrity);
    let has_metadata = metadata.is_some();
    let sha = integrity == IntegrityKind::Sha256;
    let mut count: u16 = 1;
    if has_metadata {
        count = count + 1;
    }
    if sha {
        count = count + 1;
    }
    assert(count == spec_section_count(o));
    let table_len: usize = SECTION_DESCRIPTOR_LEN * (count as usize);
    let start: usize = HEADER_LEN + table_len;
    let metadata_len: usize = match metadata {
        Some(m) => m.len(),
        None => 0,
    };
    let integrity_len: usize = if sha {
        32
    } else {
        0
    };
    if section.len() > usize::MAX - start {
        return Err(EncodeError::SectionTooLarge);
    }
    let after_payload = start + section.len();
    if metadata_len > usize::MAX - after_payload {
        return Err(EncodeError::SectionTooLarge);
    }
    let after_metadata = after_payload + metadata_len;
    if integrity_len > usize::MAX - after_metadata {
        return Err(EncodeError::SectionTooLarge);
    }
    let mut descriptors: Vec<SectionDescriptor> = Vec::new();
    descriptors.push(
        SectionDescriptor {
            kind: SectionKind::Payload,
            format: PAYLOAD_FORMAT_MESSAGEPACK,
            offset: start as u64,
            length: section.len() as u64,
        },
    );
    if has_metadata {
        descriptors.push(
            SectionDescriptor {
                kind: SectionKind::Metadata,
                format: METADATA_FORMAT_MESSAGEPACK,
                offset: after_payload as u64,
                length: metadata_len as u64,
            },
        );
    }
    if sha {
        descriptors.push(
            SectionDescriptor {
                kind: SectionKind::Integrity,
                format: INTEGRITY_FORMAT_SHA256,
                offset: after_metadata as u64,
                length: 32,
            },
        );
    }
    assert(descriptors@ =~= spec_written_descriptors(section@.len(), o));
    let header = PackageHeader {
        wire_version: WIRE_VERSION,
        package_id,
        purpose,
        compression,
        flags,
        section_count: count,
        section_table_offset: HEADER_LEN as u32,
        section_table_len: table_len as u32,
    };
    assert(header@ == spec_written_header(o));
    let mut bytes = encode_header(magic, &header);
    let table = encode_sections(descriptors.as_slice());
    extend_bytes(&mut bytes, table.as_slice());
    extend_bytes(&mut bytes, section);
    let ghost digest_input = bytes@;
    match metadata {
        Some(m) => extend_bytes(&mut bytes, m),
        None => {},
    }
    assert(bytes@ =~= digest_input + spec_metadata_bytes(o));
    if sha {
        let digest = compute_integrity_digest(magic, &header, descriptors.as_slice(), section);
        extend_bytes(&mut bytes, digest.as_slice());
    } else {
        assert(bytes@ =~= bytes@ + Seq::<u8>::empty());
    }
    Ok(bytes)
}

/// Write a container that opens with `magic` around raw MessagePack payload bytes.
pub fn write_payload_bytes(
    magic: [u8; 4],
    payload: &[u8],
    package_id: [u8; 4],
    purpose: PackagePurpose,
    compression: CompressionKind,
    flags: u8,
    metadata: Option<&[u8]>,
    integrity: IntegrityKind,
) -> (r: Result<Vec<u8>, EncodeError>)
    ensures
        ({
            let o = write_view(package_id, purpose, compression, flags, metadata, integrity);
            &&& r matches Ok(b) ==> spec_write_fits(
                spec_payload_section(payload@, compression).len(),
                o,
            ) && b@ == spec_container_bytes(magic@, spec_payload_section(payload@, compression), o)
            &&& r matches Ok(b) ==> spec_decompress(
                spec_payload_section(payload@, compression),
                compression,
            ) == Some(payload@)
            &&& r is Ok <==> spec_write_fits(spec_payload_section(payload@, compression).len(), o)
            &&& r matches Err(e) ==> e is SectionTooLarge
        }),
{
    match compression {
        CompressionKind::Uncompressed => assemble_container(
            magic,
            payload,
            package_id,
            purpose,
            compression,
            flags,
            metadata,
            integrity,
        ),
        CompressionKind::Lz4Frame => {
            let section = match lz4_frame_compress(payload) {
                Ok(s) => s,
                Err(e) => return Err(e),
            };
            assemble_container(
                magic,
                section.as_slice(),
                package_id,
                purpose,
                compression,
                flags,
                metadata,
                integrity,
            )
        },
    }
}

/// The message of a read failure for a container called `name` (`article` is the name
/// with its indefinite article), without the cause of an outside codec failure.
pub open spec fn spec_decode_message(f: DecodeFailure, article: Seq<char>, name: Seq<char>) -> Seq<char> {
    match f {
        DecodeFailure::UnsupportedFormat => "payload is not "@ + article + " v2 container"@,
        DecodeFailure::TruncatedHeader => "payload is too short for "@ + article + " header"@,
        DecodeFailure::UnsupportedWireVersion(v) => "unsupported "@ + name + " wire version: "@
            + spec_decimal(v as nat),
        DecodeFailure::UnsupportedPurpose(v) => "unsupported "@ + name + " purpose: "@ + spec_decimal(
            v as nat,
        ),
        DecodeFailure::UnsupportedCompression(v) => "unsupported "@ + name + " compression kind: "@
            + spec_decimal(v as nat),
        DecodeFailure::UnsupportedIntegrity(v) => "unsupported "@ + name + " integrity kind: "@
            + spec_decimal(v as nat),
        DecodeFailure::UnsupportedSectionKind(v) => "unsupported "@ + name + " section kind: "@
            + spec_decimal(v as nat),
        DecodeFailure::InvalidSectionTable => name + " section table is malformed"@,
        DecodeFailure::MissingPayloadSection => name + " payload section is missing"@,
        DecodeFailure::InvalidMetadataSection => name + " metadata section is malformed"@,
        DecodeFailure::InvalidIntegritySection => name + " integrity section is malformed"@,
        DecodeFailure::InvalidSectionRange => name + " section bytes are out of range"@,
        DecodeFailure::InvalidPayloadFormat => name + " payload section does not use MessagePack format"@,
        DecodeFailure::InvalidMetadataFormat => name
            + " metadata section does not use MessagePack format"@,
        DecodeFailure::ChecksumMismatch => name + " payload checksum does not match integrity section"@,
        DecodeFailure::Compression => "failed to decompress "@ + name + " payload: "@,
        DecodeFailure::MessagePack => "failed to decode MessagePack payload: "@,
    }
}

impl DecodeError {
    /// The message that describes this failure for a container called `name`; `article`
    /// is the name with its indefinite article ("an RPKG", "a DHBIN").
    pub fn message(&self, article: &str, name: &str) -> (r: String)
        ensures
            match self {
                DecodeError::Compression(_) | DecodeError::MessagePack(_) => r@.len() >= spec_decode_message(
                    self@,
                    article@,
                    name@,
                ).len() && r@.take(spec_decode_message(self@, article@, name@).len() as int)
                    == spec_decode_message(self@, article@, name@),
                _ => r@ == spec_decode_message(self@, article@, name@),
            },
    {
        let mut out: Vec<char> = Vec::new();
        match self {
            DecodeError::UnsupportedFormat => {
                push_str(&mut out, "payload is not ");
                push_str(&mut out, article);
                push_str(&mut out, " v2 container");
            },
            DecodeError::TruncatedHeader => {
                push_str(&mut out, "payload is too short for ");
                push_str(&mut out, article);
                push_str(&mut out, " header");
            },
            DecodeError::UnsupportedWireVersion(v) => {
                push_str(&mut out, "unsupported ");
                push_str(&mut out, name);
                push_str(&mut out, " wire version: ");
                push_decimal(&mut out, *v as u64);
            },
            DecodeError::UnsupportedPurpose(v) => {
                push_str(&mut out, "unsupported ");
                push_str(&mut out, name);
                push_str(&mut out, " purpose: ");
                push_decimal(&mut out, *v as u64);
            },
            DecodeError::UnsupportedCompression(v) => {
                push_str(&mut out, "unsupported ");
                push_str(&mut out, name);
                push_str(&mut out, " compression kind: ");
                push_decimal(&mut out, *v as u64);
            },
            DecodeError::UnsupportedIntegrity(v) => {
                push_str(&mut out, "unsupported ");
                push_str(&mut out, name);
                push_str(&mut out, " integrity kind: ");
                push_decimal(&mut out, *v as u64);
            },
            DecodeError::UnsupportedSectionKind(v) => {
                push_str(&mut out, "unsupported ");
                push_str(&mut out, name);
                push_str(&mut out, " section kind: ");
                push_decimal(&mut out, *v as u64);
            },
            DecodeError::InvalidSectionTable => {
                push_str(&mut out, name);
                push_str(&mut out, " section table is malformed");
            },
            DecodeError::MissingPayloadSection => {
                push_str(&mut out, name);
                push_str(&mut out, " payload section is missing");
            },
            DecodeError::InvalidMetadataSection => {
                push_str(&mut out, name);
                push_str(&mut out, " metadata section is malformed");
            },
            DecodeError::InvalidIntegritySection => {
                push_str(&mut out, name);
                push_str(&mut out, " integrity section is malformed");
            },
            DecodeError::InvalidSectionRange => {
                push_str(&mut out, name);
                push_str(&mut out, " section bytes are out of range");
            },
            DecodeError::InvalidPayloadFormat => {
                push_str(&mut out, name);
                push_str(&mut out, " payload section does not use MessagePack format");
            },
            DecodeError::InvalidMetadataFormat => {
                push_str(&mut out, name);
                push_str(&mut out, " metadata section does not use MessagePack format");
            },
            DecodeError::ChecksumMismatch => {
                push_str(&mut out, name);
                push_str(&mut out, " payload checksum does not match integrity section");
            },
            DecodeError::Compression(e) => {
                push_str(&mut out, "failed to decompress ");
                push_str(&mut out, name);
                push_str(&mut out, " payload: ");
                let ghost prefix = out@;
                let text = io_error_text(e);
                push_str(&mut out, text.as_str());
                assert(out@.take(prefix.len() as int) =~= prefix);
            },
            DecodeError::MessagePack(e) => {
                push_str(&mut out, "failed to decode MessagePack payload: ");
                let ghost prefix = out@;
                let text = msgpack_error_text(e);
                push_str(&mut out, text.as_str());
                assert(out@.take(prefix.len() as int) =~= prefix);
            },
        }
        string_from_chars(out.as_slice())
    }
}

/// `rmp_serde::decode::Error` rendered by its `Display` impl.
#[verifier::external_body]
pub(crate) fn msgpack_error_text(error: &rmp_serde::decode::Error) -> String {
    format!("{}", error)
}

/// `rmp_serde::encode::Error` rendered by its `Display` impl.
#[verifier::external_body]
pub(crate) fn msgpack_encode_error_text(error: &rmp_serde::encode::Error) -> String {
    format!("{}", error)
}

/// `lz4_flex::frame::Error` rendered by its `Display` impl.
#[verifier::external_body]
pub(crate) fn lz4_frame_error_text(error: &lz4_flex::frame::Error) -> String {
    format!("{}", error)
}

/// `std::io::Error` rendered by its `Display` impl.
#[verifier::external_body]
pub(crate) fn io_error_text(error: &std::io::Error) -> String {
    format!("{}", error)
}

} // verus!
