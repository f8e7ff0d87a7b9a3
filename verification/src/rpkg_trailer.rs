//! The checksummed `RPKG` package: a fixed 28-byte header, the payload, and a
//! MessagePack metadata trailer whose SHA-256 checksum covers header and payload.
use vstd::prelude::*;

use crate::bytes::{
    copy_range, extend_bytes, le_u32, le_u64, push_u32_le, push_u64_le, read_u32_le,
    read_u64_le, u32_at, u64_at,
};
use crate::codec::{
    lz4_frame_compress, lz4_frame_decoded, lz4_frame_decompress, lz4_frame_encoded, sha256,
    sha256_digest,
};
use crate::container::{CompressionKind, EncodeError};
use crate::rpkg::{RPKG_MAGIC, RPKG_WIRE_VERSION};
use crate::text::{ascii_text, lemma_ascii_utf8, string_from_utf8_lossy, utf8_lossy};
use vstd::utf8::{decode_utf8, valid_utf8};

verus! {

/// The length of the fixed header.
pub const HEADER_LEN: usize = 28;

/// How many times the encoder recomputes the checksum while the metadata length keeps
/// changing. The length takes one of at most 33 values for given metadata strings (each
/// checksum byte encodes in one or two bytes), so a length that has not settled after
/// this many rounds is cycling and never settles.
pub const SETTLE_ROUNDS: usize = 64;

/// Supported payload serialization methods for an `RPKG` container.
#[derive(Debug, Clone, Copy, PartialEq, Eq, Structural)]
pub enum SerializationKind {
    MessagePack,
}

/// Declares whether a package is intended for external distribution or embedding.
#[derive(Debug, Clone, Copy, PartialEq, Eq, Structural)]
pub enum PackagePurpose {
    External,
    Embedded,
}

/// Controls whether package checksum verification runs while decoding.
#[derive(Debug, Clone, Copy, PartialEq, Eq, Structural)]
pub enum VerificationMode {
    Default,
    Always,
    Skip,
}

impl SerializationKind {
    /// The header byte of this serialization.
    pub open spec fn spec_byte(self) -> u8 {
        1
    }

    /// The serialization a header byte stands for.
    pub fn from_byte(v: u8) -> (r: Option<SerializationKind>)
        ensures
            r == (if v == 1 { Some(SerializationKind::MessagePack) } else { None::<SerializationKind> }),
    {
        if v == 1 {
            Some(SerializationKind::MessagePack)
        } else {
            None
        }
    }
}

impl PackagePurpose {
    /// The header byte of this purpose.
    pub open spec fn spec_byte(self) -> u8 {
        match self {
            PackagePurpose::External => 0,
            PackagePurpose::Embedded => 1,
        }
    }

    /// The purpose a header byte stands for.
    pub open spec fn spec_from_byte(v: u8) -> Option<PackagePurpose> {
        if v == 0 {
            Some(PackagePurpose::External)
        } else if v == 1 {
            Some(PackagePurpose::Embedded)
        } else {
            None
        }
    }

    /// The purpose a header byte stands for.
    pub fn from_byte(v: u8) -> (r: Option<PackagePurpose>)
        ensures
            r == PackagePurpose::spec_from_byte(v),
    {
        if v == 0 {
            Some(PackagePurpose::External)
        } else if v == 1 {
            Some(PackagePurpose::Embedded)
        } else {
            None
        }
    }

    fn to_byte(self) -> (r: u8)
        ensures
            r == self.spec_byte(),
    {
        match self {
            PackagePurpose::External => 0,
            PackagePurpose::Embedded => 1,
        }
    }
}

impl VerificationMode {
    /// Whether decoding checks the checksum of a package with `purpose`: always, never, or
    /// by default for external packages only.
    pub open spec fn spec_should_verify(self, purpose: PackagePurpose) -> bool {
        match self {
            VerificationMode::Always => true,
            VerificationMode::Skip => false,
            VerificationMode::Default => purpose == PackagePurpose::External,
        }
    }

    /// Whether decoding checks the checksum of a package with `purpose`.
    pub fn should_verify(self, purpose: PackagePurpose) -> (r: bool)
        ensures
            r == self.spec_should_verify(purpose),
    {
        match self {
            VerificationMode::Always => true,
            VerificationMode::Skip => false,
            VerificationMode::Default => purpose == PackagePurpose::External,
        }
    }
}

/// Metadata stored alongside an `RPKG` payload.
#[derive(Debug, Clone, PartialEq, Eq)]
pub struct PackageMetadata {
    pub package_version: String,
    pub source_version: String,
    pub package_revision: u16,
    pub checksum_sha256: [u8; 32],
}

/// Package metadata as values.
pub struct MetadataView {
    pub package_version: Seq<char>,
    pub source_version: Seq<char>,
    pub package_revision: u16,
    pub checksum_sha256: Seq<u8>,
}

impl View for PackageMetadata {
    type V = MetadataView;

    open spec fn view(&self) -> MetadataView {
        MetadataView {
            package_version: self.package_version@,
            source_version: self.source_version@,
            package_revision: self.package_revision,
            checksum_sha256: self.checksum_sha256@,
        }
    }
}

impl PackageMetadata {
    /// Metadata with the given versions and revision and an all-zero checksum.
    pub fn new(package_version: String, source_version: String, package_revision: u16) -> (r: PackageMetadata)
        ensures
            r.package_version@ == package_version@,
            r.source_version@ == source_version@,
            r.package_revision == package_revision,
            r.checksum_sha256@ == Seq::new(32, |i: int| 0u8),
    {
        let r = PackageMetadata {
            package_version,
            source_version,
            package_revision,
            checksum_sha256: [0u8; 32],
        };
        assert(r.checksum_sha256@ =~= Seq::new(32, |i: int| 0u8));
        r
    }
}

/// Options used while encoding a payload into `RPKG` bytes.
#[derive(Debug)]
pub struct RpkgEncodeOptions {
    pub package_id: [u8; 4],
    pub serialization: SerializationKind,
    pub compression: CompressionKind,
    pub purpose: PackagePurpose,
    pub metadata: PackageMetadata,
}

/// Fully decoded `RPKG` data, including container metadata and payload bytes.
#[derive(Debug)]
pub struct DecodedPackage {
    pub package_id: [u8; 4],
    pub serialization: SerializationKind,
    pub compression: CompressionKind,
    pub purpose: PackagePurpose,
    pub metadata: PackageMetadata,
    pub payload: Vec<u8>,
}

/// A decoded package as values.
pub struct DecodedView {
    pub package_id: Seq<u8>,
    pub serialization: SerializationKind,
    pub compression: CompressionKind,
    pub purpose: PackagePurpose,
    pub metadata: MetadataView,
    pub payload: Seq<u8>,
}

impl View for DecodedPackage {
    type V = DecodedView;

    open spec fn view(&self) -> DecodedView {
        DecodedView {
            package_id: self.package_id@,
            serialization: self.serialization,
            compression: self.compression,
            purpose: self.purpose,
            metadata: self.metadata@,
            payload: self.payload@,
        }
    }
}

impl DecodedPackage {
    /// The package identifier as text, invalid UTF-8 replaced.
    pub fn package_id_string(&self) -> (r: String)
        ensures
            r@ == utf8_lossy(self.package_id@),
            valid_utf8(self.package_id@) ==> r@ == decode_utf8(self.package_id@),
            (forall|i: int| 0 <= i < 4 ==> self.package_id@[i] < 0x80) ==> r@ == ascii_text(
                self.package_id@,
            ),
    {
        proof {
            if forall|i: int| 0 <= i < 4 ==> self.package_id@[i] < 0x80 {
                lemma_ascii_utf8(self.package_id@);
            }
        }
        string_from_utf8_lossy(self.package_id.as_slice())
    }
}

/// Errors that can occur while decoding an `RPKG` container.
#[derive(Debug)]
pub enum RpkgDecodeError {
    UnsupportedFormat,
    TruncatedHeader,
    UnsupportedWireVersion(u8),
    UnsupportedSerialization(u8),
    UnsupportedCompression(u8),
    UnsupportedPurpose(u8),
    InvalidReserved(u32),
    InvalidPayloadLength,
    InvalidMetadataLength,
    ChecksumMismatch,
    Metadata(rmp_serde::decode::Error),
    Compression(std::io::Error),
}

/// Why a package is refused, as the contracts speak of it.
pub enum TrailerFailure {
    UnsupportedFormat,
    TruncatedHeader,
    UnsupportedWireVersion(u8),
    UnsupportedSerialization(u8),
    UnsupportedCompression(u8),
    UnsupportedPurpose(u8),
    InvalidReserved(u32),
    InvalidPayloadLength,
    InvalidMetadataLength,
    ChecksumMismatch,
    Metadata,
    Compression,
}

impl View for RpkgDecodeError {
    type V = TrailerFailure;

    open spec fn view(&self) -> TrailerFailure {
        match self {
            RpkgDecodeError::UnsupportedFormat => TrailerFailure::UnsupportedFormat,
            RpkgDecodeError::TruncatedHeader => TrailerFailure::TruncatedHeader,
            RpkgDecodeError::UnsupportedWireVersion(v) => TrailerFailure::UnsupportedWireVersion(*v),
            RpkgDecodeError::UnsupportedSerialization(v) => TrailerFailure::UnsupportedSerialization(*v),
            RpkgDecodeError::UnsupportedCompression(v) => TrailerFailure::UnsupportedCompression(*v),
            RpkgDecodeError::UnsupportedPurpose(v) => TrailerFailure::UnsupportedPurpose(*v),
            RpkgDecodeError::InvalidReserved(v) => TrailerFailure::InvalidReserved(*v),
            RpkgDecodeError::InvalidPayloadLength => TrailerFailure::InvalidPayloadLength,
            RpkgDecodeError::InvalidMetadataLength => TrailerFailure::InvalidMetadataLength,
            RpkgDecodeError::ChecksumMismatch => TrailerFailure::ChecksumMismatch,
            RpkgDecodeError::Metadata(_) => TrailerFailure::Metadata,
            RpkgDecodeError::Compression(_) => TrailerFailure::Compression,
        }
    }
}

/// The MessagePack bytes `rmp_serde::to_vec` writes for metadata `m` (an array of the two
/// version strings, the revision and the 32 checksum bytes).
pub uninterp spec fn msgpack_metadata_encoded(m: MetadataView) -> Seq<u8>;

/// What `rmp_serde::from_slice` reads out of `bytes` as package metadata: `None` when it
/// rejects them.
pub uninterp spec fn msgpack_metadata_decoded(bytes: Seq<u8>) -> Option<MetadataView>;

/// Calls `rmp_serde::to_vec` on the metadata as the tuple (package version, source version,
/// revision, checksum), which serializes exactly as the metadata struct does. Claimed: the
/// bytes are a function of the metadata, and `rmp_serde::from_slice` reads them back as the
/// same metadata.
/// It succeeds: these are plain tuples of strings, integers, nil and arrays, whose
/// serialization cannot fail, and the only error path left is the growable buffer's
/// allocation, which is taken to succeed as for any `Vec`.
#[verifier::external_body]
fn encode_metadata(m: &PackageMetadata) -> (r: Result<Vec<u8>, rmp_serde::encode::Error>)
    ensures
        r is Ok,
        r matches Ok(v) ==> v@ == msgpack_metadata_encoded(m@),
        r matches Ok(v) ==> msgpack_metadata_decoded(v@) == Some(m@),
{
    rmp_serde::to_vec(&(&m.package_version, &m.source_version, m.package_revision, m.checksum_sha256))
}

/// Calls `rmp_serde::from_slice` for package metadata (an array of the two version
/// strings, the revision and the 32 checksum bytes). Claimed: it succeeds exactly when the
/// bytes decode, with the decoded metadata.
#[verifier::external_body]
fn decode_metadata(bytes: &[u8]) -> (r: Result<PackageMetadata, rmp_serde::decode::Error>)
    ensures
        match r {
            Ok(m) => msgpack_metadata_decoded(bytes@) == Some(m@),
            Err(_) => msgpack_metadata_decoded(bytes@) is None,
        },
{
    rmp_serde::from_slice::<(String, String, u16, [u8; 32])>(bytes).map(
        |(package_version, source_version, package_revision, checksum_sha256)| PackageMetadata {
            package_version,
            source_version,
            package_revision,
            checksum_sha256,
        },
    )
}

/// The fixed header: magic, wire version, the serialization, compression and purpose
/// bytes, the package identifier, the payload length (64 bits), the metadata length
/// (32 bits, truncated) and a zero reserved word, all little-endian.
pub open spec fn spec_header(
    serialization: SerializationKind,
    compression: CompressionKind,
    purpose: PackagePurpose,
    package_id: Seq<u8>,
    payload_len: int,
    metadata_len: int,
) -> Seq<u8> {
    RPKG_MAGIC@ + seq![RPKG_WIRE_VERSION, serialization.spec_byte(), compression.spec_byte(), purpose.spec_byte()]
        + package_id + le_u64(payload_len as u64) + le_u32(metadata_len as u32) + le_u32(0)
}

fn build_header(
    serialization: SerializationKind,
    compression: CompressionKind,
    purpose: PackagePurpose,
    package_id: [u8; 4],
    payload_len: usize,
    metadata_len: usize,
) -> (r: Vec<u8>)
    ensures
        r@ == spec_header(serialization, compression, purpose, package_id@, payload_len as int, metadata_len as int),
        r@.len() == HEADER_LEN,
{
    let mut header: Vec<u8> = Vec::new();
    extend_bytes(&mut header, RPKG_MAGIC.as_slice());
    header.push(RPKG_WIRE_VERSION);
    header.push(1u8);
    header.push(compression.to_byte());
    header.push(purpose.to_byte());
    extend_bytes(&mut header, package_id.as_slice());
    push_u64_le(&mut header, payload_len as u64);
    #[verifier::truncate]
    let metadata_word = metadata_len as u32;
    push_u32_le(&mut header, metadata_word);
    push_u32_le(&mut header, 0);
    assert(header@ =~= spec_header(serialization, compression, purpose, package_id@, payload_len as int, metadata_len as int));
    header
}

/// The checksum of a header and payload: the SHA-256 digest of the two, one after the other.
fn compute_checksum(header: &[u8], payload: &[u8]) -> (r: [u8; 32])
    ensures
        r@ == sha256_digest(header@ + payload@),
{
    let mut data: Vec<u8> = Vec::new();
    extend_bytes(&mut data, header);
    extend_bytes(&mut data, payload);
    let digest = sha256(data.as_slice());
    let mut out = [0u8; 32];
    for i in 0..32
        invariant
            digest@.len() == 32,
            forall|k: int| 0 <= k < i ==> out@[k] == digest@[k],
    {
        out.set(i, digest[i]);
    }
    assert(out@ =~= digest@);
    out
}

/// The metadata with its checksum replaced.
pub open spec fn with_checksum(m: MetadataView, checksum: Seq<u8>) -> MetadataView {
    MetadataView { checksum_sha256: checksum, ..m }
}

/// The metadata trailer written when the header announces a trailer of `metadata_len`
/// bytes: the options' metadata with the checksum of that header and the payload section.
pub open spec fn trailer_for(o: RpkgEncodeOptions, section: Seq<u8>, metadata_len: int) -> Seq<u8> {
    let header = spec_header(o.serialization, o.compression, o.purpose, o.package_id@, section.len() as int, metadata_len);
    msgpack_metadata_encoded(with_checksum(o.metadata@, sha256_digest(header + section)))
}

/// The trailer lengths the encoder tries in turn: first that of the options' metadata as
/// given, then each time the length of the trailer written for the previous length.
pub open spec fn announced_len(o: RpkgEncodeOptions, section: Seq<u8>, round: nat) -> int
    decreases round,
{
    if round == 0 {
        msgpack_metadata_encoded(o.metadata@).len() as int
    } else {
        trailer_for(o, section, announced_len(o, section, (round - 1) as nat)).len() as int
    }
}

/// Whether the announced length settles in `round`: the trailer written for it has that length.
pub open spec fn settles_at(o: RpkgEncodeOptions, section: Seq<u8>, round: nat) -> bool {
    trailer_for(o, section, announced_len(o, section, round)).len() == announced_len(o, section, round)
}

/// The payload section the encoder writes: the payload itself, or its LZ4 frame.
pub open spec fn encoded_section(payload: Seq<u8>, compression: CompressionKind) -> Seq<u8> {
    match compression {
        CompressionKind::Uncompressed => payload,
        CompressionKind::Lz4Frame => lz4_frame_encoded(payload),
    }
}

/// The package bytes for the settled trailer length `m`: header, payload section, trailer.
pub open spec fn package_bytes(o: RpkgEncodeOptions, section: Seq<u8>, m: int) -> Seq<u8> {
    spec_header(o.serialization, o.compression, o.purpose, o.package_id@, section.len() as int, m)
        + section + trailer_for(o, section, m)
}

fn copy_bytes(b: &[u8]) -> (r: Vec<u8>)
    ensures
        r@ == b@,
{
    let mut r: Vec<u8> = Vec::new();
    extend_bytes(&mut r, b);
    assert(r@ =~= b@);
    r
}

fn copy_metadata(m: &PackageMetadata) -> (r: PackageMetadata)
    ensures
        r@ == m@,
{
    PackageMetadata {
        package_version: m.package_version.clone(),
        source_version: m.source_version.clone(),
        package_revision: m.package_revision,
        checksum_sha256: m.checksum_sha256,
    }
}

/// Encodes `payload` into a checksummed package. The header announces the length of the
/// metadata trailer, and the trailer carries the checksum of the header, so the encoder
/// recomputes the trailer until its length matches the announced one; the package is
/// written for the first length that settles. It fails exactly when no length settles
/// within `SETTLE_ROUNDS` further rounds.
pub fn encode(payload: &[u8], options: &RpkgEncodeOptions) -> (r: Result<Vec<u8>, EncodeError>)
    ensures
        r matches Ok(bytes) ==> exists|round: nat|
            round <= SETTLE_ROUNDS && settles_at(*options, encoded_section(payload@, options.compression), round)
                && (forall|earlier: nat| earlier < round ==> !settles_at(
                *options,
                encoded_section(payload@, options.compression),
                earlier,
            )) && bytes@ == package_bytes(
                *options,
                encoded_section(payload@, options.compression),
                announced_len(*options, encoded_section(payload@, options.compression), round),
            ),
        r matches Ok(bytes) ==> (bytes@.len() - HEADER_LEN - encoded_section(payload@, options.compression).len()
            <= u32::MAX ==> forall|mode: VerificationMode|
            spec_decode(bytes@, mode) == Ok::<DecodedView, TrailerFailure>(
                decoded_as_written(
                    *options,
                    encoded_section(payload@, options.compression),
                    bytes@.len() - HEADER_LEN - encoded_section(payload@, options.compression).len(),
                    payload@,
                ),
            )),
        r matches Err(EncodeError::UnsettledMetadata) ==> forall|round: nat|
            round <= SETTLE_ROUNDS ==> !settles_at(
                *options,
                encoded_section(payload@, options.compression),
                round,
            ),
        r is Ok <==> exists|round: nat|
            round <= SETTLE_ROUNDS && #[trigger] settles_at(
                *options,
                encoded_section(payload@, options.compression),
                round,
            ),
        r matches Err(e) ==> e is UnsettledMetadata,
{
    let section = match options.compression {
        CompressionKind::Uncompressed => copy_bytes(payload),
        CompressionKind::Lz4Frame => match lz4_frame_compress(payload) {
            Ok(v) => v,
            Err(e) => return Err(e),
        },
    };
    let ghost sv = section@;
    assert(sv == encoded_section(payload@, options.compression));
    assert(match options.compression {
        CompressionKind::Uncompressed => sv == payload@,
        CompressionKind::Lz4Frame => lz4_frame_decoded(sv) == Some(payload@),
    });
    let mut metadata = copy_metadata(&options.metadata);
    let first = match encode_metadata(&metadata) {
        Ok(v) => v,
        Err(e) => return Err(EncodeError::MessagePack(e)),
    };
    let mut metadata_len = first.len();
    let mut round: usize = 0;
    while round <= SETTLE_ROUNDS
        invariant
            sv == section@,
            sv == encoded_section(payload@, options.compression),
            match options.compression {
                CompressionKind::Uncompressed => sv == payload@,
                CompressionKind::Lz4Frame => lz4_frame_decoded(sv) == Some(payload@),
            },
            round <= SETTLE_ROUNDS + 1,
            metadata_len == announced_len(*options, sv, round as nat),
            metadata@.package_version == options.metadata@.package_version,
            metadata@.source_version == options.metadata@.source_version,
            metadata@.package_revision == options.metadata@.package_revision,
            forall|earlier: nat| earlier < round ==> !settles_at(*options, sv, earlier),
        decreases SETTLE_ROUNDS + 1 - round,
    {
        let header = build_header(
            options.serialization,
            options.compression,
            options.purpose,
            options.package_id,
            section.len(),
            metadata_len,
        );
        metadata.checksum_sha256 = compute_checksum(header.as_slice(), section.as_slice());
        proof {
            assert(metadata@ == with_checksum(options.metadata@, sha256_digest(header@ + sv)));
        }
        let trailer = match encode_metadata(&metadata) {
            Ok(v) => v,
            Err(e) => return Err(EncodeError::MessagePack(e)),
        };
        assert(trailer@ == trailer_for(*options, sv, metadata_len as int));
        if trailer.len() == metadata_len {
            let mut bytes: Vec<u8> = Vec::new();
            extend_bytes(&mut bytes, header.as_slice());
            extend_bytes(&mut bytes, section.as_slice());
            extend_bytes(&mut bytes, trailer.as_slice());
            proof {
                assert(settles_at(*options, sv, round as nat));
                assert(bytes@ == package_bytes(*options, sv, metadata_len as int));
                assert(bytes@.len() - HEADER_LEN - sv.len() == metadata_len);
                if metadata_len <= u32::MAX {
                    assert forall|mode: VerificationMode| spec_decode(bytes@, mode) == Ok::<
                        DecodedView,
                        TrailerFailure,
                    >(decoded_as_written(*options, sv, metadata_len as int, payload@)) by {
                        lemma_decode_written(*options, sv, payload@, metadata_len as int, mode);
                    }
                }
            }
            return Ok(bytes);
        }
        metadata_len = trailer.len();
        round = round + 1;
    }
    Err(EncodeError::UnsettledMetadata)
}

/// The package `b` holds when read under `mode`, or why it is refused.
pub open spec fn spec_decode(b: Seq<u8>, mode: VerificationMode) -> Result<DecodedView, TrailerFailure> {
    if b.len() < HEADER_LEN {
        if b.len() >= 4 && b.take(4) == RPKG_MAGIC@ {
            Err(TrailerFailure::TruncatedHeader)
        } else {
            Err(TrailerFailure::UnsupportedFormat)
        }
    } else if b.take(4) != RPKG_MAGIC@ {
        Err(TrailerFailure::UnsupportedFormat)
    } else if b[4] != RPKG_WIRE_VERSION {
        Err(TrailerFailure::UnsupportedWireVersion(b[4]))
    } else if b[5] != 1 {
        Err(TrailerFailure::UnsupportedSerialization(b[5]))
    } else if CompressionKind::spec_from_byte(b[6]) is None {
        Err(TrailerFailure::UnsupportedCompression(b[6]))
    } else if PackagePurpose::spec_from_byte(b[7]) is None {
        Err(TrailerFailure::UnsupportedPurpose(b[7]))
    } else if u32_at(b, 24) != 0 {
        Err(TrailerFailure::InvalidReserved(u32_at(b, 24)))
    } else {
        let compression = CompressionKind::spec_from_byte(b[6])->0;
        let purpose = PackagePurpose::spec_from_byte(b[7])->0;
        let payload_len = u64_at(b, 12) as int;
        let metadata_len = u32_at(b, 20) as int;
        let payload_end = HEADER_LEN + payload_len;
        if payload_end > b.len() {
            Err(TrailerFailure::InvalidPayloadLength)
        } else if payload_end + metadata_len != b.len() {
            Err(TrailerFailure::InvalidMetadataLength)
        } else {
            let section = b.subrange(HEADER_LEN as int, payload_end);
            match msgpack_metadata_decoded(b.skip(payload_end)) {
                None => Err(TrailerFailure::Metadata),
                Some(metadata) => {
                    let header = spec_header(
                        SerializationKind::MessagePack,
                        compression,
                        purpose,
                        b.subrange(8, 12),
                        payload_len,
                        metadata_len,
                    );
                    if mode.spec_should_verify(purpose) && sha256_digest(header + section)
                        != metadata.checksum_sha256 {
                        Err(TrailerFailure::ChecksumMismatch)
                    } else {
                        let payload = match compression {
                            CompressionKind::Uncompressed => Some(section),
                            CompressionKind::Lz4Frame => lz4_frame_decoded(section),
                        };
                        match payload {
                            None => Err(TrailerFailure::Compression),
                            Some(p) => Ok(
                                DecodedView {
                                    package_id: b.subrange(8, 12),
                                    serialization: SerializationKind::MessagePack,
                                    compression,
                                    purpose,
                                    metadata,
                                    payload: p,
                                },
                            ),
                        }
                    }
                },
            }
        }
    }
}

/// A decode's outcome as the contracts speak of it.
pub open spec fn decoded_result_view(r: Result<DecodedPackage, RpkgDecodeError>) -> Result<DecodedView, TrailerFailure> {
    match r {
        Ok(p) => Ok(p@),
        Err(e) => Err(e@),
    }
}

fn starts_with_magic(bytes: &[u8]) -> (r: bool)
    ensures
        r == (bytes@.len() >= 4 && bytes@.take(4) == RPKG_MAGIC@),
{
    if bytes.len() < 4 {
        return false;
    }
    let r = bytes[0] == RPKG_MAGIC[0] && bytes[1] == RPKG_MAGIC[1] && bytes[2] == RPKG_MAGIC[2]
        && bytes[3] == RPKG_MAGIC[3];
    proof {
        if r {
            assert(bytes@.take(4) =~= RPKG_MAGIC@);
        } else if bytes@.take(4) == RPKG_MAGIC@ {
            assert(bytes@.take(4)[0] == RPKG_MAGIC@[0]);
            assert(bytes@.take(4)[1] == RPKG_MAGIC@[1]);
            assert(bytes@.take(4)[2] == RPKG_MAGIC@[2]);
            assert(bytes@.take(4)[3] == RPKG_MAGIC@[3]);
        }
    }
    r
}

fn compression_from_byte(v: u8) -> (r: Option<CompressionKind>)
    ensures
        r == CompressionKind::spec_from_byte(v),
{
    if v == 0 {
        Some(CompressionKind::Uncompressed)
    } else if v == 1 {
        Some(CompressionKind::Lz4Frame)
    } else {
        None
    }
}

/// Decodes a checksummed package, verifying the checksum as `verification_mode` says.
pub fn decode(bytes: &[u8], verification_mode: VerificationMode) -> (r: Result<DecodedPackage, RpkgDecodeError>)
    ensures
        decoded_result_view(r) == spec_decode(bytes@, verification_mode),
{
    let ghost b = bytes@;
    let len = bytes.len();
    if len < HEADER_LEN {
        if starts_with_magic(bytes) {
            return Err(RpkgDecodeError::TruncatedHeader);
        }
        return Err(RpkgDecodeError::UnsupportedFormat);
    }
    if !starts_with_magic(bytes) {
        return Err(RpkgDecodeError::UnsupportedFormat);
    }
    let wire_version = bytes[4];
    if wire_version != RPKG_WIRE_VERSION {
        return Err(RpkgDecodeError::UnsupportedWireVersion(wire_version));
    }
    if SerializationKind::from_byte(bytes[5]).is_none() {
        return Err(RpkgDecodeError::UnsupportedSerialization(bytes[5]));
    }
    let compression = match compression_from_byte(bytes[6]) {
        Some(c) => c,
        None => return Err(RpkgDecodeError::UnsupportedCompression(bytes[6])),
    };
    let purpose = match PackagePurpose::from_byte(bytes[7]) {
        Some(p) => p,
        None => return Err(RpkgDecodeError::UnsupportedPurpose(bytes[7])),
    };
    let package_id = [bytes[8], bytes[9], bytes[10], bytes[11]];
    assert(package_id@ =~= b.subrange(8, 12));
    let payload_len = read_u64_le(bytes, 12);
    let metadata_len = read_u32_le(bytes, 20);
    let reserved = read_u32_le(bytes, 24);
    if reserved != 0 {
        return Err(RpkgDecodeError::InvalidReserved(reserved));
    }
    if payload_len > (len - HEADER_LEN) as u64 {
        return Err(RpkgDecodeError::InvalidPayloadLength);
    }
    let payload_end = HEADER_LEN + payload_len as usize;
    if metadata_len as u64 != (len - payload_end) as u64 {
        return Err(RpkgDecodeError::InvalidMetadataLength);
    }
    let metadata = match decode_metadata(copy_range(bytes, payload_end, len).as_slice()) {
        Ok(m) => m,
        Err(e) => return Err(RpkgDecodeError::Metadata(e)),
    };
    assert(b.subrange(payload_end as int, len as int) =~= b.skip(payload_end as int));
    let section = copy_range(bytes, HEADER_LEN, payload_end);
    if verification_mode.should_verify(purpose) {
        let header = build_header(
            SerializationKind::MessagePack,
            compression,
            purpose,
            package_id,
            payload_len as usize,
            metadata_len as usize,
        );
        let checksum = compute_checksum(header.as_slice(), section.as_slice());
        let same = crate::bytes::bytes_equal(checksum.as_slice(), metadata.checksum_sha256.as_slice());
        if !same {
            return Err(RpkgDecodeError::ChecksumMismatch);
        }
    }
    let payload = match compression {
        CompressionKind::Uncompressed => section,
        CompressionKind::Lz4Frame => match lz4_frame_decompress(section.as_slice()) {
            Ok(p) => p,
            Err(e) => return Err(RpkgDecodeError::Compression(e)),
        },
    };
    Ok(
        DecodedPackage {
            package_id,
            serialization: SerializationKind::MessagePack,
            compression,
            purpose,
            metadata,
            payload,
        },
    )
}

/// The package the decoder reads out of bytes the encoder wrote for `o`.
pub open spec fn decoded_as_written(o: RpkgEncodeOptions, section: Seq<u8>, m: int, payload: Seq<u8>) -> DecodedView {
    let header = spec_header(o.serialization, o.compression, o.purpose, o.package_id@, section.len() as int, m);
    DecodedView {
        package_id: o.package_id@,
        serialization: SerializationKind::MessagePack,
        compression: o.compression,
        purpose: o.purpose,
        metadata: with_checksum(o.metadata@, sha256_digest(header + section)),
        payload,
    }
}

/// Reading a package back: header, payload section and a settled trailer of at most
/// `u32::MAX` bytes decode, under every verification mode, to the written identifier,
/// kinds, purpose, metadata with its checksum, and the payload the section stands for.
pub proof fn lemma_decode_written(
    o: RpkgEncodeOptions,
    section: Seq<u8>,
    payload: Seq<u8>,
    m: int,
    mode: VerificationMode,
)
    requires
        0 <= m <= u32::MAX,
        section.len() <= u64::MAX,
        trailer_for(o, section, m).len() == m,
        msgpack_metadata_decoded(trailer_for(o, section, m)) == Some(
            decoded_as_written(o, section, m, payload).metadata,
        ),
        match o.compression {
            CompressionKind::Uncompressed => section == payload,
            CompressionKind::Lz4Frame => lz4_frame_decoded(section) == Some(payload),
        },
    ensures
        spec_decode(package_bytes(o, section, m), mode) == Ok::<DecodedView, TrailerFailure>(
            decoded_as_written(o, section, m, payload),
        ),
{
    let header = spec_header(o.serialization, o.compression, o.purpose, o.package_id@, section.len() as int, m);
    let trailer = trailer_for(o, section, m);
    let b = package_bytes(o, section, m);
    assert(header.len() == HEADER_LEN);
    assert(b == header + section + trailer);
    assert(b.take(4) =~= RPKG_MAGIC@);
    assert(b[4] == RPKG_WIRE_VERSION);
    assert(b[5] == 1);
    assert(b[6] == o.compression.spec_byte());
    assert(b[7] == o.purpose.spec_byte());
    assert(b.subrange(8, 12) =~= o.package_id@);
    assert(b.subrange(12, 20) =~= le_u64(section.len() as u64));
    assert(b.subrange(20, 24) =~= le_u32(m as u32));
    assert(b.subrange(24, 28) =~= le_u32(0));
    crate::bytes::lemma_u64_roundtrip(b, 12, section.len() as u64);
    crate::bytes::lemma_u32_roundtrip(b, 20, m as u32);
    crate::bytes::lemma_u32_roundtrip(b, 24, 0);
    assert(b.subrange(HEADER_LEN as int, HEADER_LEN + section.len()) =~= section);
    assert(b.skip(HEADER_LEN + section.len()) =~= trailer);
    assert(o.serialization == SerializationKind::MessagePack);
    assert(CompressionKind::spec_from_byte(o.compression.spec_byte()) == Some(o.compression));
    assert(PackagePurpose::spec_from_byte(o.purpose.spec_byte()) == Some(o.purpose));
}

} // verus!
