//! The definition builder's package handling: loading and checking `filedefs` packages,
//! writing them, comparing them, summarizing them, and deciding whether an embedded
//! package must be refreshed.
use vstd::prelude::*;

use std::path::PathBuf;

use crate::container::{
    msgpack_error_text, spec_container_bytes, spec_decode_message, spec_payload_section,
    spec_read_package, spec_write_fits, CompressionKind, DecodeFailure, EncodeError, IntegrityKind,
    PackagePurpose, ReadOptions, WriteOptionsView,
};
use crate::definitions::{
    has_outside_cause, msgpack_definition_payload_encoded, patterns_view, raw_of_package,
    spec_decode_payload, spec_definition_message,
    DefinitionFailure, DefinitionPackage, DefinitionPackageDecodeError, DefinitionPackageView,
    DefinitionRecord, SignaturePattern, DEFINITION_PACKAGE_ID,
};
use crate::rpkg::{RpkgReadOptions, RpkgReader, RpkgWriteOptions, RpkgWriter, RPKG_MAGIC};
use crate::container_laws::spec_read_back;
use crate::text::{
    chars_equal, chars_of, push_decimal, push_str, spec_decimal, string_from_chars,
    string_from_utf8_lossy, utf8_lossy,
};

verus! {

/// Errors produced while building, loading or writing definition packages.
#[derive(Debug)]
pub enum BuilderError {
    Io { operation: &'static str, path: PathBuf, source: std::io::Error },
    Package { message: String },
    Xml { path: PathBuf, message: String },
    InvalidHex { path: PathBuf, value: String },
    UnsupportedSource { path: PathBuf },
    ArchiveToolUnavailable { tool: &'static str },
    ArchiveCommand { operation: &'static str, path: PathBuf, message: String },
    MissingSourceVersion { versions: String },
}

/// The version fields a `filedefs` package carries in its metadata section.
#[derive(Debug, Clone, PartialEq, Eq)]
pub struct FiledefsPackageMetadata {
    package_version: String,
    source_version: String,
    package_revision: u16,
}

/// Metadata version fields as values.
pub type FiledefsMetadataView = (Seq<char>, Seq<char>, u16);

impl View for FiledefsPackageMetadata {
    type V = FiledefsMetadataView;

    closed spec fn view(&self) -> FiledefsMetadataView {
        (self.package_version@, self.source_version@, self.package_revision)
    }
}

/// What `rmp_serde::from_slice` reads out of `bytes` as `filedefs` metadata (package
/// version, source version, revision): `None` when it rejects them.
pub uninterp spec fn msgpack_filedefs_metadata(bytes: Seq<u8>) -> Option<FiledefsMetadataView>;

/// The MessagePack bytes `rmp_serde::to_vec` writes for `filedefs` metadata.
pub uninterp spec fn msgpack_filedefs_metadata_encoded(m: FiledefsMetadataView) -> Seq<u8>;

/// Calls `rmp_serde::from_slice` for the three-element metadata array (package version,
/// source version, revision). Claimed: it succeeds exactly when the bytes decode, with the
/// decoded fields.
#[verifier::external_body]
fn decode_filedefs_metadata(bytes: &[u8]) -> (r: Result<FiledefsPackageMetadata, rmp_serde::decode::Error>)
    ensures
        match r {
            Ok(m) => msgpack_filedefs_metadata(bytes@) == Some(m@),
            Err(_) => msgpack_filedefs_metadata(bytes@) is None,
        },
{
    rmp_serde::from_slice::<(String, String, u16)>(bytes).map(|(a, b, c)| FiledefsPackageMetadata {
        package_version: a,
        source_version: b,
        package_revision: c,
    })
}

/// Calls `rmp_serde::to_vec` on the three-element metadata array. Claimed: the bytes are a
/// function of the fields, and `rmp_serde::from_slice` reads them back as those fields.
/// It succeeds: these are plain tuples of strings, integers, nil and arrays, whose
/// serialization cannot fail, and the only error path left is the growable buffer's
/// allocation, which is taken to succeed as for any `Vec`.
#[verifier::external_body]
fn encode_filedefs_metadata(m: &FiledefsPackageMetadata) -> (r: Result<Vec<u8>, rmp_serde::encode::Error>)
    ensures
        r is Ok,
        r matches Ok(v) ==> v@ == msgpack_filedefs_metadata_encoded(m@),
        r matches Ok(v) ==> msgpack_filedefs_metadata(v@) == Some(m@),
{
    rmp_serde::to_vec(&(&m.package_version, &m.source_version, m.package_revision))
}

/// A definitions package loaded from `RPKG` bytes, with the container facts it came with.
#[derive(Debug)]
pub struct LoadedPackage {
    pub package: DefinitionPackage,
    pub package_id: [u8; 4],
    pub purpose: PackagePurpose,
    pub compression: CompressionKind,
    pub integrity: IntegrityKind,
    pub metadata: FiledefsPackageMetadata,
    pub checksum_verified: bool,
}

/// A loaded package as values.
pub struct LoadedView {
    pub package: DefinitionPackageView,
    pub package_id: Seq<u8>,
    pub purpose: PackagePurpose,
    pub compression: CompressionKind,
    pub integrity: IntegrityKind,
    pub metadata: FiledefsMetadataView,
    pub checksum_verified: bool,
}

impl View for LoadedPackage {
    type V = LoadedView;

    open spec fn view(&self) -> LoadedView {
        LoadedView {
            package: self.package@,
            package_id: self.package_id@,
            purpose: self.purpose,
            compression: self.compression,
            integrity: self.integrity,
            metadata: self.metadata@,
            checksum_verified: self.checksum_verified,
        }
    }
}

impl LoadedPackage {
    /// The package identifier as text, invalid UTF-8 replaced.
    pub fn package_id_string(&self) -> (r: String)
        ensures
            r@ == utf8_lossy(self.package_id@),
    {
        string_from_utf8_lossy(self.package_id.as_slice())
    }
}

/// Why package bytes are refused.
pub enum LoadFailure {
    Container(DecodeFailure),
    WrongId(Seq<u8>),
    MissingMetadata,
    BadMetadata,
    Payload(DefinitionFailure),
    VersionMismatch,
}

/// The read options a package is loaded with: integrity verified, metadata loaded.
pub open spec fn load_options() -> ReadOptions {
    ReadOptions { verify_integrity: true, load_metadata: true }
}

/// The package `b` holds, or why it is refused: the `RPKG` container must read with
/// integrity checked, carry the `FDEF` identifier and metadata, and its payload's version
/// fields must equal those of the metadata.
pub open spec fn spec_load_package(b: Seq<u8>) -> Result<LoadedView, LoadFailure> {
    match spec_read_package(RPKG_MAGIC@, b, load_options()) {
        Err(e) => Err(LoadFailure::Container(e)),
        Ok(p) => if p.header.package_id != DEFINITION_PACKAGE_ID@ {
            Err(LoadFailure::WrongId(p.header.package_id))
        } else {
            match p.metadata {
                None => Err(LoadFailure::MissingMetadata),
                Some(m) => match msgpack_filedefs_metadata(m) {
                    None => Err(LoadFailure::BadMetadata),
                    Some(meta) => match spec_decode_payload(p.payload) {
                        Err(f) => Err(LoadFailure::Payload(f)),
                        Ok(defs) => if defs.package_version != meta.0 || defs.source_version
                            != meta.1 || defs.package_revision != meta.2 {
                            Err(LoadFailure::VersionMismatch)
                        } else {
                            Ok(
                                LoadedView {
                                    package: defs,
                                    package_id: p.header.package_id,
                                    purpose: p.header.purpose,
                                    compression: p.header.compression,
                                    integrity: p.integrity,
                                    metadata: meta,
                                    checksum_verified: p.integrity_verified,
                                },
                            )
                        },
                    },
                },
            }
        },
    }
}

/// The message a refusal is reported with (the beginning of it where an outside error's
/// text follows).
pub open spec fn spec_load_message(f: LoadFailure) -> Seq<char> {
    match f {
        LoadFailure::Container(e) => spec_decode_message(e, "an RPKG"@, "RPKG"@),
        LoadFailure::WrongId(id) => "unexpected package identifier '"@ + utf8_lossy(id) + "'"@,
        LoadFailure::MissingMetadata => "filedefs package is missing metadata"@,
        LoadFailure::BadMetadata => Seq::empty(),
        LoadFailure::Payload(d) => "failed to load embedded file definitions: "@
            + spec_definition_message(d),
        LoadFailure::VersionMismatch => "filedefs payload and metadata version fields do not match"@,
    }
}

/// Whether the message of `f` ends with the text of an outside error.
pub open spec fn load_message_is_open(f: LoadFailure) -> bool {
    match f {
        LoadFailure::Container(e) => e == DecodeFailure::Compression || e
            == DecodeFailure::MessagePack,
        LoadFailure::BadMetadata => true,
        LoadFailure::Payload(d) => has_outside_cause(d),
        _ => false,
    }
}

/// Whether `message` reports failure `f`.
pub open spec fn reports(message: Seq<char>, f: LoadFailure) -> bool {
    if load_message_is_open(f) {
        message.len() >= spec_load_message(f).len() && message.take(
            spec_load_message(f).len() as int,
        ) == spec_load_message(f)
    } else {
        message == spec_load_message(f)
    }
}

/// A package error whose message reports `f`.
pub open spec fn is_load_error(e: BuilderError, f: LoadFailure) -> bool {
    e matches BuilderError::Package { message } && reports(message@, f)
}

fn package_error(message: String) -> (e: BuilderError)
    ensures
        e matches BuilderError::Package { message: m } && m@ == message@,
{
    BuilderError::Package { message }
}

fn is_definitions_id(id: [u8; 4]) -> (r: bool)
    ensures
        r == (id@ == DEFINITION_PACKAGE_ID@),
{
    let r = id[0] == DEFINITION_PACKAGE_ID[0] && id[1] == DEFINITION_PACKAGE_ID[1] && id[2]
        == DEFINITION_PACKAGE_ID[2] && id[3] == DEFINITION_PACKAGE_ID[3];
    proof {
        if r {
            assert(id@ =~= DEFINITION_PACKAGE_ID@);
        } else if id@ == DEFINITION_PACKAGE_ID@ {
            assert(id@[0] == DEFINITION_PACKAGE_ID@[0]);
            assert(id@[1] == DEFINITION_PACKAGE_ID@[1]);
            assert(id@[2] == DEFINITION_PACKAGE_ID@[2]);
            assert(id@[3] == DEFINITION_PACKAGE_ID@[3]);
        }
    }
    r
}

fn strings_equal(a: &String, b: &String) -> (r: bool)
    ensures
        r == (a@ == b@),
{
    let ca = chars_of(a.as_str());
    let cb = chars_of(b.as_str());
    chars_equal(ca.as_slice(), cb.as_slice())
}

/// Loads a definitions package from `RPKG` bytes.
pub fn load_package(bytes: &[u8]) -> (r: Result<LoadedPackage, BuilderError>)
    ensures
        match r {
            Ok(p) => spec_load_package(bytes@) == Ok::<LoadedView, LoadFailure>(p@),
            Err(e) => exists|f: LoadFailure|
                spec_load_package(bytes@) == Err::<LoadedView, LoadFailure>(f) && is_load_error(e, f),
        },
{
    let options = RpkgReadOptions { verify_integrity: true, load_metadata: true };
    assert(options@ == load_options());
    let package = match RpkgReader::read_package(bytes, &options) {
        Ok(p) => p,
        Err(e) => {
            let message = e.message("an RPKG", "RPKG");
            let err = package_error(message);
            assert(is_load_error(err, LoadFailure::Container(e@)));
            return Err(err);
        },
    };
    if !is_definitions_id(package.header.package_id) {
        let mut out: Vec<char> = Vec::new();
        push_str(&mut out, "unexpected package identifier '");
        let found = string_from_utf8_lossy(package.header.package_id.as_slice());
        push_str(&mut out, found.as_str());
        push_str(&mut out, "'");
        let err = package_error(string_from_chars(out.as_slice()));
        assert(is_load_error(err, LoadFailure::WrongId(package.header.package_id@)));
        return Err(err);
    }
    let metadata_bytes = match &package.metadata {
        Some(m) => m,
        None => {
            let err = package_error("filedefs package is missing metadata".to_owned());
            assert(is_load_error(err, LoadFailure::MissingMetadata));
            return Err(err);
        },
    };
    let metadata = match decode_filedefs_metadata(metadata_bytes.as_slice()) {
        Ok(m) => m,
        Err(e) => {
            let text = msgpack_error_text(&e);
            assert(text@.take(0) =~= Seq::<char>::empty());
            let err = package_error(text);
            assert(is_load_error(err, LoadFailure::BadMetadata));
            return Err(err);
        },
    };
    let definitions = match DefinitionPackage::from_messagepack_bytes(package.payload.as_slice()) {
        Ok(d) => d,
        Err(e) => {
            let d = DefinitionPackageDecodeError::MessagePack(e);
            let mut out: Vec<char> = Vec::new();
            push_str(&mut out, "failed to load embedded file definitions: ");
            let ghost prefix = out@;
            let inner = d.message();
            push_str(&mut out, inner.as_str());
            let err = package_error(string_from_chars(out.as_slice()));
            proof {
                let m = spec_definition_message(d@);
                assert(out@.take((prefix.len() + m.len()) as int) =~= prefix + inner@.take(m.len() as int));
                assert(is_load_error(err, LoadFailure::Payload(d@)));
            }
            return Err(err);
        },
    };
    if !strings_equal(&definitions.package_version, &metadata.package_version) || !strings_equal(
        &definitions.source_version,
        &metadata.source_version,
    ) || definitions.package_revision != metadata.package_revision {
        let err = package_error(
            "filedefs payload and metadata version fields do not match".to_owned(),
        );
        assert(is_load_error(err, LoadFailure::VersionMismatch));
        return Err(err);
    }
    Ok(
        LoadedPackage {
            package: definitions,
            package_id: package.header.package_id,
            purpose: package.header.purpose,
            compression: package.header.compression,
            integrity: package.integrity,
            metadata,
            checksum_verified: package.integrity_verified,
        },
    )
}

/// The fixed part of the message of a failed container write: the whole message for the
/// library's own errors, and the text before the outside error's own text otherwise.
pub open spec fn encode_error_lead(error: EncodeError) -> Seq<char> {
    match error {
        EncodeError::MessagePack(_) => "failed to encode MessagePack payload: "@,
        EncodeError::Compression(_) => "failed to compress RPKG payload: "@,
        EncodeError::CompressionFrame(_) => "failed to finalize RPKG compression frame: "@,
        EncodeError::SectionTooLarge => "RPKG sections are too large to address"@,
        EncodeError::UnsettledMetadata => "RPKG metadata length did not settle"@,
    }
}

/// Whether the error carries an outside error whose text follows the lead.
pub open spec fn encode_error_has_cause(error: EncodeError) -> bool {
    error is MessagePack || error is Compression || error is CompressionFrame
}

/// The message of a failed container write: the lead, followed for an outside error by
/// that error's own text.
fn encode_error_message(error: &EncodeError) -> (r: String)
    ensures
        r@.len() >= encode_error_lead(*error).len(),
        r@.take(encode_error_lead(*error).len() as int) == encode_error_lead(*error),
        !encode_error_has_cause(*error) ==> r@ == encode_error_lead(*error),
{
    let mut out: Vec<char> = Vec::new();
    match error {
        EncodeError::MessagePack(e) => {
            push_str(&mut out, "failed to encode MessagePack payload: ");
            push_str(&mut out, crate::container::msgpack_encode_error_text(e).as_str());
        },
        EncodeError::Compression(e) => {
            push_str(&mut out, "failed to compress RPKG payload: ");
            push_str(&mut out, crate::container::io_error_text(e).as_str());
        },
        EncodeError::CompressionFrame(e) => {
            push_str(&mut out, "failed to finalize RPKG compression frame: ");
            push_str(&mut out, crate::container::lz4_frame_error_text(e).as_str());
        },
        EncodeError::SectionTooLarge => {
            push_str(&mut out, "RPKG sections are too large to address");
        },
        EncodeError::UnsettledMetadata => {
            push_str(&mut out, "RPKG metadata length did not settle");
        },
    }
    string_from_chars(out.as_slice())
}

/// What loading gives back of a package written for `p` with `purpose`: the package, the
/// `FDEF` identifier, the purpose, LZ4 compression, a verified SHA-256 digest, and the
/// package's version fields as metadata.
pub open spec fn written_package(p: DefinitionPackageView, purpose: PackagePurpose) -> LoadedView {
    LoadedView {
        package: p,
        package_id: DEFINITION_PACKAGE_ID@,
        purpose,
        compression: CompressionKind::Lz4Frame,
        integrity: IntegrityKind::Sha256,
        metadata: (p.package_version, p.source_version, p.package_revision),
        checksum_verified: true,
    }
}

/// The options a definitions package is written with around metadata bytes `metadata`:
/// the `FDEF` identifier, `purpose`, LZ4 compression, no flags and a SHA-256 digest.
pub open spec fn package_options(purpose: PackagePurpose, metadata: Seq<u8>) -> WriteOptionsView {
    WriteOptionsView {
        package_id: DEFINITION_PACKAGE_ID@,
        purpose,
        compression: CompressionKind::Lz4Frame,
        flags: 0,
        metadata: Some(metadata),
        integrity: IntegrityKind::Sha256,
    }
}

/// Whether a definitions package with MessagePack payload `payload` and metadata
/// `metadata` fits in an addressable container.
pub open spec fn encoded_package_fits(payload: Seq<u8>, metadata: Seq<u8>, purpose: PackagePurpose) -> bool {
    spec_write_fits(
        spec_payload_section(payload, CompressionKind::Lz4Frame).len(),
        package_options(purpose, metadata),
    )
}

/// The bytes of a definitions package with MessagePack payload `payload` and metadata
/// `metadata`.
pub open spec fn encoded_package_bytes(payload: Seq<u8>, metadata: Seq<u8>, purpose: PackagePurpose) -> Seq<u8> {
    spec_container_bytes(
        RPKG_MAGIC@,
        spec_payload_section(payload, CompressionKind::Lz4Frame),
        package_options(purpose, metadata),
    )
}

/// The MessagePack payload `rmp_serde` writes for `p`.
pub open spec fn payload_encoding(p: DefinitionPackageView) -> Seq<u8> {
    msgpack_definition_payload_encoded(raw_of_package(p))
}

/// The MessagePack metadata `rmp_serde` writes for `p`'s version fields.
pub open spec fn metadata_encoding(p: DefinitionPackageView) -> Seq<u8> {
    msgpack_filedefs_metadata_encoded((p.package_version, p.source_version, p.package_revision))
}

/// Writes a definitions package around its MessagePack payload and metadata bytes: it
/// succeeds exactly when the sections fit, and then gives the container bytes.
pub fn write_encoded_package(payload: &[u8], metadata: Vec<u8>, purpose: PackagePurpose) -> (r: Result<
    Vec<u8>,
    BuilderError,
>)
    ensures
        r is Ok <==> encoded_package_fits(payload@, metadata@, purpose),
        r matches Ok(b) ==> b@ == encoded_package_bytes(payload@, metadata@, purpose),
        r matches Ok(b) ==> forall|opts: ReadOptions|
            spec_read_package(RPKG_MAGIC@, b@, opts) == Ok::<crate::container::PackageView, DecodeFailure>(
                spec_read_back(
                    package_options(purpose, metadata@),
                    spec_payload_section(payload@, CompressionKind::Lz4Frame).len(),
                    payload@,
                    opts,
                ),
            ),
        r matches Err(e) ==> e matches BuilderError::Package { message } && message@
            == "RPKG sections are too large to address"@,
{
    let options = RpkgWriteOptions {
        package_id: DEFINITION_PACKAGE_ID,
        purpose,
        compression: CompressionKind::Lz4Frame,
        flags: 0,
        metadata: Some(metadata),
        integrity: IntegrityKind::Sha256,
    };
    assert(options@ == package_options(purpose, options.metadata->0@));
    match RpkgWriter::write_payload_bytes(payload, &options) {
        Ok(bytes) => Ok(bytes),
        Err(e) => {
            let message = encode_error_message(&e);
            proof {
                assert(message@.take(encode_error_lead(e).len() as int) =~= message@);
            }
            Err(package_error(message))
        },
    }
}

/// Writes `package` as `RPKG` bytes with `purpose`: the MessagePack payload LZ4-compressed,
/// its version fields as metadata, and a SHA-256 integrity digest. Loading the bytes gives
/// the package back. It succeeds exactly when the sections fit.
pub fn write_package_with_purpose(package: &DefinitionPackage, purpose: PackagePurpose) -> (r: Result<
    Vec<u8>,
    BuilderError,
>)
    ensures
        r matches Ok(bytes) ==> bytes@ == encoded_package_bytes(
            payload_encoding(package@),
            metadata_encoding(package@),
            purpose,
        ),
        r matches Ok(bytes) ==> spec_load_package(bytes@) == Ok::<LoadedView, LoadFailure>(
            written_package(package@, purpose),
        ),
        r is Ok <==> encoded_package_fits(payload_encoding(package@), metadata_encoding(package@), purpose),
        r matches Err(e) ==> e is Package,
{
    let payload = match crate::definitions::encode_payload(package) {
        Ok(p) => p,
        Err(e) => return Err(package_error(crate::container::msgpack_encode_error_text(&e))),
    };
    let fields = FiledefsPackageMetadata {
        package_version: package.package_version.clone(),
        source_version: package.source_version.clone(),
        package_revision: package.package_revision,
    };
    assert(fields@ == (package@.package_version, package@.source_version, package@.package_revision));
    let metadata = match encode_filedefs_metadata(&fields) {
        Ok(m) => m,
        Err(e) => return Err(package_error(crate::container::msgpack_encode_error_text(&e))),
    };
    let ghost mv = metadata@;
    match write_encoded_package(payload.as_slice(), metadata, purpose) {
        Ok(bytes) => {
            proof {
                let back = spec_read_back(
                    package_options(purpose, mv),
                    spec_payload_section(payload@, CompressionKind::Lz4Frame).len(),
                    payload@,
                    load_options(),
                );
                assert(spec_read_package(RPKG_MAGIC@, bytes@, load_options()) == Ok::<
                    crate::container::PackageView,
                    DecodeFailure,
                >(back));
                assert(back.metadata == Some(mv));
            }
            Ok(bytes)
        },
        Err(e) => Err(e),
    }
}

/// Writes `package` as a standard-purpose `RPKG` package.
pub fn write_package(package: &DefinitionPackage) -> (r: Result<Vec<u8>, BuilderError>)
    ensures
        r matches Ok(bytes) ==> bytes@ == encoded_package_bytes(
            payload_encoding(package@),
            metadata_encoding(package@),
            PackagePurpose::Standard,
        ),
        r matches Ok(bytes) ==> spec_load_package(bytes@) == Ok::<LoadedView, LoadFailure>(
            written_package(package@, PackagePurpose::Standard),
        ),
        r is Ok <==> encoded_package_fits(
            payload_encoding(package@),
            metadata_encoding(package@),
            PackagePurpose::Standard,
        ),
        r matches Err(e) ==> e is Package,
{
    write_package_with_purpose(package, PackagePurpose::Standard)
}

/// Rewrites a loaded package with the purpose it was written with, as
/// `write_package_with_purpose` writes it; a package that does not load is refused with
/// the load error.
pub fn normalize_package(bytes: &[u8]) -> (r: Result<Vec<u8>, BuilderError>)
    ensures
        match spec_load_package(bytes@) {
            Err(f) => r matches Err(e) && is_load_error(e, f),
            Ok(loaded) => {
                &&& r matches Ok(out) ==> out@ == encoded_package_bytes(
                    payload_encoding(loaded.package),
                    metadata_encoding(loaded.package),
                    loaded.purpose,
                )
                &&& r matches Ok(out) ==> spec_load_package(out@) == Ok::<LoadedView, LoadFailure>(
                    written_package(loaded.package, loaded.purpose),
                )
                &&& r is Ok <==> encoded_package_fits(
                    payload_encoding(loaded.package),
                    metadata_encoding(loaded.package),
                    loaded.purpose,
                )
            },
        },
        r matches Err(e) ==> e is Package,
{
    let loaded = match load_package(bytes) {
        Ok(l) => l,
        Err(e) => return Err(e),
    };
    let r = write_package_with_purpose(&loaded.package, loaded.purpose);
    proof {
        let lv = loaded@;
        assert(spec_load_package(bytes@) == Ok::<LoadedView, LoadFailure>(lv));
        assert(r matches Ok(out) ==> spec_load_package(out@) == Ok::<LoadedView, LoadFailure>(
            written_package(lv.package, lv.purpose),
        ));
    }
    r
}

fn bytes_vec_equal(a: &Vec<u8>, b: &Vec<u8>) -> (r: bool)
    ensures
        r == (a@ == b@),
{
    crate::bytes::bytes_equal(a.as_slice(), b.as_slice())
}

fn string_lists_equal(a: &Vec<String>, b: &Vec<String>) -> (r: bool)
    ensures
        r == (a@.map_values(|s: String| s@) == b@.map_values(|s: String| s@)),
{
    if a.len() != b.len() {
        proof {
            assert(a@.map_values(|s: String| s@).len() != b@.map_values(|s: String| s@).len());
        }
        return false;
    }
    for i in 0..a.len()
        invariant
            a.len() == b.len(),
            forall|k: int| 0 <= k < i ==> (#[trigger] a@[k])@ == b@[k]@,
    {
        if !strings_equal(&a[i], &b[i]) {
            proof {
                assert(a@.map_values(|s: String| s@)[i as int] != b@.map_values(|s: String| s@)[i as int]);
            }
            return false;
        }
    }
    assert(a@.map_values(|s: String| s@) =~= b@.map_values(|s: String| s@));
    true
}

fn byte_lists_equal(a: &Vec<Vec<u8>>, b: &Vec<Vec<u8>>) -> (r: bool)
    ensures
        r == (a@.map_values(|s: Vec<u8>| s@) == b@.map_values(|s: Vec<u8>| s@)),
{
    if a.len() != b.len() {
        proof {
            assert(a@.map_values(|s: Vec<u8>| s@).len() != b@.map_values(|s: Vec<u8>| s@).len());
        }
        return false;
    }
    for i in 0..a.len()
        invariant
            a.len() == b.len(),
            forall|k: int| 0 <= k < i ==> (#[trigger] a@[k])@ == b@[k]@,
    {
        if !bytes_vec_equal(&a[i], &b[i]) {
            proof {
                assert(a@.map_values(|s: Vec<u8>| s@)[i as int] != b@.map_values(|s: Vec<u8>| s@)[i as int]);
            }
            return false;
        }
    }
    assert(a@.map_values(|s: Vec<u8>| s@) =~= b@.map_values(|s: Vec<u8>| s@));
    true
}

fn patterns_equal(a: &Vec<SignaturePattern>, b: &Vec<SignaturePattern>) -> (r: bool)
    ensures
        r == (patterns_view(a@) == patterns_view(b@)),
{
    if a.len() != b.len() {
        proof {
            assert(patterns_view(a@).len() != patterns_view(b@).len());
        }
        return false;
    }
    for i in 0..a.len()
        invariant
            a.len() == b.len(),
            forall|k: int| 0 <= k < i ==> (#[trigger] a@[k])@ == b@[k]@,
    {
        if a[i].position != b[i].position || !bytes_vec_equal(&a[i].data, &b[i].data) {
            proof {
                assert(patterns_view(a@)[i as int] != patterns_view(b@)[i as int]);
            }
            return false;
        }
    }
    assert(patterns_view(a@) =~= patterns_view(b@));
    true
}

fn records_equal(a: &DefinitionRecord, b: &DefinitionRecord) -> (r: bool)
    ensures
        r == (a@ == b@),
{
    let r = strings_equal(&a.file_type, &b.file_type) && string_lists_equal(&a.extensions, &b.extensions)
        && strings_equal(&a.mime_type, &b.mime_type) && strings_equal(&a.remarks, &b.remarks)
        && patterns_equal(&a.signature.patterns, &b.signature.patterns) && byte_lists_equal(
        &a.signature.strings,
        &b.signature.strings,
    ) && a.priority_level == b.priority_level;
    proof {
        if r {
            assert(a@.signature =~= b@.signature);
            assert(a@ =~= b@);
        }
    }
    r
}

/// Whether two packages hold the same versions, revision, tags and records.
pub fn package_equal(a: &DefinitionPackage, b: &DefinitionPackage) -> (r: bool)
    ensures
        r == (a@ == b@),
{
    if !strings_equal(&a.package_version, &b.package_version) || !strings_equal(
        &a.source_version,
        &b.source_version,
    ) || a.package_revision != b.package_revision || a.tags != b.tags || a.definitions.len()
        != b.definitions.len() {
        proof {
            if a.definitions.len() != b.definitions.len() {
                assert(a@.definitions.len() != b@.definitions.len());
            }
        }
        return false;
    }
    for i in 0..a.definitions.len()
        invariant
            a.definitions.len() == b.definitions.len(),
            forall|k: int| 0 <= k < i ==> (#[trigger] a.definitions@[k])@ == b.definitions@[k]@,
    {
        if !records_equal(&a.definitions[i], &b.definitions[i]) {
            proof {
                assert(a@.definitions[i as int] != b@.definitions[i as int]);
            }
            return false;
        }
    }
    assert(a@.definitions =~= b@.definitions);
    assert(a@ =~= b@);
    true
}

/// Whether two loaded packages agree: package, identifier, purpose, compression, integrity
/// and metadata.
pub open spec fn loaded_match(l: LoadedView, r: LoadedView) -> bool {
    l.package == r.package && l.package_id == r.package_id && l.purpose == r.purpose
        && l.compression == r.compression && l.integrity == r.integrity && l.metadata == r.metadata
}

/// Normalizing a package that was written by `write_package_with_purpose` gives bytes
/// that load to the same package, so the two compare as matching.
pub proof fn lemma_normalize_preserves_written(
    original: Seq<u8>,
    normalized: Seq<u8>,
    p: DefinitionPackageView,
    purpose: PackagePurpose,
)
    requires
        spec_load_package(original) == Ok::<LoadedView, LoadFailure>(written_package(p, purpose)),
        exists|loaded: LoadedView|
            spec_load_package(original) == Ok::<LoadedView, LoadFailure>(loaded) && spec_load_package(
                normalized,
            ) == Ok::<LoadedView, LoadFailure>(written_package(loaded.package, loaded.purpose)),
    ensures
        spec_load_package(normalized) == spec_load_package(original),
        loaded_match(spec_load_package(original)->Ok_0, spec_load_package(normalized)->Ok_0),
        spec_packages_match(original, normalized) == Ok::<bool, LoadFailure>(true),
{
}

/// What comparing two packages gives: whether they match when both load, else the load
/// failure of the first that does not.
pub open spec fn spec_packages_match(left: Seq<u8>, right: Seq<u8>) -> Result<bool, LoadFailure> {
    match spec_load_package(left) {
        Err(f) => Err(f),
        Ok(a) => match spec_load_package(right) {
            Err(f) => Err(f),
            Ok(b) => Ok(loaded_match(a, b)),
        },
    }
}

/// Comparing is reflexive and symmetric: a package that loads matches itself, and when at
/// least one of two packages loads, comparing them in either order gives the same answer
/// (or reports the same load failure).
pub proof fn lemma_packages_match_laws(left: Seq<u8>, right: Seq<u8>)
    ensures
        spec_load_package(left) is Ok ==> spec_packages_match(left, left) == Ok::<bool, LoadFailure>(true),
        spec_load_package(left) is Ok || spec_load_package(right) is Ok ==> spec_packages_match(left, right)
            == spec_packages_match(right, left),
{
}

/// Loads both packages and tells whether they agree in package, identifier, purpose,
/// compression, integrity kind and metadata; the first package that fails to load is reported.
pub fn packages_match(left: &[u8], right: &[u8]) -> (r: Result<bool, BuilderError>)
    ensures
        match r {
            Ok(b) => spec_packages_match(left@, right@) == Ok::<bool, LoadFailure>(b),
            Err(e) => spec_packages_match(left@, right@) matches Err(f) && is_load_error(e, f),
        },
        match r {
            Ok(b) => spec_load_package(left@) is Ok && spec_load_package(right@) is Ok && b
                == loaded_match(spec_load_package(left@)->Ok_0, spec_load_package(right@)->Ok_0),
            Err(e) => match spec_load_package(left@) {
                Err(f) => is_load_error(e, f),
                Ok(_) => spec_load_package(right@) matches Err(f) && is_load_error(e, f),
            },
        },
{
    let l = match load_package(left) {
        Ok(p) => p,
        Err(e) => return Err(e),
    };
    let r = match load_package(right) {
        Ok(p) => p,
        Err(e) => return Err(e),
    };
    let same_metadata = strings_equal(&l.metadata.package_version, &r.metadata.package_version)
        && strings_equal(&l.metadata.source_version, &r.metadata.source_version)
        && l.metadata.package_revision == r.metadata.package_revision;
    let same_id = l.package_id[0] == r.package_id[0] && l.package_id[1] == r.package_id[1]
        && l.package_id[2] == r.package_id[2] && l.package_id[3] == r.package_id[3];
    proof {
        assert(same_id == (l.package_id@ == r.package_id@)) by {
            if same_id {
                assert(l.package_id@ =~= r.package_id@);
            } else if l.package_id@ == r.package_id@ {
                assert(l.package_id@[0] == r.package_id@[0]);
                assert(l.package_id@[1] == r.package_id@[1]);
                assert(l.package_id@[2] == r.package_id@[2]);
                assert(l.package_id@[3] == r.package_id@[3]);
            }
        }
        assert(same_metadata == (l.metadata@ == r.metadata@));
    }
    Ok(package_equal(&l.package, &r.package) && same_id && l.purpose == r.purpose && l.compression
        == r.compression && l.integrity == r.integrity && same_metadata)
}

/// A printable summary of a loaded package.
#[derive(Debug, PartialEq, Eq)]
pub struct PackageSummary {
    pub package_id: String,
    pub purpose: PackagePurpose,
    pub compression: CompressionKind,
    pub integrity: IntegrityKind,
    pub package_version: String,
    pub source_version: String,
    pub package_revision: u16,
    pub checksum_verified: bool,
    pub tags: u32,
    pub definition_count: usize,
}

/// Whether `s` summarizes the loaded package `l`.
pub open spec fn summarizes(s: PackageSummary, l: LoadedView) -> bool {
    &&& s.package_id@ == utf8_lossy(l.package_id)
    &&& s.purpose == l.purpose
    &&& s.compression == l.compression
    &&& s.integrity == l.integrity
    &&& s.package_version@ == l.metadata.0
    &&& s.source_version@ == l.metadata.1
    &&& s.package_revision == l.metadata.2
    &&& s.checksum_verified == l.checksum_verified
    &&& s.tags == l.package.tags
    &&& s.definition_count == l.package.definitions.len()
}

impl PackageSummary {
    /// The summary of a loaded package.
    pub fn from_loaded(loaded: &LoadedPackage) -> (s: PackageSummary)
        ensures
            summarizes(s, loaded@),
    {
        PackageSummary {
            package_id: loaded.package_id_string(),
            purpose: loaded.purpose,
            compression: loaded.compression,
            integrity: loaded.integrity,
            package_version: loaded.metadata.package_version.clone(),
            source_version: loaded.metadata.source_version.clone(),
            package_revision: loaded.metadata.package_revision,
            checksum_verified: loaded.checksum_verified,
            tags: loaded.package.tags,
            definition_count: loaded.package.definitions.len(),
        }
    }
}

/// Loads a package and summarizes it.
pub fn inspect_package(bytes: &[u8]) -> (r: Result<PackageSummary, BuilderError>)
    ensures
        match r {
            Ok(s) => spec_load_package(bytes@) matches Ok(l) && summarizes(s, l),
            Err(e) => spec_load_package(bytes@) matches Err(f) && is_load_error(e, f),
        },
{
    match load_package(bytes) {
        Ok(loaded) => Ok(PackageSummary::from_loaded(&loaded)),
        Err(e) => Err(e),
    }
}

/// Whether an embedded package refresh was skipped, found nothing to do, wrote a new
/// package, or found that one is needed.
#[derive(Debug, Clone, Copy, PartialEq, Eq, Structural)]
pub enum SyncEmbeddedStatus {
    Skipped,
    UpToDate,
    Updated,
    NeedsUpdate,
}

/// The result of an embedded package refresh.
#[derive(Debug)]
pub struct SyncEmbeddedOutcome {
    pub input: PathBuf,
    pub output: PathBuf,
    pub status: SyncEmbeddedStatus,
    pub package_version: Option<String>,
    pub detail: String,
}

/// Why a loaded embedded package differs from the desired one, or `None` when it is current:
/// the identifier must be `FDEF`, the purpose embedded, and the version fields those of the
/// desired package.
pub open spec fn spec_validity_reason(current: LoadedView, desired: DefinitionPackageView) -> Option<Seq<char>> {
    if current.package_id != DEFINITION_PACKAGE_ID@ {
        Some("embedded package id '"@ + utf8_lossy(current.package_id) + "' does not match 'FDEF'"@)
    } else if current.purpose != PackagePurpose::Embedded {
        Some("embedded package purpose is not Embedded"@)
    } else if current.metadata.0 != desired.package_version {
        Some("package version mismatch: current='"@ + current.metadata.0 + "', desired='"@
            + desired.package_version + "'"@)
    } else if current.metadata.1 != desired.source_version {
        Some("source version mismatch: current='"@ + current.metadata.1 + "', desired='"@
            + desired.source_version + "'"@)
    } else if current.metadata.2 != desired.package_revision {
        Some("package revision mismatch: current='"@ + spec_decimal(current.metadata.2 as nat)
            + "', desired='"@ + spec_decimal(desired.package_revision as nat) + "'"@)
    } else {
        None
    }
}

/// A loaded embedded package counts as current exactly when its identifier is `FDEF`, its
/// purpose is `Embedded`, and its package version, source version and revision are the
/// desired package's: a package written with any other purpose is never current, and a
/// refresh that finds one at the embedded location does not report it up to date.
pub proof fn lemma_current_package_conditions(
    current: LoadedView,
    desired: DefinitionPackageView,
    state: EmbeddedState,
)
    ensures
        spec_validity_reason(current, desired) is None <==> {
            &&& current.package_id == seq![0x46u8, 0x44u8, 0x45u8, 0x46u8]
            &&& current.purpose == PackagePurpose::Embedded
            &&& current.metadata.0 == desired.package_version
            &&& current.metadata.1 == desired.source_version
            &&& current.metadata.2 == desired.package_revision
        },
        (state matches EmbeddedState::Present { bytes } && spec_load_package(bytes@) matches Ok(
            loaded,
        ) && loaded.purpose != PackagePurpose::Embedded) ==> spec_sync_reason(state, desired) is Some,
{
    assert(DEFINITION_PACKAGE_ID@ =~= seq![0x46u8, 0x44u8, 0x45u8, 0x46u8]);
}

/// Why a loaded embedded package differs from the desired one, or `None` when it is current.
pub fn current_validity_reason(current: &LoadedPackage, desired: &DefinitionPackage) -> (r: Option<String>)
    ensures
        match r {
            Some(s) => spec_validity_reason(current@, desired@) == Some(s@),
            None => spec_validity_reason(current@, desired@) is None,
        },
{
    let mut out: Vec<char> = Vec::new();
    if !is_definitions_id(current.package_id) {
        push_str(&mut out, "embedded package id '");
        push_str(&mut out, current.package_id_string().as_str());
        push_str(&mut out, "' does not match 'FDEF'");
        return Some(string_from_chars(out.as_slice()));
    }
    if current.purpose != PackagePurpose::Embedded {
        return Some("embedded package purpose is not Embedded".to_owned());
    }
    if !strings_equal(&current.metadata.package_version, &desired.package_version) {
        push_str(&mut out, "package version mismatch: current='");
        push_str(&mut out, current.metadata.package_version.as_str());
        push_str(&mut out, "', desired='");
        push_str(&mut out, desired.package_version.as_str());
        push_str(&mut out, "'");
        return Some(string_from_chars(out.as_slice()));
    }
    if !strings_equal(&current.metadata.source_version, &desired.source_version) {
        push_str(&mut out, "source version mismatch: current='");
        push_str(&mut out, current.metadata.source_version.as_str());
        push_str(&mut out, "', desired='");
        push_str(&mut out, desired.source_version.as_str());
        push_str(&mut out, "'");
        return Some(string_from_chars(out.as_slice()));
    }
    if current.metadata.package_revision != desired.package_revision {
        push_str(&mut out, "package revision mismatch: current='");
        push_decimal(&mut out, current.metadata.package_revision as u64);
        push_str(&mut out, "', desired='");
        push_decimal(&mut out, desired.package_revision as u64);
        push_str(&mut out, "'");
        return Some(string_from_chars(out.as_slice()));
    }
    None
}

/// What was found at the embedded package's location.
#[derive(Debug)]
pub enum EmbeddedState {
    /// Nothing is there.
    Missing,
    /// Something is there but could not be read; the message says why.
    Unreadable { message: String },
    /// These bytes are there.
    Present { bytes: Vec<u8> },
}

/// Why the embedded package must be rewritten, with the load failure of present bytes
/// reported as a package error.
pub open spec fn spec_sync_reason(current: EmbeddedState, desired: DefinitionPackageView) -> Option<Seq<char>> {
    match current {
        EmbeddedState::Missing => Some("embedded package is missing"@),
        EmbeddedState::Unreadable { message } => Some(
            "current embedded package is invalid: "@ + message@,
        ),
        EmbeddedState::Present { bytes } => match spec_load_package(bytes@) {
            Ok(loaded) => spec_validity_reason(loaded, desired),
            Err(f) => Some(
                "current embedded package is invalid: package error: "@ + spec_load_message(f),
            ),
        },
    }
}

/// Whether the reason text may continue after `spec_sync_reason` with an outside error's text.
pub open spec fn sync_reason_is_open(current: EmbeddedState) -> bool {
    match current {
        EmbeddedState::Present { bytes } => spec_load_package(bytes@) matches Err(f)
            && load_message_is_open(f),
        _ => false,
    }
}

/// Decides an embedded package refresh. Without a desired package (its source was not
/// available) the refresh is skipped; a current package is left alone; otherwise the
/// package is reported as needing an update (`check_only`) or as updated, which the caller
/// completes by writing the desired package with the embedded purpose.
pub fn sync_embedded_package(
    input: PathBuf,
    output: PathBuf,
    desired: Option<&DefinitionPackage>,
    current: &EmbeddedState,
    check_only: bool,
) -> (r: SyncEmbeddedOutcome)
    ensures
        r.input == input,
        r.output == output,
        match desired {
            None => r.status == SyncEmbeddedStatus::Skipped && r.package_version is None
                && r.detail@ == "TrID archive was not available; skipped embedded package refresh"@,
            Some(d) => r.package_version matches Some(v) && v@ == d@.package_version && match spec_sync_reason(
                *current,
                d@,
            ) {
                None => r.status == SyncEmbeddedStatus::UpToDate && r.detail@
                    == "embedded package is already current"@,
                Some(reason) => r.status == (if check_only {
                    SyncEmbeddedStatus::NeedsUpdate
                } else {
                    SyncEmbeddedStatus::Updated
                }) && (if sync_reason_is_open(*current) {
                    r.detail@.len() >= reason.len() && r.detail@.take(reason.len() as int) == reason
                } else {
                    r.detail@ == reason
                }),
            },
        },
{
    let desired = match desired {
        Some(d) => d,
        None => {
            return SyncEmbeddedOutcome {
                input,
                output,
                status: SyncEmbeddedStatus::Skipped,
                package_version: None,
                detail: "TrID archive was not available; skipped embedded package refresh".to_owned(),
            };
        },
    };
    let reason: Option<String> = match current {
        EmbeddedState::Missing => Some("embedded package is missing".to_owned()),
        EmbeddedState::Unreadable { message } => {
            let mut out: Vec<char> = Vec::new();
            push_str(&mut out, "current embedded package is invalid: ");
            push_str(&mut out, message.as_str());
            Some(string_from_chars(out.as_slice()))
        },
        EmbeddedState::Present { bytes } => match load_package(bytes.as_slice()) {
            Ok(loaded) => current_validity_reason(&loaded, desired),
            Err(e) => {
                let mut out: Vec<char> = Vec::new();
                push_str(&mut out, "current embedded package is invalid: package error: ");
                let ghost prefix = out@;
                match e {
                    BuilderError::Package { message } => {
                        push_str(&mut out, message.as_str());
                        proof {
                            let f = choose|f: LoadFailure|
                                spec_load_package(bytes@) == Err::<LoadedView, LoadFailure>(f)
                                    && is_load_error(e, f);
                            let m = spec_load_message(f);
                            if load_message_is_open(f) {
                                assert(out@.take((prefix.len() + m.len()) as int) =~= prefix
                                    + message@.take(m.len() as int));
                            }
                        }
                    },
                    _ => {
                        proof {
                            let f = choose|f: LoadFailure|
                                spec_load_package(bytes@) == Err::<LoadedView, LoadFailure>(f)
                                    && is_load_error(e, f);
                        }
                    },
                }
                Some(string_from_chars(out.as_slice()))
            },
        },
    };
    let package_version = Some(desired.package_version.clone());
    match reason {
        None => SyncEmbeddedOutcome {
            input,
            output,
            status: SyncEmbeddedStatus::UpToDate,
            package_version,
            detail: "embedded package is already current".to_owned(),
        },
        Some(detail) => SyncEmbeddedOutcome {
            input,
            output,
            status: if check_only {
                SyncEmbeddedStatus::NeedsUpdate
            } else {
                SyncEmbeddedStatus::Updated
            },
            package_version,
            detail,
        },
    }
}

} // verus!
