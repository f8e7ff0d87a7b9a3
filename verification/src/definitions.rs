//! File-type definitions: the records the analysis engine matches against, the
//! `FDEF` definition package that carries them, and the indexed database.
use vstd::prelude::*;

use serde::de::IgnoredAny;

use crate::container::{
    msgpack_error_text, spec_decode_message, spec_parse_header, spec_read_package,
    spec_read_payload, DecodeError, DecodeFailure, ReadOptions,
};
use crate::error::StorageError;
use crate::rpkg::{RpkgReadOptions, RpkgReader, RPKG_MAGIC};
use crate::text::{push_str, string_from_chars, string_from_utf8_lossy, utf8_lossy};

verus! {

/// Four-byte package identifier used by normalized file-definition packages (`FDEF`).
pub const DEFINITION_PACKAGE_ID: [u8; 4] = [0x46, 0x44, 0x45, 0x46];

/// The index slot that holds definitions without a usable first pattern byte.
pub const CATCH_ALL_INDEX: usize = 256;

/// Byte sequence that should match at a specific offset within a file.
#[derive(Debug, Clone, Default, PartialEq, Eq)]
pub struct SignaturePattern {
    /// Zero-based byte offset where the pattern should be evaluated.
    pub position: u16,
    /// The expected byte sequence at `position`.
    pub data: Vec<u8>,
}

/// Signature material used to identify a file type from file bytes.
#[derive(Debug, Clone, Default, PartialEq, Eq)]
pub struct SignatureDefinition {
    /// Positional byte patterns that must match specific file offsets.
    pub patterns: Vec<SignaturePattern>,
    /// Byte strings that must appear somewhere in the content.
    pub strings: Vec<Vec<u8>>,
}

/// Single normalized file-type definition record.
#[derive(Debug, Clone, Default, PartialEq, Eq)]
pub struct DefinitionRecord {
    /// Human-readable label for the detected file type.
    pub file_type: String,
    /// Known filename extensions associated with the type.
    pub extensions: Vec<String>,
    /// Preferred MIME type associated with the type.
    pub mime_type: String,
    /// Additional human-readable notes captured from the source dataset.
    pub remarks: String,
    /// Signature patterns and extracted strings used for content matching.
    pub signature: SignatureDefinition,
    /// Relative ranking hint used when multiple definitions match.
    pub priority_level: i32,
}

/// Serialized file-definition package loaded from `filedefs.rpkg`.
#[derive(Debug, Clone, PartialEq, Eq)]
pub struct DefinitionPackage {
    /// The version of the normalized package schema produced by the builder.
    pub package_version: String,
    /// The upstream source-data version carried through from the TrID source set.
    pub source_version: String,
    /// Monotonic package revision assigned by the builder.
    pub package_revision: u16,
    /// Builder-defined package flags.
    pub tags: u32,
    /// All normalized type definitions contained in the package.
    pub definitions: Vec<DefinitionRecord>,
}

/// A signature pattern as values.
pub struct PatternView {
    pub position: u16,
    pub data: Seq<u8>,
}

/// Signature material as values.
pub struct SignatureView {
    pub patterns: Seq<PatternView>,
    pub strings: Seq<Seq<u8>>,
}

/// A definition record as values.
pub struct RecordView {
    pub file_type: Seq<char>,
    pub extensions: Seq<Seq<char>>,
    pub mime_type: Seq<char>,
    pub remarks: Seq<char>,
    pub signature: SignatureView,
    pub priority_level: i32,
}

/// A definition package as values.
pub struct DefinitionPackageView {
    pub package_version: Seq<char>,
    pub source_version: Seq<char>,
    pub package_revision: u16,
    pub tags: u32,
    pub definitions: Seq<RecordView>,
}

impl View for SignaturePattern {
    type V = PatternView;

    open spec fn view(&self) -> PatternView {
        PatternView { position: self.position, data: self.data@ }
    }
}

/// The values of a sequence of patterns.
pub open spec fn patterns_view(ps: Seq<SignaturePattern>) -> Seq<PatternView> {
    ps.map_values(|p: SignaturePattern| p@)
}

/// The patterns raw (position, bytes) pairs stand for.
pub open spec fn raw_patterns_view(ps: Seq<(u16, Seq<u8>)>) -> Seq<PatternView> {
    ps.map_values(|p: (u16, Seq<u8>)| PatternView { position: p.0, data: p.1 })
}

/// The records raw records stand for.
pub open spec fn raw_records_view(rs: Seq<RawRecordView>) -> Seq<RecordView> {
    rs.map_values(|x: RawRecordView| record_from_raw(x))
}

impl View for SignatureDefinition {
    type V = SignatureView;

    open spec fn view(&self) -> SignatureView {
        SignatureView {
            patterns: patterns_view(self.patterns@),
            strings: self.strings@.map_values(|s: Vec<u8>| s@),
        }
    }
}

impl View for DefinitionRecord {
    type V = RecordView;

    open spec fn view(&self) -> RecordView {
        RecordView {
            file_type: self.file_type@,
            extensions: self.extensions@.map_values(|e: String| e@),
            mime_type: self.mime_type@,
            remarks: self.remarks@,
            signature: self.signature@,
            priority_level: self.priority_level,
        }
    }
}

/// The values of a sequence of records.
pub open spec fn records_view(records: Seq<DefinitionRecord>) -> Seq<RecordView> {
    records.map_values(|r: DefinitionRecord| r@)
}

impl View for DefinitionPackage {
    type V = DefinitionPackageView;

    open spec fn view(&self) -> DefinitionPackageView {
        DefinitionPackageView {
            package_version: self.package_version@,
            source_version: self.source_version@,
            package_revision: self.package_revision,
            tags: self.tags,
            definitions: records_view(self.definitions@),
        }
    }
}

/// A signature pattern as MessagePack carries it: position and bytes.
pub type RawPattern = (u16, Vec<u8>);

/// A definition record as MessagePack carries it, field after field.
pub type RawRecord = (String, Vec<String>, String, String, (Vec<RawPattern>, Vec<Vec<u8>>), i32);

/// A definition package payload as MessagePack carries it, without the ignored field.
pub type RawPackage = (String, String, u16, u32, Vec<RawRecord>);

/// The values of a record as MessagePack carries it.
pub type RawRecordView = (
    Seq<char>,
    Seq<Seq<char>>,
    Seq<char>,
    Seq<char>,
    (Seq<(u16, Seq<u8>)>, Seq<Seq<u8>>),
    i32,
);

/// The values of a package payload as MessagePack carries it.
pub type RawPackageView = (Seq<char>, Seq<char>, u16, u32, Seq<RawRecordView>);

/// What `rmp_serde::from_slice` decodes from `bytes` as the six-element payload array
/// (the fourth element ignored): `None` when it refuses the bytes.
pub uninterp spec fn msgpack_definition_payload(bytes: Seq<u8>) -> Option<RawPackageView>;

/// Calls `rmp_serde::from_slice` for the six-element definition payload array
/// (package version, source version, revision, an ignored value, tags, records). Claimed:
/// the result is a function of the bytes alone; the ignored element is dropped.
#[verifier::external_body]
pub(crate) fn decode_raw_definition_payload(bytes: &[u8]) -> (r: Result<RawPackage, rmp_serde::decode::Error>)
    ensures
        match r {
            Ok(raw) => msgpack_definition_payload(bytes@) == Some(raw.deep_view()),
            Err(_) => msgpack_definition_payload(bytes@) is None,
        },
{
    rmp_serde::from_slice::<(String, String, u16, IgnoredAny, u32, Vec<RawRecord>)>(bytes).map(
        |(a, b, c, _, d, e)| (a, b, c, d, e),
    )
}

/// The record a raw record stands for.
pub open spec fn record_from_raw(raw: RawRecordView) -> RecordView {
    RecordView {
        file_type: raw.0,
        extensions: raw.1,
        mime_type: raw.2,
        remarks: raw.3,
        signature: SignatureView {
            patterns: raw_patterns_view((raw.4).0),
            strings: (raw.4).1,
        },
        priority_level: raw.5,
    }
}

/// The package a raw payload stands for.
pub open spec fn package_from_raw(raw: RawPackageView) -> DefinitionPackageView {
    DefinitionPackageView {
        package_version: raw.0,
        source_version: raw.1,
        package_revision: raw.2,
        tags: raw.3,
        definitions: raw_records_view(raw.4),
    }
}

/// The raw record that stands for `r`: its fields in MessagePack order.
pub open spec fn raw_of_record(r: RecordView) -> RawRecordView {
    (
        r.file_type,
        r.extensions,
        r.mime_type,
        r.remarks,
        (r.signature.patterns.map_values(|p: PatternView| (p.position, p.data)), r.signature.strings),
        r.priority_level,
    )
}

/// The raw records that stand for `rs`.
pub open spec fn raw_of_records(rs: Seq<RecordView>) -> Seq<RawRecordView> {
    rs.map_values(|r: RecordView| raw_of_record(r))
}

/// The raw payload that stands for `p`.
pub open spec fn raw_of_package(p: DefinitionPackageView) -> RawPackageView {
    (p.package_version, p.source_version, p.package_revision, p.tags, raw_of_records(p.definitions))
}

/// A raw record stands for one record only.
pub proof fn lemma_raw_record_unique(raw: RawRecordView)
    ensures
        raw_of_record(record_from_raw(raw)) == raw,
{
    let ps = (raw.4).0;
    let back = raw_patterns_view(ps).map_values(|p: PatternView| (p.position, p.data));
    assert(back =~= ps);
}

/// Raw records stand for one list of records only.
pub proof fn lemma_raw_records_unique(raws: Seq<RawRecordView>)
    ensures
        raw_of_records(raw_records_view(raws)) == raws,
{
    assert forall|k: int| 0 <= k < raws.len() implies raw_of_records(raw_records_view(raws))[k] == raws[k] by {
        lemma_raw_record_unique(raws[k]);
    }
    assert(raw_of_records(raw_records_view(raws)) =~= raws);
}

/// A raw payload stands for one package only: the one `raw_of_package` gives back.
pub proof fn lemma_raw_package_unique(raw: RawPackageView)
    ensures
        raw_of_package(package_from_raw(raw)) == raw,
{
    lemma_raw_records_unique(raw.4);
}

/// Builds a record from its MessagePack fields.
pub fn record_from_parts(raw: RawRecord) -> (r: DefinitionRecord)
    ensures
        r@ == record_from_raw(raw.deep_view()),
{
    let ghost rv = raw.deep_view();
    let (file_type, extensions, mime_type, remarks, (raw_patterns, strings), priority_level) = raw;
    let mut patterns: Vec<SignaturePattern> = Vec::new();
    let mut rest = raw_patterns;
    let ghost all = rest.deep_view();
    let mut taken: usize = 0;
    let total = rest.len();
    proof {
        assert(all.len() == rest@.len());
    }
    while rest.len() > 0
        invariant
            all.len() == total,
            all == (rv.4).0,
            taken + rest@.len() == all.len(),
            rest.deep_view() == all.subrange(taken as int, all.len() as int),
            patterns@.len() == taken,
            patterns_view(patterns@) == raw_patterns_view(all.take(taken as int)),
        decreases rest@.len(),
    {
        let ghost old_rest = rest@;
        let ghost old_deep = rest.deep_view();
        let item = rest.remove(0);
        proof {
            assert(old_deep[0] == item.deep_view());
            assert(item.1.deep_view() =~= item.1@);
            assert(all[taken as int] == old_deep[0]);
            assert forall|k: int| 0 <= k < rest@.len() implies rest.deep_view()[k] == all[taken + 1
                + k] by {
                assert(rest@[k] == old_rest[k + 1]);
                assert(old_deep[k + 1] == all[taken + 1 + k]);
            }
            assert(rest.deep_view() =~= all.subrange(taken + 1, all.len() as int));
        }
        let ghost prev = patterns@;
        let (position, data) = item;
        let ghost d = data@;
        patterns.push(SignaturePattern { position, data });
        proof {
            assert(all[taken as int] == (position, d));
            assert(patterns@ == prev.push(patterns@.last()));
            assert(patterns@.last()@ == PatternView { position, data: d });
            assert forall|k: int| 0 <= k < taken + 1 implies #[trigger] patterns_view(patterns@)[k]
                == raw_patterns_view(all.take(taken + 1))[k] by {
                if k < taken {
                    assert(patterns@[k] == prev[k]);
                    assert(all.take(taken + 1)[k] == all.take(taken as int)[k]);
                    assert(patterns_view(prev)[k] == raw_patterns_view(all.take(taken as int))[k]);
                } else {
                    assert(patterns@[k] == patterns@.last());
                    assert(all.take(taken + 1)[k] == all[taken as int]);
                }
            }
            assert(all.take(taken + 1) =~= all.take(taken as int).push(all[taken as int]));
            assert(patterns_view(patterns@) =~= raw_patterns_view(all.take(taken + 1)));
        }
        taken = taken + 1;
    }
    proof {
        assert(all.take(taken as int) =~= all);
        assert(extensions@.map_values(|e: String| e@) =~= extensions.deep_view());
        assert forall|k: int| 0 <= k < strings@.len() implies strings@[k]@ == strings.deep_view()[k] by {
            assert(strings@[k].deep_view() =~= strings@[k]@);
        }
        assert(strings@.map_values(|s: Vec<u8>| s@) =~= strings.deep_view());
    }
    DefinitionRecord {
        file_type,
        extensions,
        mime_type,
        remarks,
        signature: SignatureDefinition { patterns, strings },
        priority_level,
    }
}

/// Builds the records of a payload from their MessagePack fields.
pub fn records_from_parts(raw: Vec<RawRecord>) -> (r: Vec<DefinitionRecord>)
    ensures
        records_view(r@) == raw_records_view(raw.deep_view()),
{
    let ghost all = raw.deep_view();
    let mut rest = raw;
    let mut out: Vec<DefinitionRecord> = Vec::new();
    let mut taken: usize = 0;
    let total = rest.len();
    while rest.len() > 0
        invariant
            all.len() == total,
            taken + rest@.len() == all.len(),
            rest.deep_view() == all.subrange(taken as int, all.len() as int),
            out@.len() == taken,
            records_view(out@) == raw_records_view(all.take(taken as int)),
        decreases rest@.len(),
    {
        let ghost old_rest = rest@;
        let ghost old_deep = rest.deep_view();
        let item = rest.remove(0);
        proof {
            assert(old_deep[0] == item.deep_view());
            assert(all[taken as int] == old_deep[0]);
            assert forall|k: int| 0 <= k < rest@.len() implies rest.deep_view()[k] == all[taken + 1
                + k] by {
                assert(rest@[k] == old_rest[k + 1]);
                assert(old_deep[k + 1] == all[taken + 1 + k]);
            }
            assert(rest.deep_view() =~= all.subrange(taken + 1, all.len() as int));
        }
        let ghost prev = out@;
        let rec = record_from_parts(item);
        out.push(rec);
        proof {
            assert(out@ == prev.push(rec));
            assert(records_view(out@).last() == record_from_raw(all[taken as int]));
            assert forall|k: int| 0 <= k < taken + 1 implies #[trigger] records_view(out@)[k]
                == raw_records_view(all.take(taken + 1))[k] by {
                if k < taken {
                    assert(out@[k] == prev[k]);
                    assert(all.take(taken + 1)[k] == all.take(taken as int)[k]);
                    assert(records_view(prev)[k] == raw_records_view(all.take(taken as int))[k]);
                } else {
                    assert(out@[k] == rec);
                    assert(all.take(taken + 1)[k] == all[taken as int]);
                }
            }
            assert(all.take(taken + 1) =~= all.take(taken as int).push(all[taken as int]));
            assert(records_view(out@) =~= raw_records_view(all.take(taken + 1)));
        }
        taken = taken + 1;
    }
    proof {
        assert(all.take(taken as int) =~= all);
    }
    out
}

/// Builds a package from its MessagePack fields.
pub fn package_from_parts(raw: RawPackage) -> (r: DefinitionPackage)
    ensures
        r@ == package_from_raw(raw.deep_view()),
{
    let (package_version, source_version, package_revision, tags, records) = raw;
    let definitions = records_from_parts(records);
    DefinitionPackage { package_version, source_version, package_revision, tags, definitions }
}

/// Errors that can occur while decoding a file-definition package.
#[derive(Debug)]
pub enum DefinitionPackageDecodeError {
    /// The outer `RPKG` container could not be parsed or validated.
    Rpkg(DecodeError),
    /// The inner MessagePack payload could not be deserialized into the expected schema.
    MessagePack(rmp_serde::decode::Error),
    /// The package advertised a four-byte identifier other than `FDEF`.
    InvalidPackageId {
        /// The decoded four-byte identifier rendered as text for diagnostics.
        found: String,
    },
}

/// Why a definition package is refused, as the contracts speak of it.
pub enum DefinitionFailure {
    Rpkg(DecodeFailure),
    MessagePack,
    InvalidPackageId(Seq<char>),
}

impl View for DefinitionPackageDecodeError {
    type V = DefinitionFailure;

    open spec fn view(&self) -> DefinitionFailure {
        match self {
            DefinitionPackageDecodeError::Rpkg(e) => DefinitionFailure::Rpkg(e@),
            DefinitionPackageDecodeError::MessagePack(_) => DefinitionFailure::MessagePack,
            DefinitionPackageDecodeError::InvalidPackageId { found } => DefinitionFailure::InvalidPackageId(found@),
        }
    }
}

/// A package decode's outcome as the contracts speak of it.
pub open spec fn definition_result_view(r: Result<DefinitionPackage, DefinitionPackageDecodeError>) -> Result<
    DefinitionPackageView,
    DefinitionFailure,
> {
    match r {
        Ok(p) => Ok(p@),
        Err(e) => Err(e@),
    }
}

/// The package a MessagePack payload decodes to, or why it is refused.
pub open spec fn spec_decode_payload(payload: Seq<u8>) -> Result<DefinitionPackageView, DefinitionFailure> {
    match msgpack_definition_payload(payload) {
        None => Err(DefinitionFailure::MessagePack),
        Some(raw) => Ok(package_from_raw(raw)),
    }
}

/// The package an `RPKG` container holds when read with the default behavior of the
/// purpose its header declares (integrity verified for standard packages), or why it is
/// refused: the identifier must be `FDEF`.
pub open spec fn spec_package_from_bytes(b: Seq<u8>) -> Result<DefinitionPackageView, DefinitionFailure> {
    match spec_parse_header(RPKG_MAGIC@, b) {
        Err(e) => Err(DefinitionFailure::Rpkg(e)),
        Ok(h) => if h.package_id != DEFINITION_PACKAGE_ID@ {
            Err(DefinitionFailure::InvalidPackageId(utf8_lossy(h.package_id)))
        } else {
            spec_package_from_bytes_with(b, h.purpose.spec_default_read_options())
        },
    }
}

/// The package an `RPKG` container holds when read under `opts`, or why it is refused.
pub open spec fn spec_package_from_bytes_with(b: Seq<u8>, opts: ReadOptions) -> Result<
    DefinitionPackageView,
    DefinitionFailure,
> {
    match spec_read_package(RPKG_MAGIC@, b, opts) {
        Err(e) => Err(DefinitionFailure::Rpkg(e)),
        Ok(p) => if p.header.package_id != DEFINITION_PACKAGE_ID@ {
            Err(DefinitionFailure::InvalidPackageId(utf8_lossy(p.header.package_id)))
        } else {
            spec_decode_payload(p.payload)
        },
    }
}

fn is_definition_id(id: [u8; 4]) -> (r: bool)
    ensures
        r == (id@ == DEFINITION_PACKAGE_ID@),
{
    let r = id[0] == DEFINITION_PACKAGE_ID[0] && id[1] == DEFINITION_PACKAGE_ID[1] && id[2]
        == DEFINITION_PACKAGE_ID[2] && id[3] == DEFINITION_PACKAGE_ID[3];
    proof {
        if r {
            assert(id@ =~= DEFINITION_PACKAGE_ID@);
        } else if id@ == DEFINITION_PACKAGE_ID@ {
            assert(id@[0] == DEFINITION_PACKAGE_ID@[0]);
            assert(id@[1] == DEFINITION_PACKAGE_ID@[1]);
            assert(id@[2] == DEFINITION_PACKAGE_ID@[2]);
            assert(id@[3] == DEFINITION_PACKAGE_ID@[3]);
        }
    }
    r
}

/// Decodes a raw MessagePack payload into a definition package.
fn decode_payload(payload: &[u8]) -> (r: Result<DefinitionPackage, DefinitionPackageDecodeError>)
    ensures
        definition_result_view(r) == spec_decode_payload(payload@),
{
    match DefinitionPackage::from_messagepack_bytes(payload) {
        Ok(p) => Ok(p),
        Err(e) => Err(DefinitionPackageDecodeError::MessagePack(e)),
    }
}

impl DefinitionPackage {
    /// Decodes a raw MessagePack payload into a normalized definition package.
    pub fn from_messagepack_bytes(bytes: &[u8]) -> (r: Result<DefinitionPackage, rmp_serde::decode::Error>)
        ensures
            match r {
                Ok(p) => spec_decode_payload(bytes@) == Ok::<DefinitionPackageView, DefinitionFailure>(p@),
                Err(_) => spec_decode_payload(bytes@) == Err::<DefinitionPackageView, DefinitionFailure>(
                    DefinitionFailure::MessagePack,
                ),
            },
    {
        match decode_raw_definition_payload(bytes) {
            Ok(raw) => Ok(package_from_parts(raw)),
            Err(e) => Err(e),
        }
    }

    /// Decodes a full `filedefs.rpkg` container using the package's default read behavior.
    pub fn from_bytes(bytes: &[u8]) -> (r: Result<DefinitionPackage, DefinitionPackageDecodeError>)
        ensures
            definition_result_view(r) == spec_package_from_bytes(bytes@),
    {
        let header = match RpkgReader::read_header(bytes) {
            Ok(h) => h,
            Err(e) => return Err(DefinitionPackageDecodeError::Rpkg(e)),
        };
        if !is_definition_id(header.package_id) {
            let found = string_from_utf8_lossy(&header.package_id);
            return Err(DefinitionPackageDecodeError::InvalidPackageId { found });
        }
        let package = match RpkgReader::read_package_default(bytes) {
            Ok(p) => p,
            Err(e) => return Err(DefinitionPackageDecodeError::Rpkg(e)),
        };
        proof {
            assert(package@.header.package_id == header@.package_id);
        }
        decode_payload(package.payload.as_slice())
    }

    /// Decodes a full `filedefs.rpkg` container using explicit `RPKG` read options.
    pub fn from_bytes_with_options(bytes: &[u8], options: &RpkgReadOptions) -> (r: Result<
        DefinitionPackage,
        DefinitionPackageDecodeError,
    >)
        ensures
            definition_result_view(r) == spec_package_from_bytes_with(bytes@, options@),
    {
        let package = match RpkgReader::read_package(bytes, options) {
            Ok(p) => p,
            Err(e) => return Err(DefinitionPackageDecodeError::Rpkg(e)),
        };
        if !is_definition_id(package.header.package_id) {
            let found = string_from_utf8_lossy(&package.header.package_id);
            return Err(DefinitionPackageDecodeError::InvalidPackageId { found });
        }
        decode_payload(package.payload.as_slice())
    }
}

/// The message of a definition-package failure, without the cause of an outside failure.
pub open spec fn spec_definition_message(f: DefinitionFailure) -> Seq<char> {
    match f {
        DefinitionFailure::Rpkg(e) => "failed to decode RPKG container: "@ + spec_decode_message(
            e,
            "an RPKG"@,
            "RPKG"@,
        ),
        DefinitionFailure::MessagePack => "failed to decode MessagePack payload: "@,
        DefinitionFailure::InvalidPackageId(found) => "unexpected package identifier '"@ + found
            + "'"@,
    }
}

/// Whether the message of failure `f` ends with the text of an outside error.
pub open spec fn has_outside_cause(f: DefinitionFailure) -> bool {
    match f {
        DefinitionFailure::Rpkg(e) => e == DecodeFailure::Compression || e == DecodeFailure::MessagePack,
        DefinitionFailure::MessagePack => true,
        DefinitionFailure::InvalidPackageId(_) => false,
    }
}

impl DefinitionPackageDecodeError {
    /// The message that describes this failure.
    pub fn message(&self) -> (r: String)
        ensures
            has_outside_cause(self@) ==> r@.len() >= spec_definition_message(self@).len() && r@.take(
                spec_definition_message(self@).len() as int,
            ) == spec_definition_message(self@),
            !has_outside_cause(self@) ==> r@ == spec_definition_message(self@),
    {
        let mut out: Vec<char> = Vec::new();
        match self {
            DefinitionPackageDecodeError::Rpkg(e) => {
                push_str(&mut out, "failed to decode RPKG container: ");
                let ghost prefix = out@;
                let inner = e.message("an RPKG", "RPKG");
                push_str(&mut out, inner.as_str());
                assert(out@ =~= prefix + inner@);
                proof {
                    if has_outside_cause(self@) {
                        let m = spec_decode_message(e@, "an RPKG"@, "RPKG"@);
                        assert(out@.take((prefix.len() + m.len()) as int) =~= prefix + inner@.take(m.len() as int));
                    }
                }
            },
            DefinitionPackageDecodeError::MessagePack(e) => {
                push_str(&mut out, "failed to decode MessagePack payload: ");
                let ghost prefix = out@;
                let text = msgpack_error_text(e);
                push_str(&mut out, text.as_str());
                assert(out@.take(prefix.len() as int) =~= prefix);
            },
            DefinitionPackageDecodeError::InvalidPackageId { found } => {
                push_str(&mut out, "unexpected package identifier '");
                push_str(&mut out, found.as_str());
                push_str(&mut out, "'");
            },
        }
        string_from_chars(out.as_slice())
    }
}

/// The storage error that reports a definition-package failure.
pub open spec fn is_definitions_load(r: StorageError, e: DefinitionPackageDecodeError) -> bool {
    r matches StorageError::DefinitionsLoad { message } && (has_outside_cause(e@) ==> message@.len()
        >= spec_definition_message(e@).len() && message@.take(
        spec_definition_message(e@).len() as int,
    ) == spec_definition_message(e@)) && (!has_outside_cause(e@) ==> message@
        == spec_definition_message(e@))
}

/// Decodes an in-memory `filedefs.rpkg` blob using caller-provided `RPKG` read options.
pub fn decode_definition_package_with_options(bytes: &[u8], options: &RpkgReadOptions) -> (r: Result<
    DefinitionPackage,
    StorageError,
>)
    ensures
        match r {
            Ok(p) => spec_package_from_bytes_with(bytes@, options@) == Ok::<
                DefinitionPackageView,
                DefinitionFailure,
            >(p@),
            Err(e) => spec_package_from_bytes_with(bytes@, options@) is Err && exists|d: DefinitionPackageDecodeError|
                spec_package_from_bytes_with(bytes@, options@) == Err::<
                    DefinitionPackageView,
                    DefinitionFailure,
                >(d@) && is_definitions_load(e, d),
        },
{
    match DefinitionPackage::from_bytes_with_options(bytes, options) {
        Ok(p) => Ok(p),
        Err(err) => {
            let message = err.message();
            let r = StorageError::DefinitionsLoad { message };
            assert(is_definitions_load(r, err));
            Err(r)
        },
    }
}

/// Decodes an in-memory `filedefs.rpkg` blob using default read options (integrity
/// verified, metadata loaded).
pub fn decode_definition_package(bytes: &[u8]) -> (r: Result<DefinitionPackage, StorageError>)
    ensures
        match r {
            Ok(p) => spec_package_from_bytes_with(
                bytes@,
                ReadOptions { verify_integrity: true, load_metadata: true },
            ) == Ok::<DefinitionPackageView, DefinitionFailure>(p@),
            Err(e) => exists|d: DefinitionPackageDecodeError|
                spec_package_from_bytes_with(
                    bytes@,
                    ReadOptions { verify_integrity: true, load_metadata: true },
                ) == Err::<DefinitionPackageView, DefinitionFailure>(d@) && is_definitions_load(e, d),
        },
{
    let options = RpkgReadOptions::default();
    decode_definition_package_with_options(bytes, &options)
}

/// Decodes a raw MessagePack definition-package payload without an outer `RPKG` container.
pub fn decode_definition_package_payload(bytes: &[u8]) -> (r: Result<DefinitionPackage, StorageError>)
    ensures
        match r {
            Ok(p) => spec_decode_payload(bytes@) == Ok::<DefinitionPackageView, DefinitionFailure>(p@),
            Err(e) => exists|d: DefinitionPackageDecodeError|
                spec_decode_payload(bytes@) == Err::<DefinitionPackageView, DefinitionFailure>(d@)
                    && is_definitions_load(e, d),
        },
{
    match decode_payload(bytes) {
        Ok(p) => Ok(p),
        Err(err) => {
            let message = err.message();
            let r = StorageError::DefinitionsLoad { message };
            assert(is_definitions_load(r, err));
            Err(r)
        },
    }
}

/// The MessagePack bytes `rmp_serde::to_vec` writes for a payload: the six-element array of
/// package version, source version, revision, nil, tags and records.
pub uninterp spec fn msgpack_definition_payload_encoded(raw: RawPackageView) -> Seq<u8>;

/// Calls `rmp_serde::to_vec` on the six-element payload array (package version, source
/// version, revision, a unit written as nil, tags, records as arrays). Claimed: the bytes are
/// a function of the payload, and `rmp_serde::from_slice` reads them back as that payload.
/// It succeeds: these are plain tuples of strings, integers, nil and arrays, whose
/// serialization cannot fail, and the only error path left is the growable buffer's
/// allocation, which is taken to succeed as for any `Vec`.
#[verifier::external_body]
fn encode_raw_definition_payload(raw: &RawPackage) -> (r: Result<Vec<u8>, rmp_serde::encode::Error>)
    ensures
        r is Ok,
        r matches Ok(v) ==> v@ == msgpack_definition_payload_encoded(raw.deep_view()),
        r matches Ok(v) ==> msgpack_definition_payload(v@) == Some(raw.deep_view()),
{
    rmp_serde::to_vec(&(&raw.0, &raw.1, raw.2, (), raw.3, &raw.4))
}

/// A pattern as MessagePack carries it.
fn raw_pattern(p: &SignaturePattern) -> (r: RawPattern)
    ensures
        r.0 == p.position,
        r.1@ == p.data@,
{
    (p.position, p.data.clone())
}

/// A record as MessagePack carries it.
pub fn raw_record(r: &DefinitionRecord) -> (raw: RawRecord)
    ensures
        record_from_raw(raw.deep_view()) == r@,
{
    let mut patterns: Vec<RawPattern> = Vec::new();
    for j in 0..r.signature.patterns.len()
        invariant
            patterns.len() == j,
            forall|k: int| 0 <= k < j ==> (#[trigger] patterns@[k]).0 == r.signature.patterns@[k].position
                && patterns@[k].1@ == r.signature.patterns@[k].data@,
    {
        patterns.push(raw_pattern(&r.signature.patterns[j]));
    }
    let mut strings: Vec<Vec<u8>> = Vec::new();
    for j in 0..r.signature.strings.len()
        invariant
            strings.len() == j,
            forall|k: int| 0 <= k < j ==> (#[trigger] strings@[k])@ == r.signature.strings@[k]@,
    {
        strings.push(r.signature.strings[j].clone());
    }
    let mut extensions: Vec<String> = Vec::new();
    for j in 0..r.extensions.len()
        invariant
            extensions.len() == j,
            forall|k: int| 0 <= k < j ==> (#[trigger] extensions@[k])@ == r.extensions@[k]@,
    {
        extensions.push(r.extensions[j].clone());
    }
    let raw = (
        r.file_type.clone(),
        extensions,
        r.mime_type.clone(),
        r.remarks.clone(),
        (patterns, strings),
        r.priority_level,
    );
    proof {
        let rv = raw.deep_view();
        assert(raw_patterns_view((rv.4).0) =~= patterns_view(r.signature.patterns@)) by {
            assert forall|k: int| 0 <= k < r.signature.patterns@.len() implies raw_patterns_view((rv.4).0)[k]
                == patterns_view(r.signature.patterns@)[k] by {
                assert((rv.4).0[k] == (raw.4).0@[k].deep_view());
                assert((raw.4).0@[k].1.deep_view() =~= (raw.4).0@[k].1@);
            }
        }
        assert((rv.4).1 =~= r.signature.strings@.map_values(|s: Vec<u8>| s@)) by {
            assert forall|k: int| 0 <= k < (rv.4).1.len() implies (rv.4).1[k]
                == r.signature.strings@.map_values(|s: Vec<u8>| s@)[k] by {
                assert((raw.4).1@[k].deep_view() =~= (raw.4).1@[k]@);
            }
        }
        assert(rv.1 =~= r.extensions@.map_values(|e: String| e@));
        assert(record_from_raw(rv) =~= r@) by {
            assert(record_from_raw(rv).signature == r@.signature);
        }
    }
    raw
}

/// A package payload as MessagePack carries it.
pub fn raw_package(p: &DefinitionPackage) -> (raw: RawPackage)
    ensures
        package_from_raw(raw.deep_view()) == p@,
{
    let mut records: Vec<RawRecord> = Vec::new();
    for j in 0..p.definitions.len()
        invariant
            records.len() == j,
            forall|k: int| 0 <= k < j ==> record_from_raw((#[trigger] records@[k]).deep_view())
                == p.definitions@[k]@,
    {
        records.push(raw_record(&p.definitions[j]));
    }
    let raw = (p.package_version.clone(), p.source_version.clone(), p.package_revision, p.tags, records);
    proof {
        let rv = raw.deep_view();
        assert(raw_records_view(rv.4) =~= records_view(p.definitions@)) by {
            assert forall|k: int| 0 <= k < rv.4.len() implies raw_records_view(rv.4)[k]
                == records_view(p.definitions@)[k] by {
                assert(rv.4[k] == records@[k].deep_view());
            }
        }
    }
    raw
}

/// Encodes a package as its MessagePack payload.
pub fn encode_payload(p: &DefinitionPackage) -> (r: Result<Vec<u8>, rmp_serde::encode::Error>)
    ensures
        r is Ok,
        r matches Ok(v) ==> v@ == msgpack_definition_payload_encoded(raw_of_package(p@)),
        r matches Ok(v) ==> spec_decode_payload(v@) == Ok::<DefinitionPackageView, DefinitionFailure>(p@),
{
    let raw = raw_package(p);
    let r = encode_raw_definition_payload(&raw);
    proof {
        lemma_raw_package_unique(raw.deep_view());
        if r is Ok {
            assert(package_from_raw(raw.deep_view()) == p@);
        }
    }
    r
}

} // verus!
