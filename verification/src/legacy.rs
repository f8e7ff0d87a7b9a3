//! The plain MessagePack definitions package: a four-element array of package version,
//! an ignored value, tags and records, without a container around it.
use vstd::prelude::*;

use serde::de::IgnoredAny;

use crate::container::msgpack_error_text;
use crate::definitions::{
    lemma_raw_records_unique, raw_of_records, raw_record, raw_records_view, record_from_raw, records_from_parts, records_view,
    DefinitionRecord, RawRecord, RawRecordView, RecordView,
};
use crate::error::StorageError;

verus! {

/// The serialized definitions package used by the runtime and builder.
#[derive(Debug, Clone, PartialEq, Eq)]
pub struct DefinitionPackage {
    /// The package format version label.
    pub package_version: String,
    /// Reserved tags field carried forward from the legacy package.
    pub tags: u32,
    /// File signature definitions contained in the package.
    pub definitions: Vec<DefinitionRecord>,
}

/// A package as values.
pub struct LegacyPackageView {
    pub package_version: Seq<char>,
    pub tags: u32,
    pub definitions: Seq<RecordView>,
}

impl View for DefinitionPackage {
    type V = LegacyPackageView;

    open spec fn view(&self) -> LegacyPackageView {
        LegacyPackageView {
            package_version: self.package_version@,
            tags: self.tags,
            definitions: records_view(self.definitions@),
        }
    }
}

/// The package array as MessagePack carries it, without the ignored element.
pub type RawLegacyPackage = (String, u32, Vec<RawRecord>);

/// The values of the package array, without the ignored element.
pub type RawLegacyView = (Seq<char>, u32, Seq<RawRecordView>);

/// The package a raw package array stands for.
pub open spec fn legacy_from_raw(raw: RawLegacyView) -> LegacyPackageView {
    LegacyPackageView { package_version: raw.0, tags: raw.1, definitions: raw_records_view(raw.2) }
}

/// The raw package array that stands for `p`.
pub open spec fn raw_of_legacy(p: LegacyPackageView) -> RawLegacyView {
    (p.package_version, p.tags, raw_of_records(p.definitions))
}

/// What `rmp_serde::from_slice` reads out of `bytes` as the four-element package array (the
/// second element ignored): `None` when it refuses the bytes.
pub uninterp spec fn msgpack_legacy_package(bytes: Seq<u8>) -> Option<RawLegacyView>;

/// The MessagePack bytes `rmp_serde::to_vec` writes for the package array, with nil as
/// its second element.
pub uninterp spec fn msgpack_legacy_package_encoded(raw: RawLegacyView) -> Seq<u8>;

/// Calls `rmp_serde::from_slice` for the four-element package array (version, an ignored
/// value, tags, records). Claimed: it succeeds exactly when the bytes decode, with the
/// decoded elements; the ignored one is dropped.
#[verifier::external_body]
fn decode_raw_legacy(bytes: &[u8]) -> (r: Result<RawLegacyPackage, rmp_serde::decode::Error>)
    ensures
        match r {
            Ok(raw) => msgpack_legacy_package(bytes@) == Some(raw.deep_view()),
            Err(_) => msgpack_legacy_package(bytes@) is None,
        },
{
    rmp_serde::from_slice::<(String, IgnoredAny, u32, Vec<RawRecord>)>(bytes).map(|(a, _, c, d)| (a, c, d))
}

/// Calls `rmp_serde::to_vec` on the four-element package array with a unit (nil) second
/// element. Claimed: the bytes are a function of the package, and `rmp_serde::from_slice`
/// reads them back as the same array.
/// It succeeds: these are plain tuples of strings, integers, nil and arrays, whose
/// serialization cannot fail, and the only error path left is the growable buffer's
/// allocation, which is taken to succeed as for any `Vec`.
#[verifier::external_body]
fn encode_raw_legacy(raw: &RawLegacyPackage) -> (r: Result<Vec<u8>, rmp_serde::encode::Error>)
    ensures
        r is Ok,
        r matches Ok(v) ==> v@ == msgpack_legacy_package_encoded(raw.deep_view()),
        r matches Ok(v) ==> msgpack_legacy_package(v@) == Some(raw.deep_view()),
{
    rmp_serde::to_vec(&(&raw.0, (), raw.1, &raw.2))
}

/// The package `bytes` decode to, or `None` when they do not.
pub open spec fn spec_decode_legacy(bytes: Seq<u8>) -> Option<LegacyPackageView> {
    match msgpack_legacy_package(bytes) {
        Some(raw) => Some(legacy_from_raw(raw)),
        None => None,
    }
}

impl DefinitionPackage {
    /// Decodes a MessagePack definitions package.
    pub fn from_bytes(bytes: &[u8]) -> (r: Result<DefinitionPackage, rmp_serde::decode::Error>)
        ensures
            match r {
                Ok(p) => spec_decode_legacy(bytes@) == Some(p@),
                Err(_) => spec_decode_legacy(bytes@) is None,
            },
    {
        match decode_raw_legacy(bytes) {
            Ok(raw) => {
                let (package_version, tags, records) = raw;
                let definitions = records_from_parts(records);
                Ok(DefinitionPackage { package_version, tags, definitions })
            },
            Err(e) => Err(e),
        }
    }

    /// Encodes this package as the MessagePack package array; the bytes are `rmp_serde`'s
    /// encoding of the package's raw array, so equal packages give equal bytes, and decoding
    /// them gives the package back. It always succeeds.
    pub fn to_bytes(&self) -> (r: Result<Vec<u8>, rmp_serde::encode::Error>)
        ensures
            r is Ok,
            r matches Ok(v) ==> v@ == msgpack_legacy_package_encoded(raw_of_legacy(self@)),
            r matches Ok(v) ==> spec_decode_legacy(v@) == Some(self@),
    {
        let mut records: Vec<RawRecord> = Vec::new();
        for j in 0..self.definitions.len()
            invariant
                records.len() == j,
                forall|k: int| 0 <= k < j ==> record_from_raw((#[trigger] records@[k]).deep_view())
                    == self.definitions@[k]@,
        {
            records.push(raw_record(&self.definitions[j]));
        }
        let raw = (self.package_version.clone(), self.tags, records);
        proof {
            let rv = raw.deep_view();
            assert(raw_records_view(rv.2) =~= records_view(self.definitions@)) by {
                assert forall|k: int| 0 <= k < rv.2.len() implies raw_records_view(rv.2)[k]
                    == records_view(self.definitions@)[k] by {
                    assert(rv.2[k] == records@[k].deep_view());
                }
            }
            assert(legacy_from_raw(rv) =~= self@);
            lemma_raw_records_unique(rv.2);
            assert(rv == raw_of_legacy(self@));
        }
        encode_raw_legacy(&raw)
    }
}

/// Decodes a definitions package from MessagePack bytes.
pub fn decode_definition_package(bytes: &[u8]) -> (r: Result<DefinitionPackage, StorageError>)
    ensures
        match r {
            Ok(p) => spec_decode_legacy(bytes@) == Some(p@),
            Err(e) => spec_decode_legacy(bytes@) is None && e is DefinitionsLoad,
        },
{
    match DefinitionPackage::from_bytes(bytes) {
        Ok(p) => Ok(p),
        Err(e) => Err(StorageError::DefinitionsLoad { message: msgpack_error_text(&e) }),
    }
}

/// Encodes a definitions package as MessagePack, as `to_bytes` does: the bytes are the
/// encoding of the package's raw array (so equal packages give equal bytes), and decoding
/// them gives the package back. It always succeeds.
pub fn encode_definition_package(package: &DefinitionPackage) -> (r: Result<Vec<u8>, StorageError>)
    ensures
        r is Ok,
        r matches Ok(v) ==> v@ == msgpack_legacy_package_encoded(raw_of_legacy(package@)),
        r matches Ok(v) ==> spec_decode_legacy(v@) == Some(package@),
        r matches Err(e) ==> e is DefinitionsLoad,
{
    match package.to_bytes() {
        Ok(v) => Ok(v),
        Err(e) => Err(StorageError::DefinitionsLoad { message: crate::container::msgpack_encode_error_text(&e) }),
    }
}

} // verus!
