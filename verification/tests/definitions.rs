use dhara_storage::definitions::{
    decode_definition_package, decode_definition_package_payload,
    decode_definition_package_with_options, encode_payload, DefinitionPackage, DefinitionRecord,
    SignatureDefinition, SignaturePattern, DEFINITION_PACKAGE_ID,
};
use dhara_storage::legacy;
use dhara_storage::rpkg::{
    CompressionKind, IntegrityKind, PackagePurpose, RpkgReadOptions, RpkgWriteOptions, RpkgWriter,
    RPKG_MAGIC,
};

fn record(file_type: &str, ext: &str, mime: &str, pattern: &[u8], priority: i32) -> DefinitionRecord {
    DefinitionRecord {
        file_type: file_type.to_string(),
        extensions: vec![ext.to_string()],
        mime_type: mime.to_string(),
        remarks: String::new(),
        signature: SignatureDefinition {
            patterns: vec![SignaturePattern {
                position: 0,
                data: pattern.to_vec(),
            }],
            strings: vec![b"IEND".to_vec()],
        },
        priority_level: priority,
    }
}

fn sample_package() -> DefinitionPackage {
    DefinitionPackage {
        package_version: "trid-2.00+rpkg.1".to_string(),
        source_version: "2.00".to_string(),
        package_revision: 1,
        tags: 48,
        definitions: vec![
            record(
                "Portable Network Graphics",
                "png",
                "image/png",
                &[0x89, b'P', b'N', b'G'],
                560,
            ),
            record("Portable Document Format", "pdf", "application/pdf", b"%PDF", 300),
        ],
    }
}

fn encode_test_package(package: &DefinitionPackage, purpose: PackagePurpose) -> Vec<u8> {
    let payload = encode_payload(package).unwrap();
    RpkgWriter::write_payload_bytes(
        &payload,
        &RpkgWriteOptions {
            package_id: DEFINITION_PACKAGE_ID,
            purpose,
            compression: CompressionKind::Lz4Frame,
            flags: 0,
            metadata: Some(rmp_serde::to_vec(&"filedefs").unwrap()),
            integrity: IntegrityKind::Sha256,
        },
    )
    .unwrap()
}

#[test]
fn builder_style_package_roundtrip_is_semantically_stable() {
    let package = sample_package();
    let bytes = encode_test_package(&package, PackagePurpose::Standard);
    let decoded = decode_definition_package(&bytes).expect("encoded package should decode");

    assert_eq!(decoded, package);
}

#[test]
fn encoded_package_uses_rpkg_header() {
    let package = sample_package();
    let bytes = encode_test_package(&package, PackagePurpose::Standard);

    assert!(bytes.starts_with(&RPKG_MAGIC));
}

#[test]
fn legacy_plain_messagepack_is_rejected() {
    let package = sample_package();
    let plain = encode_payload(&package).unwrap();

    let error = DefinitionPackage::from_bytes(&plain).expect_err("legacy package should fail");
    assert!(error.message().contains("RPKG"));
}

#[test]
fn wrong_package_id_is_rejected() {
    let package = sample_package();
    let payload = encode_payload(&package).unwrap();
    let bytes = RpkgWriter::write_payload_bytes(
        &payload,
        &RpkgWriteOptions {
            package_id: *b"CONF",
            purpose: PackagePurpose::Standard,
            compression: CompressionKind::Uncompressed,
            flags: 0,
            metadata: Some(rmp_serde::to_vec(&"meta").unwrap()),
            integrity: IntegrityKind::NoIntegrity,
        },
    )
    .unwrap();

    let error = DefinitionPackage::from_bytes(&bytes).expect_err("package id should fail");
    assert!(error.message().contains("identifier"));
    assert_eq!(error.message(), "unexpected package identifier 'CONF'");
}

#[test]
fn decode_payload_helper_reads_raw_messagepack_payload() {
    let package = sample_package();
    let payload = encode_payload(&package).unwrap();
    let decoded = decode_definition_package_payload(&payload).expect("payload should decode");
    assert_eq!(decoded.tags, package.tags);
    assert_eq!(decoded.definitions.len(), package.definitions.len());
}

#[test]
fn fast_profile_filedefs_can_still_be_decoded_when_metadata_is_requested() {
    let package = sample_package();
    let bytes = encode_test_package(&package, PackagePurpose::Embedded);
    let decoded = decode_definition_package_with_options(
        &bytes,
        &RpkgReadOptions {
            verify_integrity: true,
            load_metadata: true,
        },
    )
    .expect("package should decode");
    assert_eq!(decoded.package_version, package.package_version);
}

#[test]
fn package_roundtrip_is_semantically_stable() {
    let package = legacy::DefinitionPackage {
        package_version: "1.0".to_string(),
        tags: 48,
        definitions: sample_package().definitions,
    };
    let bytes = legacy::encode_definition_package(&package).expect("package should encode");
    let decoded = legacy::decode_definition_package(&bytes).expect("encoded package should decode");

    assert_eq!(decoded, package);
}

#[test]
fn payload_that_is_not_messagepack_is_refused() {
    let error = decode_definition_package_payload(&[0xc1]).expect_err("garbage should fail");
    match error {
        dhara_storage::error::StorageError::DefinitionsLoad { message } => {
            assert!(message.starts_with("failed to decode MessagePack payload: "));
        }
        other => panic!("unexpected error {:?}", other),
    }
}

#[test]
fn standard_package_with_damaged_digest_is_refused() {
    let package = sample_package();
    let mut bytes = encode_test_package(&package, PackagePurpose::Standard);
    let last = bytes.len() - 1;
    bytes[last] ^= 0x01;
    match DefinitionPackage::from_bytes(&bytes) {
        Err(dhara_storage::definitions::DefinitionPackageDecodeError::Rpkg(e)) => {
            assert!(matches!(e, dhara_storage::container::DecodeError::ChecksumMismatch))
        }
        other => panic!("expected a checksum mismatch, got {:?}", other.map(|_| ())),
    }
}

#[test]
fn embedded_package_with_damaged_digest_still_decodes() {
    let package = sample_package();
    let mut bytes = encode_test_package(&package, PackagePurpose::Embedded);
    let last = bytes.len() - 1;
    bytes[last] ^= 0x01;
    let decoded = DefinitionPackage::from_bytes(&bytes).expect("embedded packages skip the digest");
    assert_eq!(decoded, package);
}
