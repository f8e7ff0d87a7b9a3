use dhara_storage::rpkg::{
    CompressionKind, IntegrityKind, PackageHeader, PackagePurpose, RpkgDecodeError, RpkgReadOptions,
    RpkgReader, RpkgWriteOptions, RpkgWriter, SectionKind, METADATA_FORMAT_MESSAGEPACK,
};

fn write<T: serde::Serialize>(value: &T, options: &RpkgWriteOptions) -> Vec<u8> {
    let payload = rmp_serde::to_vec(value).expect("payload should serialize");
    RpkgWriter::write_payload_bytes(&payload, options).expect("package should encode")
}

#[test]
fn lib_fast_profile_roundtrips_payload_without_metadata() {
    let bytes = write(
        &vec!["alpha".to_string(), "beta".to_string()],
        &RpkgWriteOptions {
            package_id: *b"CONF",
            purpose: PackagePurpose::FastPayload,
            compression: CompressionKind::Lz4Frame,
            flags: 0,
            metadata: Some(rmp_serde::to_vec(&vec!["ignored"]).unwrap()),
            integrity: IntegrityKind::Sha256,
        },
    );

    let raw = RpkgReader::read_payload_bytes(&bytes).expect("payload should decode");
    let payload: Vec<String> = rmp_serde::from_slice(&raw).expect("payload should decode");
    assert_eq!(payload, vec!["alpha", "beta"]);

    let package = RpkgReader::read_package_default(&bytes).expect("package should load");
    assert!(package.metadata.is_none());
    assert!(!package.integrity_verified);
}

#[test]
fn lib_full_profile_roundtrips_with_metadata_and_checksum() {
    let metadata = rmp_serde::to_vec(&vec![1u8, 2, 3]).unwrap();
    let bytes = write(
        &vec!["alpha".to_string()],
        &RpkgWriteOptions {
            package_id: *b"CONF",
            purpose: PackagePurpose::Standard,
            compression: CompressionKind::Lz4Frame,
            flags: 7,
            metadata: Some(metadata.clone()),
            integrity: IntegrityKind::Sha256,
        },
    );

    let package = RpkgReader::read_package_default(&bytes).expect("package should load");
    assert_eq!(package.header.package_id, *b"CONF");
    assert_eq!(package.metadata, Some(metadata));
    assert!(package.integrity_verified);
}

#[test]
fn lib_checksum_mismatch_is_reported_for_full_profile() {
    let mut bytes = write(
        &vec!["alpha".to_string()],
        &RpkgWriteOptions {
            package_id: *b"CONF",
            purpose: PackagePurpose::Standard,
            compression: CompressionKind::Uncompressed,
            flags: 0,
            metadata: None,
            integrity: IntegrityKind::Sha256,
        },
    );

    let last = bytes.len() - 1;
    bytes[last] ^= 0x01;
    let error = RpkgReader::read_package_default(&bytes).expect_err("checksum should fail");
    assert!(matches!(error, RpkgDecodeError::ChecksumMismatch));
}

#[test]
fn lib_metadata_section_is_optional() {
    let bytes = write(
        &42u32,
        &RpkgWriteOptions {
            package_id: *b"CONF",
            purpose: PackagePurpose::Standard,
            compression: CompressionKind::Uncompressed,
            flags: 0,
            metadata: None,
            integrity: IntegrityKind::NoIntegrity,
        },
    );

    let package = RpkgReader::read_package_default(&bytes).expect("package should load");
    assert_eq!(package.metadata, None);
    let decoded = RpkgReader::read_package(
        &bytes,
        &RpkgReadOptions {
            verify_integrity: false,
            load_metadata: true,
        },
    )
    .expect("payload should decode");
    let payload: u32 = rmp_serde::from_slice(&decoded.payload).expect("payload should decode");
    assert_eq!(payload, 42);
}

#[test]
fn lib_header_and_section_table_can_be_read_separately() {
    let metadata = rmp_serde::to_vec(&"meta").unwrap();
    let bytes = write(
        &"payload",
        &RpkgWriteOptions {
            package_id: *b"FDEF",
            purpose: PackagePurpose::Embedded,
            compression: CompressionKind::Uncompressed,
            flags: 5,
            metadata: Some(metadata),
            integrity: IntegrityKind::Sha256,
        },
    );

    let header = RpkgReader::read_header(&bytes).expect("header should load");
    assert_eq!(
        header,
        PackageHeader {
            wire_version: 2,
            package_id: *b"FDEF",
            purpose: PackagePurpose::Embedded,
            compression: CompressionKind::Uncompressed,
            flags: 5,
            section_count: 3,
            section_table_offset: 28,
            section_table_len: 72,
        }
    );

    let sections = RpkgReader::read_sections(&bytes, &header).expect("sections should load");
    assert_eq!(sections[0].kind, SectionKind::Payload);
    assert_eq!(sections[1].kind, SectionKind::Metadata);
    assert_eq!(sections[1].format, METADATA_FORMAT_MESSAGEPACK);
    assert_eq!(sections[2].kind, SectionKind::Integrity);
}

#[test]
fn section_table_reports_the_first_unknown_kind_and_malformed_tables() {
    let metadata = rmp_serde::to_vec(&"meta").unwrap();
    let mut bytes = write(
        &"payload",
        &RpkgWriteOptions {
            package_id: *b"FDEF",
            purpose: PackagePurpose::Embedded,
            compression: CompressionKind::Uncompressed,
            flags: 0,
            metadata: Some(metadata),
            integrity: IntegrityKind::Sha256,
        },
    );
    let header = RpkgReader::read_header(&bytes).expect("header should load");

    let mut short_table = header;
    short_table.section_table_len = 48;
    assert!(matches!(
        RpkgReader::read_sections(&bytes, &short_table),
        Err(RpkgDecodeError::InvalidSectionTable)
    ));
    let mut inside_header = header;
    inside_header.section_table_offset = 20;
    assert!(matches!(
        RpkgReader::read_sections(&bytes, &inside_header),
        Err(RpkgDecodeError::InvalidSectionTable)
    ));

    bytes[28 + 24] = 9;
    bytes[28 + 48] = 7;
    assert!(matches!(
        RpkgReader::read_sections(&bytes, &header),
        Err(RpkgDecodeError::UnsupportedSectionKind(9))
    ));
}
