use dhara_storage::container::{compute_integrity_digest, find_section, read_section_bytes};
use dhara_storage::dhbin::DHBIN_MAGIC;
use dhara_storage::dhbin::{
    CompressionKind, IntegrityKind, PackageHeader, PackagePurpose, DhbinDecodeError, DhbinReadOptions,
    DhbinReader, DhbinWriteOptions, DhbinWriter, SectionKind, METADATA_FORMAT_MESSAGEPACK,
};

fn write<T: serde::Serialize>(value: &T, options: &DhbinWriteOptions) -> Vec<u8> {
    let payload = rmp_serde::to_vec(value).expect("payload should serialize");
    DhbinWriter::write_payload_bytes(&payload, options).expect("package should encode")
}

#[test]
fn dhbin_fast_profile_roundtrips_payload_without_metadata() {
    let bytes = write(
        &vec!["alpha".to_string(), "beta".to_string()],
        &DhbinWriteOptions {
            package_id: *b"CONF",
            purpose: PackagePurpose::FastPayload,
            compression: CompressionKind::Lz4Frame,
            flags: 0,
            metadata: Some(rmp_serde::to_vec(&vec!["ignored"]).unwrap()),
            integrity: IntegrityKind::Sha256,
        },
    );

    let raw = DhbinReader::read_payload_bytes(&bytes).expect("payload should decode");
    let payload: Vec<String> = rmp_serde::from_slice(&raw).expect("payload should decode");
    assert_eq!(payload, vec!["alpha", "beta"]);

    let package = DhbinReader::read_package_default(&bytes).expect("package should load");
    assert!(package.metadata.is_none());
    assert!(!package.integrity_verified);
}

#[test]
fn dhbin_full_profile_roundtrips_with_metadata_and_checksum() {
    let metadata = rmp_serde::to_vec(&vec![1u8, 2, 3]).unwrap();
    let bytes = write(
        &vec!["alpha".to_string()],
        &DhbinWriteOptions {
            package_id: *b"CONF",
            purpose: PackagePurpose::Standard,
            compression: CompressionKind::Lz4Frame,
            flags: 7,
            metadata: Some(metadata.clone()),
            integrity: IntegrityKind::Sha256,
        },
    );

    let package = DhbinReader::read_package_default(&bytes).expect("package should load");
    assert_eq!(package.header.package_id, *b"CONF");
    assert_eq!(package.metadata, Some(metadata));
    assert!(package.integrity_verified);
}

#[test]
fn dhbin_checksum_mismatch_is_reported_for_full_profile() {
    let mut bytes = write(
        &vec!["alpha".to_string()],
        &DhbinWriteOptions {
            package_id: *b"CONF",
            purpose: PackagePurpose::Standard,
            compression: CompressionKind::Uncompressed,
            flags: 0,
            metadata: None,
            integrity: IntegrityKind::Sha256,
        },
    );

    let last = bytes.len() - 1;
    bytes[last] ^= 0x01;
    let error = DhbinReader::read_package_default(&bytes).expect_err("checksum should fail");
    assert!(matches!(error, DhbinDecodeError::ChecksumMismatch));
}

#[test]
fn dhbin_metadata_section_is_optional() {
    let bytes = write(
        &42u32,
        &DhbinWriteOptions {
            package_id: *b"CONF",
            purpose: PackagePurpose::Standard,
            compression: CompressionKind::Uncompressed,
            flags: 0,
            metadata: None,
            integrity: IntegrityKind::NoIntegrity,
        },
    );

    let package = DhbinReader::read_package_default(&bytes).expect("package should load");
    assert_eq!(package.metadata, None);
    let decoded = DhbinReader::read_package(
        &bytes,
        &DhbinReadOptions {
            verify_integrity: false,
            load_metadata: true,
        },
    )
    .expect("payload should decode");
    let payload: u32 = rmp_serde::from_slice(&decoded.payload).expect("payload should decode");
    assert_eq!(payload, 42);
}

#[test]
fn dhbin_header_and_section_table_can_be_read_separately() {
    let metadata = rmp_serde::to_vec(&"meta").unwrap();
    let bytes = write(
        &"payload",
        &DhbinWriteOptions {
            package_id: *b"FDEF",
            purpose: PackagePurpose::Embedded,
            compression: CompressionKind::Uncompressed,
            flags: 5,
            metadata: Some(metadata),
            integrity: IntegrityKind::Sha256,
        },
    );

    let header = DhbinReader::read_header(&bytes).expect("header should load");
    assert_eq!(
        header,
        PackageHeader {
            wire_version: 2,
            package_id: *b"FDEF",
            purpose: PackagePurpose::Embedded,
            compression: CompressionKind::Uncompressed,
            flags: 5,
            section_count: 3,
            section_table_offset: 28,
            section_table_len: 72,
        }
    );

    let sections = DhbinReader::read_sections(&bytes, &header).expect("sections should load");
    assert_eq!(sections[0].kind, SectionKind::Payload);
    assert_eq!(sections[1].kind, SectionKind::Metadata);
    assert_eq!(sections[1].format, METADATA_FORMAT_MESSAGEPACK);
    assert_eq!(sections[2].kind, SectionKind::Integrity);
}

#[test]
fn dhbin_integrity_section_holds_the_recomputed_digest() {
    let bytes = write(
        &vec!["alpha"],
        &DhbinWriteOptions {
            package_id: *b"DIGS",
            purpose: PackagePurpose::Standard,
            compression: CompressionKind::Uncompressed,
            flags: 0,
            metadata: None,
            integrity: IntegrityKind::Sha256,
        },
    );
    let header = DhbinReader::read_header(&bytes).expect("header should parse");
    let sections = DhbinReader::read_sections(&bytes, &header).expect("sections should parse");
    let payload = find_section(&sections, SectionKind::Payload).expect("payload section");
    let integrity = find_section(&sections, SectionKind::Integrity).expect("integrity section");
    let payload_bytes = read_section_bytes(&bytes, &payload).expect("payload bytes");
    let digest = compute_integrity_digest(DHBIN_MAGIC, &header, &sections, payload_bytes);
    assert_eq!(digest.len(), 32);
    assert_eq!(read_section_bytes(&bytes, &integrity).expect("digest bytes"), digest.as_slice());
    let mut tampered = payload_bytes.to_vec();
    tampered[0] ^= 1;
    assert_ne!(compute_integrity_digest(DHBIN_MAGIC, &header, &sections, &tampered), digest);
}

#[test]
fn dhbin_payload_read_ignores_altered_integrity_bytes() {
    let mut bytes = write(
        &vec!["alpha", "beta"],
        &DhbinWriteOptions {
            package_id: *b"ALTR",
            purpose: PackagePurpose::Standard,
            compression: CompressionKind::Lz4Frame,
            flags: 0,
            metadata: Some(vec![0x90]),
            integrity: IntegrityKind::Sha256,
        },
    );
    let last = bytes.len() - 1;
    bytes[last] ^= 0xFF;
    let raw = DhbinReader::read_payload_bytes(&bytes).expect("payload should still decode");
    let payload: Vec<String> = rmp_serde::from_slice(&raw).expect("payload should decode");
    assert_eq!(payload, vec!["alpha", "beta"]);
    assert!(DhbinReader::read_package_default(&bytes).is_err());
}
