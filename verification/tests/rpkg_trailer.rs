use dhara_storage::container::{CompressionKind, EncodeError};
use dhara_storage::rpkg_trailer::{
    decode, encode, PackageMetadata, PackagePurpose, RpkgDecodeError, RpkgEncodeOptions,
    SerializationKind, VerificationMode,
};

fn sample_options() -> RpkgEncodeOptions {
    RpkgEncodeOptions {
        package_id: *b"TEST",
        serialization: SerializationKind::MessagePack,
        compression: CompressionKind::Lz4Frame,
        purpose: PackagePurpose::External,
        metadata: PackageMetadata::new("1.0.0".to_string(), "source-1".to_string(), 1),
    }
}

#[test]
fn external_trailer_package_verifies_checksum_by_default() {
    let bytes = encode(b"payload", &sample_options()).expect("package should encode");
    let decoded = decode(&bytes, VerificationMode::Default).expect("package should decode");

    assert_eq!(decoded.package_id, *b"TEST");
    assert_eq!(decoded.payload, b"payload");

    let mut corrupted = bytes.clone();
    corrupted[8] ^= 0x01;
    assert!(matches!(
        decode(&corrupted, VerificationMode::Default),
        Err(RpkgDecodeError::ChecksumMismatch)
    ));
}

#[test]
fn embedded_trailer_package_skips_checksum_by_default() {
    let mut options = sample_options();
    options.purpose = PackagePurpose::Embedded;
    let mut bytes = encode(b"payload", &options).expect("package should encode");
    let index = 8;
    bytes[index] ^= 0x01;

    let decoded = decode(&bytes, VerificationMode::Default).expect("package should decode");
    assert_eq!(decoded.purpose, PackagePurpose::Embedded);

    let error = decode(&bytes, VerificationMode::Always).expect_err("checksum should fail");
    assert!(matches!(error, RpkgDecodeError::ChecksumMismatch));
}

#[test]
fn rejects_non_rpkg_bytes() {
    let error =
        decode(b"not-rpkg", VerificationMode::Default).expect_err("non-RPKG bytes should fail");
    assert!(matches!(error, RpkgDecodeError::UnsupportedFormat));
}

#[test]
fn truncated_header_is_reported() {
    let error = decode(b"RPKG\x02", VerificationMode::Default).expect_err("short input should fail");
    assert!(matches!(error, RpkgDecodeError::TruncatedHeader));
}

#[test]
fn trailer_metadata_reads_back_with_its_checksum() {
    let mut options = sample_options();
    options.compression = CompressionKind::Uncompressed;
    let bytes = encode(b"payload", &options).expect("package should encode");
    let decoded = decode(&bytes, VerificationMode::Always).expect("package should decode");
    assert_eq!(decoded.payload, b"payload");
    assert_eq!(decoded.metadata.package_version, "1.0.0");
    assert_eq!(decoded.metadata.source_version, "source-1");
    assert_eq!(decoded.metadata.package_revision, 1);
    assert_ne!(decoded.metadata.checksum_sha256, [0u8; 32]);
    assert_eq!(decoded.package_id_string(), "TEST");
    assert_eq!(decoded.compression, CompressionKind::Uncompressed);

    let skipped = decode(&bytes, VerificationMode::Skip).expect("package should decode");
    assert_eq!(skipped.payload, b"payload");
}

#[test]
fn cycling_trailer_length_is_refused() {
    // For this payload the trailer length never settles: each checksum changes the
    // announced length, and the lengths cycle.
    let error = encode(b"hello", &sample_options()).expect_err("the length cycles");
    assert!(matches!(error, EncodeError::UnsettledMetadata));
}
