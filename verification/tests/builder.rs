use std::path::PathBuf;

use dhara_storage::builder::{
    inspect_package, load_package, normalize_package, packages_match, sync_embedded_package,
    write_package, write_package_with_purpose, EmbeddedState, PackageSummary, SyncEmbeddedStatus,
};
use dhara_storage::container::{CompressionKind, IntegrityKind, PackagePurpose};
use dhara_storage::definitions::{
    DefinitionPackage, DefinitionRecord, SignatureDefinition, SignaturePattern,
};

fn record(file_type: &str, ext: &str, mime: &str, pattern: &[u8], priority: i32) -> DefinitionRecord {
    DefinitionRecord {
        file_type: file_type.to_string(),
        extensions: vec![ext.to_string()],
        mime_type: mime.to_string(),
        remarks: String::new(),
        signature: SignatureDefinition {
            patterns: vec![SignaturePattern {
                position: 0,
                data: pattern.to_vec(),
            }],
            strings: vec![b"IHDR".to_vec()],
        },
        priority_level: priority,
    }
}

fn built_package() -> DefinitionPackage {
    DefinitionPackage {
        package_version: "trid-2.00+rpkg.1".to_string(),
        source_version: "2.00".to_string(),
        package_revision: 1,
        tags: 48,
        definitions: vec![
            record("Portable Network Graphics", "png", "image/png", &[0x89, b'P', b'N', b'G'], 584),
            record("Adobe Portable Document Format", "pdf", "application/pdf", b"%PDF", 339),
            record("Zyzzyva Search", "zzs", "application/x-zyzzyva", b"ZZS", 39),
        ],
    }
}

#[test]
fn normalize_roundtrip_preserves_semantics() {
    let original = write_package(&built_package()).expect("original package should be written");
    let normalized = normalize_package(&original).expect("normalized package should be written");

    assert!(packages_match(&original, &normalized).expect("packages should compare"));
}

#[test]
fn builder_writes_full_package_readable_by_runtime() {
    let package = built_package();
    let bytes = write_package(&package).expect("package should be written");
    let loaded = load_package(&bytes).expect("package should load");

    assert_eq!(loaded.package, package);
    assert_eq!(loaded.purpose, PackagePurpose::Standard);
    assert_eq!(loaded.compression, CompressionKind::Lz4Frame);
    assert_eq!(loaded.integrity, IntegrityKind::Sha256);
    assert!(loaded.checksum_verified);
}

#[test]
fn builder_writes_fast_embedded_packages() {
    let package = built_package();
    let bytes = write_package_with_purpose(&package, PackagePurpose::Embedded)
        .expect("embedded package should be written");
    let loaded = load_package(&bytes).expect("package should load");
    assert_eq!(loaded.package, package);
    assert_eq!(loaded.purpose, PackagePurpose::Embedded);
}

#[test]
fn inspect_package_reports_v2_metadata() {
    let bytes = write_package(&built_package()).expect("package should be written");

    let summary = inspect_package(&bytes).expect("summary should load");
    assert_eq!(
        summary,
        PackageSummary {
            package_id: "FDEF".to_string(),
            purpose: PackagePurpose::Standard,
            compression: CompressionKind::Lz4Frame,
            integrity: IntegrityKind::Sha256,
            package_version: "trid-2.00+rpkg.1".to_string(),
            source_version: "2.00".to_string(),
            package_revision: 1,
            checksum_verified: true,
            tags: 48,
            definition_count: 3,
        }
    );
}

#[test]
fn sync_embedded_skips_when_archive_is_missing() {
    let outcome = sync_embedded_package(
        PathBuf::from("missing.7z"),
        PathBuf::from("filedefs.rpkg"),
        None,
        &EmbeddedState::Missing,
        false,
    );

    assert_eq!(outcome.status, SyncEmbeddedStatus::Skipped);
}

#[test]
fn sync_embedded_reports_and_updates_stale_packages() {
    let desired = built_package();
    let mut stale = built_package();
    stale.package_revision = 0;
    let stale_bytes = write_package_with_purpose(&stale, PackagePurpose::Embedded).unwrap();

    let check = sync_embedded_package(
        PathBuf::from("triddefs_xml.7z"),
        PathBuf::from("filedefs.rpkg"),
        Some(&desired),
        &EmbeddedState::Present { bytes: stale_bytes.clone() },
        true,
    );
    assert_eq!(check.status, SyncEmbeddedStatus::NeedsUpdate);
    assert_eq!(check.detail, "package revision mismatch: current='0', desired='1'");

    let current_bytes = write_package_with_purpose(&desired, PackagePurpose::Embedded).unwrap();
    let current = sync_embedded_package(
        PathBuf::from("triddefs_xml.7z"),
        PathBuf::from("filedefs.rpkg"),
        Some(&desired),
        &EmbeddedState::Present { bytes: current_bytes },
        false,
    );
    assert_eq!(current.status, SyncEmbeddedStatus::UpToDate);
    assert_eq!(current.package_version.as_deref(), Some("trid-2.00+rpkg.1"));
}
