use dhara_storage::analysis::{
    analyze_scanned, detect_content_kind, normalized_extension, try_detect_bom, ContentKind,
};
use dhara_storage::builder::{inspect_package, load_package, packages_match, write_package};
use dhara_storage::container::PackagePurpose;
use dhara_storage::database::DefinitionDatabase;
use dhara_storage::definitions::{
    DefinitionPackage, DefinitionRecord, SignatureDefinition, SignaturePattern,
};
use dhara_storage::info::{
    auto_size_unit, directory_type_name, display_name, file_type_name, format_size, SizeUnit,
};
use dhara_storage::mime::levenshtein_distance;
use dhara_storage::shell::{BuilderAction, FormState, MenuAction, BuilderPaths};
use dhara_storage::storage::{
    file_name, DirectoryStorage, FileStorage, PathKind, StorageEntry,
};
use dhara_storage::trid::{build_trid_xml_package, calculate_priority, ParsedTridDefinition, TridPattern, TridSignature};

fn record(file_type: &str, ext: &str, mime: &str, pattern: &[u8], priority: i32) -> DefinitionRecord {
    DefinitionRecord {
        file_type: file_type.to_string(),
        extensions: vec![ext.to_string()],
        mime_type: mime.to_string(),
        remarks: String::new(),
        signature: SignatureDefinition {
            patterns: vec![SignaturePattern {
                position: 0,
                data: pattern.to_vec(),
            }],
            strings: Vec::new(),
        },
        priority_level: priority,
    }
}

fn sample_package() -> DefinitionPackage {
    DefinitionPackage {
        package_version: "trid-2.00+rpkg.1".to_string(),
        source_version: "2.00".to_string(),
        package_revision: 1,
        tags: 48,
        definitions: vec![
            record("Portable Network Graphics", "png", "image/png", &[0x89, b'P', b'N', b'G'], 560),
            record("Portable Document Format", "pdf", "application/pdf", b"%PDF", 300),
            record("ZIP archive", "zip", "application/zip", b"PK\x03\x04", 200),
        ],
    }
}

#[test]
fn format_size_agrees_with_two_decimal_float_formatting() {
    let sizes: [u64; 12] = [
        0, 1, 1023, 1024, 1536, 1_048_575, 1_048_576, 5_000_000, 1_073_741_824, 3_221_225_472,
        1_099_511_627_776, 1_234_567_890_123,
    ];
    for size in sizes {
        let unit = auto_size_unit(size);
        let expected = match unit {
            SizeUnit::Bytes => format!("{} B", size),
            SizeUnit::KiB => format!("{:.2} KiB", size as f64 / 1024.0),
            SizeUnit::MiB => format!("{:.2} MiB", size as f64 / 1_048_576.0),
            SizeUnit::GiB => format!("{:.2} GiB", size as f64 / 1_073_741_824.0),
            SizeUnit::TiB => format!("{:.2} TiB", size as f64 / 1_099_511_627_776.0),
        };
        assert_eq!(format_size(size, None), expected, "size {}", size);
    }
}

#[test]
fn format_size_in_requested_unit() {
    assert_eq!(format_size(1536, Some(SizeUnit::KiB)), "1.50 KiB");
    assert_eq!(format_size(1536, Some(SizeUnit::Bytes)), "1536 B");
    assert_eq!(format_size(0, Some(SizeUnit::MiB)), "0.00 MiB");
    assert_eq!(format_size(2560, None), "2.50 KiB");
}

#[test]
fn file_names_follow_path_components() {
    assert_eq!(file_name("/tmp/notes/entry.txt"), Some("entry.txt".to_string()));
    assert_eq!(file_name("/tmp/notes/"), Some("notes".to_string()));
    assert_eq!(file_name("C:\\data\\report.pdf"), Some("report.pdf".to_string()));
    assert_eq!(file_name("/tmp/notes/."), Some("notes".to_string()));
    assert_eq!(file_name("/tmp/.."), None);
    assert_eq!(file_name("/"), None);
    assert_eq!(file_name(""), None);
}

#[test]
fn storage_handles_resolve_by_kind() {
    let file = FileStorage::from_existing("/tmp/a/b.txt".to_string(), PathKind::File).unwrap();
    assert_eq!(file.path(), "/tmp/a/b.txt");
    assert_eq!(file.name(), Some("b.txt".to_string()));
    assert!(FileStorage::from_existing("/tmp/a".to_string(), PathKind::Directory).is_err());
    assert!(matches!(
        FileStorage::from_existing("/tmp/x".to_string(), PathKind::Missing),
        Err(dhara_storage::error::StorageError::NotFound { .. })
    ));
    let dir = DirectoryStorage::new("/tmp/a".to_string());
    assert_eq!(dir.name(), Some("a".to_string()));
    assert!(matches!(
        DirectoryStorage::from_existing("/tmp/a/b.txt".to_string(), PathKind::File),
        Err(dhara_storage::error::StorageError::NotADirectory { .. })
    ));
    let entry = StorageEntry::from_existing("/tmp/a".to_string(), PathKind::Directory).unwrap();
    assert!(matches!(entry, StorageEntry::Directory(_)));
    assert_eq!(entry.path(), "/tmp/a");
    assert!(matches!(
        StorageEntry::from_existing("/dev/null".to_string(), PathKind::Other),
        Err(dhara_storage::error::StorageError::PathConflict { .. })
    ));
}

#[test]
fn png_header_ranks_png_first() {
    let package = sample_package();
    let db = DefinitionDatabase::from_package(&package);
    let header = vec![0x89, b'P', b'N', b'G', 0x0D, 0x0A, 0x1A, 0x0A, 0, 0];
    let candidates = db.candidate_indices(&header);
    assert!(!candidates.is_empty());
    assert!(candidates.iter().any(|&i| db.definition(i).extensions.iter().any(|e| e == "png")));

    let analysis = analyze_scanned(&db, 10, header, None, Some("png".to_string()));
    assert_eq!(analysis.matches[0].mime_type, "image/png");
    assert_eq!(analysis.top_mime_type.as_deref(), Some("image/png"));
    assert_eq!(analysis.top_detected_extension.as_deref(), Some("png"));
    assert_eq!(analysis.bytes_scanned, 8);
    assert_eq!(analysis.content_kind, ContentKind::Binary);
}

#[test]
fn plain_text_falls_back_to_text_match() {
    let package = sample_package();
    let db = DefinitionDatabase::from_package(&package);
    let text = b"Hello from Dhara.Storage in Rust.\n".to_vec();
    let analysis = analyze_scanned(&db, text.len() as u64, text, None, Some("txt".to_string()));
    assert_eq!(analysis.matches.len(), 1);
    assert_eq!(analysis.matches[0].mime_type, "text/plain");
    assert_eq!(analysis.content_kind, ContentKind::Text);
}

#[test]
fn empty_file_reports_unknown() {
    let db = DefinitionDatabase::from_package(&sample_package());
    let analysis = analyze_scanned(&db, 0, Vec::new(), None, None);
    assert!(analysis.matches.is_empty());
    assert_eq!(analysis.content_kind, ContentKind::Unknown);
    assert_eq!(analysis.top_mime_type, None);
}

#[test]
fn content_heuristics() {
    assert_eq!(try_detect_bom(&[0xEF, 0xBB, 0xBF, b'a']), Some("utf-8"));
    assert_eq!(try_detect_bom(&[0xFF, 0xFE, 0x00, 0x00]), Some("utf-32le"));
    assert_eq!(detect_content_kind(b"plain words\n"), ContentKind::Text);
    assert_eq!(detect_content_kind(&[0, 1, 2, 3, 0xff, 0xfe, 0x00, 0x10]), ContentKind::Binary);
    assert_eq!(detect_content_kind(&[]), ContentKind::Unknown);
    assert_eq!(normalized_extension(".PNG"), Some("png".to_string()));
    assert_eq!(normalized_extension("  "), None);
}

#[test]
fn written_package_loads_back() {
    let package = sample_package();
    let bytes = write_package(&package).expect("package should be written");
    let loaded = load_package(&bytes).expect("package should load");
    assert_eq!(loaded.package, package);
    assert_eq!(loaded.purpose, PackagePurpose::Standard);
    assert!(loaded.checksum_verified);
    assert!(packages_match(&bytes, &bytes).unwrap());

    let summary = inspect_package(&bytes).expect("summary should load");
    assert_eq!(summary.package_id, "FDEF");
    assert_eq!(summary.package_version, "trid-2.00+rpkg.1");
    assert_eq!(summary.source_version, "2.00");
    assert_eq!(summary.tags, 48);
    assert_eq!(summary.definition_count, 3);
}

#[test]
fn corrupted_package_is_refused() {
    let mut bytes = write_package(&sample_package()).unwrap();
    let last = bytes.len() - 1;
    bytes[last] ^= 0x01;
    assert!(load_package(&bytes).is_err());
    assert!(load_package(b"not a package").is_err());
}

#[test]
fn edit_distance_counts_single_edits() {
    assert_eq!(levenshtein_distance("kitten", "sitting"), 3);
    assert_eq!(levenshtein_distance("", "abc"), 3);
    assert_eq!(levenshtein_distance("pdf", "pdf"), 0);
}

#[test]
fn trid_priority_and_package_order() {
    assert_eq!(calculate_priority(500, 2, 1), 500 + 20 + 4 + 25);
    assert_eq!(calculate_priority(7, 0, 3), 7 + 12);
    let def = |name: &str, count: u32| ParsedTridDefinition {
        file_type: name.to_string(),
        extensions: vec!["bin".to_string()],
        mime_type: "application/octet-stream".to_string(),
        remarks: String::new(),
        signature: TridSignature {
            patterns: vec![TridPattern { position: 0, data: vec![1, 2] }],
            strings: Vec::new(),
        },
        file_count: count,
    };
    let package = build_trid_xml_package(vec![def("Low", 1), def("High", 900), def("Mid", 50)]);
    assert_eq!(package.tags, 48);
    let names: Vec<&str> = package.definitions.iter().map(|d| d.file_type.as_str()).collect();
    assert_eq!(names.len(), 3);
    assert!(package.definitions.windows(2).all(|w| w[0].priority_level >= w[1].priority_level));
}

#[test]
fn form_refuses_blank_required_field() {
    let paths = BuilderPaths {
        package_dir: "package".to_string(),
        output_dir: "output".to_string(),
        logs_dir: "logs".to_string(),
    };
    let mut form = FormState::new(MenuAction::Verify, &paths);
    assert_eq!(form.to_action(), Err("Right is required.".to_string()));
    form.fields[1].value = "  other.rpkg ".to_string();
    assert_eq!(
        form.to_action(),
        Ok(BuilderAction::Verify {
            left: "output\\filedefs.rpkg".to_string(),
            right: "other.rpkg".to_string(),
        })
    );
    let exit = FormState::new(MenuAction::Exit, &paths);
    assert_eq!(exit.to_action(), Err("This menu item does not launch a command.".to_string()));
}

#[test]
fn display_and_type_names() {
    assert_eq!(display_name("report.final.pdf"), "report.final");
    assert_eq!(display_name(".bashrc"), ".bashrc");
    assert_eq!(display_name("notes"), "notes");
    assert_eq!(display_name("a."), "a");
    assert_eq!(file_type_name(Some("Portable Network Graphics"), Some("PNG File"), Some("png")), "Portable Network Graphics");
    assert_eq!(file_type_name(Some(""), Some("Text Document"), Some("txt")), "Text Document");
    assert_eq!(file_type_name(None, None, Some("txt")), "TXT File");
    assert_eq!(file_type_name(None, Some(""), None), "File");
    assert_eq!(directory_type_name(None), "Directory");
    assert_eq!(directory_type_name(Some("File folder")), "File folder");
}
