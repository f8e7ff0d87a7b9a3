use dhara_storage::error::StorageError;
use dhara_storage::storage::{DirectoryStorage, FileStorage, PathKind, StorageEntry};
use dhara_storage::info::{bgra_to_rgba, filename_extension, DirectorySummary};
use dhara_storage::shell::{first_matching_file, resolve_default_trid_source};
use dhara_storage::shell_app::{tail_log_lines, ResultScreen, Screen};
use dhara_storage::storage::{
    destination_start, directory_transfer_start, extension, has_extension, validate_single_path_name, TransferStart,
};
use dhara_storage::trid::{is_7z_file, is_xml_file};

fn ext(name: &str) -> Option<String> {
    let chars: Vec<char> = name.chars().collect();
    extension(&chars).map(|e| e.into_iter().collect())
}

#[test]
fn extensions_follow_path_rules() {
    assert_eq!(ext("a.xml"), Some("xml".to_string()));
    assert_eq!(ext("a.b.7z"), Some("7z".to_string()));
    assert_eq!(ext("a."), Some(String::new()));
    assert_eq!(ext(".xml"), None);
    assert_eq!(ext("plain"), None);
    assert_eq!(ext(".."), None);
    assert_eq!(ext("..."), Some(String::new()));
    assert_eq!(ext(".a.b"), Some("b".to_string()));
}

#[test]
fn xml_and_archive_files_are_recognised_without_case() {
    assert!(is_xml_file("defs/TRID.XML"));
    assert!(is_xml_file("defs/a.xml/"));
    assert!(!is_xml_file("defs/.xml"));
    assert!(!is_xml_file("defs/a.xml.bak"));
    assert!(is_7z_file("package\\triddefs_xml.7Z"));
    assert!(!is_7z_file("package/triddefs_xml"));
    assert!(has_extension("a/b.TxT", "txt"));
    assert!(!has_extension("a/..", ""));
}

#[test]
fn first_matching_file_takes_the_least_matching_path() {
    let paths = vec![
        "pkg/zeta.xml".to_string(),
        "pkg/readme.txt".to_string(),
        "pkg/Alpha.XML".to_string(),
        "pkg/beta.xml".to_string(),
    ];
    assert_eq!(first_matching_file(&paths, "xml"), Some("pkg/Alpha.XML".to_string()));
    assert_eq!(first_matching_file(&paths, "txt"), Some("pkg/readme.txt".to_string()));
    assert_eq!(first_matching_file(&paths, "7z"), None);
    assert_eq!(first_matching_file(&[], "xml"), None);
}

#[test]
fn log_tail_keeps_the_last_lines() {
    assert_eq!(tail_log_lines("a\r\nb\nc\n", 2), vec!["b".to_string(), "c".to_string()]);
    assert_eq!(tail_log_lines("a\nb", 5), vec!["a".to_string(), "b".to_string()]);
    assert_eq!(tail_log_lines("a\r", 5), vec!["a\r".to_string()]);
    assert_eq!(tail_log_lines("", 5), Vec::<String>::new());
    assert_eq!(tail_log_lines("\n\n", 5), vec![String::new(), String::new()]);
    assert_eq!(tail_log_lines("a\nb\nc", 0), Vec::<String>::new());
}

#[test]
fn screens_name_their_mode() {
    assert_eq!(Screen::Menu.mode_name(), "Shell");
    let result = ResultScreen::from_error("boom".to_string());
    assert_eq!(
        result.lines(),
        vec![
            String::new(),
            "boom".to_string(),
            String::new(),
            "Press Enter to return to the main menu.".to_string(),
        ]
    );
    assert_eq!(Screen::Result(result).mode_name(), "Results");
}

#[test]
fn directory_summaries_add_up() {
    let mut total = DirectorySummary { total_size: 10, file_count: 1, directory_count: 0 };
    total.add_assign(DirectorySummary { total_size: 5, file_count: 2, directory_count: 1 });
    assert_eq!(total, DirectorySummary { total_size: 15, file_count: 3, directory_count: 1 });
}

#[test]
fn default_trid_source_prefers_archive_then_folder_then_first_files() {
    let archive = Some("pkg\\a.7z".to_string());
    let xml = Some("pkg\\a.xml".to_string());
    assert_eq!(
        resolve_default_trid_source("pkg", true, true, archive.clone(), xml.clone()),
        "pkg\\triddefs_xml.7z"
    );
    assert_eq!(
        resolve_default_trid_source("pkg/", false, true, archive.clone(), xml.clone()),
        "pkg/triddefs_xml"
    );
    assert_eq!(resolve_default_trid_source("pkg", false, false, archive, xml.clone()), "pkg\\a.7z");
    assert_eq!(resolve_default_trid_source("pkg", false, false, None, xml), "pkg\\a.xml");
    assert_eq!(resolve_default_trid_source("pkg", false, false, None, None), "pkg");
}

#[test]
fn directory_summary_formats_its_size() {
    let summary = DirectorySummary { total_size: 1536, file_count: 2, directory_count: 0 };
    assert_eq!(summary.formatted_size(), "1.50 KiB");
}

#[test]
fn file_information_normalizes_the_name_extension() {
    assert_eq!(filename_extension("Report.PDF"), Some("pdf".to_string()));
    assert_eq!(filename_extension("archive.tar.GZ"), Some("gz".to_string()));
    assert_eq!(filename_extension("notes. txt "), Some("txt".to_string()));
    assert_eq!(filename_extension("trailing."), None);
    assert_eq!(filename_extension(".bashrc"), None);
    assert_eq!(filename_extension("README"), None);
}

#[test]
fn refused_handles_report_the_given_path() {
    match FileStorage::from_existing("/data/a".to_string(), PathKind::Missing) {
        Err(StorageError::NotFound { path }) => assert_eq!(path, "/data/a"),
        other => panic!("unexpected {:?}", other),
    }
    match FileStorage::from_existing("/data".to_string(), PathKind::Directory) {
        Err(StorageError::NotAFile { path }) => assert_eq!(path, "/data"),
        other => panic!("unexpected {:?}", other),
    }
    match DirectoryStorage::from_existing("/data/a.txt".to_string(), PathKind::File) {
        Err(StorageError::NotADirectory { path }) => assert_eq!(path, "/data/a.txt"),
        other => panic!("unexpected {:?}", other),
    }
    match StorageEntry::from_existing("/dev/null".to_string(), PathKind::Other) {
        Err(StorageError::PathConflict { path, .. }) => assert_eq!(path, "/dev/null"),
        other => panic!("unexpected {:?}", other),
    }
}

#[test]
fn icon_pixels_swap_to_rgba() {
    assert_eq!(bgra_to_rgba(&[1, 2, 3, 4, 5, 6, 7, 0]), vec![3, 2, 1, 4, 7, 6, 5, 0]);
    assert_eq!(bgra_to_rgba(&[1, 2, 3, 0, 5, 6, 7, 0]), vec![3, 2, 1, 255, 7, 6, 5, 255]);
    assert_eq!(bgra_to_rgba(&[1, 2, 3, 9, 8]), vec![3, 2, 1, 9, 0]);
    assert!(bgra_to_rgba(&[]).is_empty());
}

#[test]
fn copying_a_directory_onto_itself_is_a_path_conflict() {
    let err = directory_transfer_start("/data/a", "/data/a", PathKind::Directory, true, false)
        .unwrap_err();
    match err {
        StorageError::PathConflict { path, message } => {
            assert_eq!(path, "/data/a");
            assert_eq!(message, "source and destination are the same directory");
        }
        other => panic!("unexpected error: {:?}", other),
    }
}

#[test]
fn moving_a_directory_onto_itself_is_already_done() {
    assert_eq!(
        directory_transfer_start("/data/a", "/data/a", PathKind::Directory, false, true).unwrap(),
        TransferStart::AlreadyInPlace
    );
}

#[test]
fn directory_transfer_to_a_free_or_occupied_destination() {
    assert_eq!(
        directory_transfer_start("/data/a", "/data/b", PathKind::Missing, false, false).unwrap(),
        TransferStart::Transfer
    );
    assert_eq!(
        directory_transfer_start("/data/a", "/data/b", PathKind::Directory, true, true).unwrap(),
        TransferStart::ReplaceDestination
    );
    match directory_transfer_start("/data/a", "/data/b", PathKind::File, false, false) {
        Err(StorageError::AlreadyExists { path }) => assert_eq!(path, "/data/b"),
        other => panic!("unexpected result: {:?}", other),
    }
}

#[test]
fn rename_targets_must_be_single_path_names() {
    assert!(validate_single_path_name("final.txt", "file").is_ok());
    for bad in ["", ".", "..", "a/b", "a\\b"] {
        match validate_single_path_name(bad, "directory") {
            Err(StorageError::InvalidName { kind, value }) => {
                assert_eq!(kind, "directory");
                assert_eq!(value, bad);
            }
            other => panic!("unexpected result for {:?}: {:?}", bad, other),
        }
    }
    assert!(validate_single_path_name("..hidden", "file").is_ok());
}

#[test]
fn occupied_destinations_need_overwrite() {
    assert_eq!(destination_start("/data/out.bin", PathKind::Missing, false).unwrap(), false);
    assert_eq!(destination_start("/data/out.bin", PathKind::File, true).unwrap(), true);
    match destination_start("/data/out.bin", PathKind::File, false) {
        Err(StorageError::AlreadyExists { path }) => assert_eq!(path, "/data/out.bin"),
        other => panic!("unexpected result: {:?}", other),
    }
}
